//! The module matrix of a symbol and the stages that place its fixed patterns.
//!
//! The matrix is a square of modules, the quiet zone of four modules on each
//! side included. A module is addressed by its column `x` and its row `y`,
//! both counted from the upper left corner. Each stage is stated module by
//! module: a `spec` function says what a module becomes, from the matrix
//! before the stage.

use vstd::prelude::*;
use core::ops::BitXor;
use vstd::std_specs::ops::BitXorSpecImpl;
use crate::error::QrError;
use crate::input::Settings;
use crate::standard_qr_code::utils::fits_no_version;
use crate::standard_qr_code::utils::get_verison_info;
use crate::standard_qr_code::utils::is_chosen_version;
use crate::standard_qr_code::version_constants::alignment_pattern_data;
use crate::standard_qr_code::version_constants::spec_alignment_centres;
use crate::standard_qr_code::version_constants::spec_error_blocks;
use crate::standard_qr_code::version_constants::spec_version_info;
use crate::standard_qr_code::version_constants::version_info;

verus! {

/// The colour of a module.
#[derive(Debug, Clone, Copy, PartialEq, Eq, Structural)]
pub enum SymbolStatus {
    /// light module
    LogicalFalse,
    /// dark module
    LogicalTrue,
    /// no colour was given yet
    Uninitialised,
}

/// What a module is part of.
#[derive(Debug, PartialEq, Eq, Clone, Copy, Structural)]
pub enum SymbolRole {
    /// no role was given yet
    Uninitialised,
    /// the light margin around the symbol
    QuietZone,
    /// one of the three squares in the corners
    FinderPattern,
    /// the light line between a finder pattern and the rest
    Separator,
    /// the alternating line that gives the module grid
    TimingPattern,
    /// one of the small squares of version 2 and above
    AlignmentPattern,
    /// data and error-correction codewords
    EncodingRegion,
    /// kept free for the version information
    ReservedVersionInformation,
    /// the version information of version 7 and above
    VersionInformation,
    /// kept free for the format information
    ReservedFormatInformation,
    /// the format information: level and mask
    FormatInformation,
    /// the one module that is always dark
    AlwaysTrue,
}

/// One module: its colour and its role.
#[derive(Debug, Clone, Copy, PartialEq, Eq, Structural)]
pub struct Module {
    pub status: SymbolStatus,
    pub role: SymbolRole,
}

/// One group of error-correction blocks of equal size.
#[derive(Clone, Copy, Debug, PartialEq, Eq, Structural)]
pub struct ErrorBlockInfo {
    /// number of blocks in this group
    pub num_block: u8,
    /// data bytes in each block
    pub num_data_bytes: u8,
    /// error-correction bytes in each block
    pub num_error_bytes: u8,
}

impl ErrorBlockInfo {
    /// A group of `num_block` blocks of `total_block_len` bytes each, of
    /// which `num_data_bytes` are data.
    pub open spec fn spec_new(num_block: u8, total_block_len: u8, num_data_bytes: u8) -> ErrorBlockInfo {
        ErrorBlockInfo {
            num_block,
            num_data_bytes,
            num_error_bytes: (total_block_len - num_data_bytes) as u8,
        }
    }

    /// A group of `num_block` blocks of `total_block_len` bytes each, of
    /// which `num_data_bytes` are data.
    pub fn new(num_block: u8, total_block_len: u8, num_data_bytes: u8) -> (info: ErrorBlockInfo)
        requires
            num_data_bytes <= total_block_len,
        ensures
            info == ErrorBlockInfo::spec_new(num_block, total_block_len, num_data_bytes),
    {
        ErrorBlockInfo { num_block, num_data_bytes, num_error_bytes: total_block_len - num_data_bytes }
    }
}

/// Exclusive or of two colours.
pub open spec fn status_xor(a: SymbolStatus, b: SymbolStatus) -> SymbolStatus {
    if a == b {
        SymbolStatus::LogicalFalse
    } else {
        SymbolStatus::LogicalTrue
    }
}

impl BitXor for SymbolStatus {
    type Output = SymbolStatus;

    /// Exclusive or of two colours; both modules must have a colour.
    fn bitxor(self, rhs: SymbolStatus) -> (result: SymbolStatus)
        ensures
            result == status_xor(self, rhs),
    {
        match (self, rhs) {
            (SymbolStatus::LogicalFalse, SymbolStatus::LogicalFalse) => SymbolStatus::LogicalFalse,
            (SymbolStatus::LogicalTrue, SymbolStatus::LogicalTrue) => SymbolStatus::LogicalFalse,
            _ => SymbolStatus::LogicalTrue,
        }
    }
}

impl BitXorSpecImpl for SymbolStatus {
    open spec fn obeys_bitxor_spec() -> bool {
        true
    }

    /// Only modules that have a colour can be combined.
    open spec fn bitxor_req(self, rhs: SymbolStatus) -> bool {
        self != SymbolStatus::Uninitialised && rhs != SymbolStatus::Uninitialised
    }

    open spec fn bitxor_spec(self, rhs: SymbolStatus) -> SymbolStatus {
        status_xor(self, rhs)
    }
}

/// The matrix has `width` columns of `width` modules.
pub open spec fn is_square(grid: Seq<Seq<Module>>, width: int) -> bool {
    &&& grid.len() == width
    &&& forall|x: int| 0 <= x < width ==> (#[trigger] grid[x]).len() == width
}

/// Number of modules along one side of the matrix of a version, the quiet
/// zone included.
pub open spec fn width_of_version(version: int) -> int {
    17 + 4 * version + 8
}

/// `current` holds the modules of `target` in every place before column `x`,
/// and in column `x` before row `y`; elsewhere those of `source`.
pub open spec fn is_partly(
    current: Seq<Seq<Module>>,
    source: Seq<Seq<Module>>,
    target: Seq<Seq<Module>>,
    x: int,
    y: int,
) -> bool {
    &&& current.len() == source.len()
    &&& forall|i: int| 0 <= i < source.len() ==> (#[trigger] current[i]).len() == source[i].len()
    &&& forall|i: int, j: int|
        0 <= i < source.len() && 0 <= j < source[i].len() ==> (#[trigger] current[i][j]) == if i < x || (i
            == x && j < y) {
            target[i][j]
        } else {
            source[i][j]
        }
}

/// The module that the stage of the quiet zone leaves at a place.
pub open spec fn quiet_zone_module(grid: Seq<Seq<Module>>, x: int, y: int) -> Module {
    let width = grid.len();
    if x <= 3 || x >= width - 4 || y <= 3 || y >= width - 4 {
        Module { status: SymbolStatus::LogicalFalse, role: SymbolRole::QuietZone }
    } else {
        grid[x][y]
    }
}

/// The matrix after the stage of the quiet zone.
pub open spec fn spec_quiet_zone(grid: Seq<Seq<Module>>) -> Seq<Seq<Module>> {
    Seq::new(grid.len(), |x: int| Seq::new(grid[x].len(), |y: int| quiet_zone_module(grid, x, y)))
}

/// `place` is at most `reach` away from `centre`.
pub open spec fn near(place: int, centre: int, reach: int) -> bool {
    centre - reach <= place <= centre + reach
}

/// The larger of the two distances of a place from a centre, along the
/// columns and along the rows: the ring of a square pattern that the place
/// lies on.
pub open spec fn ring_of(x: int, y: int, centre_x: int, centre_y: int) -> int {
    let dx = if x >= centre_x {
        x - centre_x
    } else {
        centre_x - x
    };
    let dy = if y >= centre_y {
        y - centre_y
    } else {
        centre_y - y
    };
    if dx >= dy {
        dx
    } else {
        dy
    }
}

/// Colour of the rings of a finder pattern: dark centre of three by three,
/// light ring, dark ring.
pub open spec fn finder_status(ring: int) -> SymbolStatus {
    if ring == 2 {
        SymbolStatus::LogicalFalse
    } else {
        SymbolStatus::LogicalTrue
    }
}

/// Colour of the rings of an alignment pattern: dark centre, light ring,
/// dark ring.
pub open spec fn alignment_status(ring: int) -> SymbolStatus {
    if ring == 1 {
        SymbolStatus::LogicalFalse
    } else {
        SymbolStatus::LogicalTrue
    }
}

/// The centre of the finder pattern that covers a place, if one does: the
/// upper left, the upper right, the lower left.
pub open spec fn finder_centre(width: int, x: int, y: int) -> Option<(int, int)> {
    if near(x, 7, 3) && near(y, 7, 3) {
        Some((7, 7))
    } else if near(x, width - 8, 3) && near(y, 7, 3) {
        Some((width - 8, 7))
    } else if near(x, 7, 3) && near(y, width - 8, 3) {
        Some((7, width - 8))
    } else {
        None
    }
}

/// The module that the stage of the finder patterns leaves at a place.
pub open spec fn finder_module(grid: Seq<Seq<Module>>, x: int, y: int) -> Module {
    match finder_centre(grid.len() as int, x, y) {
        Some((centre_x, centre_y)) => if grid[x][y].role == SymbolRole::Uninitialised {
            Module {
                status: finder_status(ring_of(x, y, centre_x, centre_y)),
                role: SymbolRole::FinderPattern,
            }
        } else {
            grid[x][y]
        },
        None => grid[x][y],
    }
}

/// The matrix after the stage of the finder patterns.
pub open spec fn spec_finders(grid: Seq<Seq<Module>>) -> Seq<Seq<Module>> {
    Seq::new(grid.len(), |x: int| Seq::new(grid[x].len(), |y: int| finder_module(grid, x, y)))
}

/// The module that the stage of the timing patterns leaves at a place:
/// column 10 and row 10 alternate, dark where the other coordinate is even.
pub open spec fn timing_module(grid: Seq<Seq<Module>>, x: int, y: int) -> Module {
    if (x == 10 || y == 10) && grid[x][y].role == SymbolRole::Uninitialised {
        let along = if x == 10 {
            y
        } else {
            x
        };
        Module {
            status: if along % 2 == 0 {
                SymbolStatus::LogicalTrue
            } else {
                SymbolStatus::LogicalFalse
            },
            role: SymbolRole::TimingPattern,
        }
    } else {
        grid[x][y]
    }
}

/// The matrix after the stage of the timing patterns.
pub open spec fn spec_timing_pattern(grid: Seq<Seq<Module>>) -> Seq<Seq<Module>> {
    Seq::new(grid.len(), |x: int| Seq::new(grid[x].len(), |y: int| timing_module(grid, x, y)))
}

/// The place is not on the border of the matrix.
pub open spec fn is_inner(width: int, x: int, y: int) -> bool {
    0 < x < width - 1 && 0 < y < width - 1
}

/// One of the eight neighbours of a place has the role.
pub open spec fn touches_role(grid: Seq<Seq<Module>>, x: int, y: int, role: SymbolRole) -> bool {
    ||| grid[x + 1][y].role == role
    ||| grid[x][y + 1].role == role
    ||| grid[x - 1][y].role == role
    ||| grid[x][y - 1].role == role
    ||| grid[x - 1][y - 1].role == role
    ||| grid[x + 1][y - 1].role == role
    ||| grid[x - 1][y + 1].role == role
    ||| grid[x + 1][y + 1].role == role
}

/// The module that the stage of the separators leaves at a place.
pub open spec fn separator_module(grid: Seq<Seq<Module>>, x: int, y: int) -> Module {
    if is_inner(grid.len() as int, x, y) && touches_role(grid, x, y, SymbolRole::FinderPattern) && (
    grid[x][y].role == SymbolRole::Uninitialised || grid[x][y].role == SymbolRole::TimingPattern) {
        Module { status: SymbolStatus::LogicalFalse, role: SymbolRole::Separator }
    } else {
        grid[x][y]
    }
}

/// The matrix after the stage of the separators.
pub open spec fn spec_separators(grid: Seq<Seq<Module>>) -> Seq<Seq<Module>> {
    Seq::new(grid.len(), |x: int| Seq::new(grid[x].len(), |y: int| separator_module(grid, x, y)))
}

/// The place of the one module that is always dark.
pub open spec fn is_dark_place(width: int, x: int, y: int) -> bool {
    x == 12 && y == width - 12
}

/// The module that the reservation of the format information leaves at a
/// place: a module without a role beside a separator becomes light and is
/// kept for the format information, but for the one that is always dark,
/// which becomes dark and has its own role.
pub open spec fn reserved_format_module(grid: Seq<Seq<Module>>, x: int, y: int) -> Module {
    let width = grid.len() as int;
    if is_inner(width, x, y) && touches_role(grid, x, y, SymbolRole::Separator) && grid[x][y].role
        == SymbolRole::Uninitialised && y != width - 13 && x != width - 13 {
        if is_dark_place(width, x, y) {
            Module { status: SymbolStatus::LogicalTrue, role: SymbolRole::AlwaysTrue }
        } else {
            Module { status: SymbolStatus::LogicalFalse, role: SymbolRole::ReservedFormatInformation }
        }
    } else {
        grid[x][y]
    }
}

/// The matrix after the reservation of the format information.
pub open spec fn spec_reserve_format_information(grid: Seq<Seq<Module>>) -> Seq<Seq<Module>> {
    Seq::new(grid.len(), |x: int| Seq::new(grid[x].len(), |y: int| reserved_format_module(grid, x, y)))
}

/// The pair of centres would put an alignment pattern on a finder pattern.
pub open spec fn is_on_finder(centres: Seq<u8>, centre_x: int, centre_y: int) -> bool {
    let lower = centres[0] + 4;
    let upper = centres[centres.len() - 1] + 4;
    ((centre_x == upper || centre_x == lower) && centre_y == lower) || (centre_x == lower && centre_y
        == upper)
}

/// Among the first `count` centres, the last one that, as the row of the
/// centre of a pattern in column `centre_x`, gives a pattern over the place.
pub open spec fn last_centre_y(centres: Seq<u8>, centre_x: int, x: int, y: int, count: int) -> Option<
    int,
>
    decreases count,
{
    if count <= 0 {
        None
    } else {
        let centre_y = centres[count - 1] + 4;
        if !is_on_finder(centres, centre_x, centre_y) && near(x, centre_x, 2) && near(y, centre_y, 2) {
            Some(centre_y)
        } else {
            last_centre_y(centres, centre_x, x, y, count - 1)
        }
    }
}

/// The centre of the last alignment pattern over the place, the columns of
/// the centres taken from the first `count` centres.
pub open spec fn last_alignment_centre(centres: Seq<u8>, x: int, y: int, count: int) -> Option<
    (int, int),
>
    decreases count,
{
    if count <= 0 {
        None
    } else {
        let centre_x = centres[count - 1] + 4;
        match last_centre_y(centres, centre_x, x, y, centres.len() as int) {
            Some(centre_y) => Some((centre_x, centre_y)),
            None => last_alignment_centre(centres, x, y, count - 1),
        }
    }
}

/// The module that the stage of the alignment patterns leaves at a place.
pub open spec fn alignment_module(grid: Seq<Seq<Module>>, centres: Seq<u8>, x: int, y: int) -> Module {
    match last_alignment_centre(centres, x, y, centres.len() as int) {
        Some((centre_x, centre_y)) => Module {
            status: alignment_status(ring_of(x, y, centre_x, centre_y)),
            role: SymbolRole::AlignmentPattern,
        },
        None => grid[x][y],
    }
}

/// The matrix after the stage of the alignment patterns.
pub open spec fn spec_draw_alignment_pattern(grid: Seq<Seq<Module>>, centres: Seq<u8>) -> Seq<
    Seq<Module>,
> {
    Seq::new(grid.len(), |x: int| Seq::new(grid[x].len(), |y: int| alignment_module(grid, centres, x, y)))
}

/// The place lies in one of the two blocks, of six by four modules, beside
/// the lower left and the upper right finder pattern.
pub open spec fn in_version_block(width: int, x: int, y: int) -> bool {
    (4 <= x <= 9 && width - 15 <= y <= width - 12) || (width - 15 <= x <= width - 12 && 4 <= y <= 9)
}

/// The module that the reservation of the version information leaves at a
/// place.
pub open spec fn reserved_version_module(grid: Seq<Seq<Module>>, version: int, x: int, y: int) -> Module {
    if version >= 7 && in_version_block(grid.len() as int, x, y) && grid[x][y].role
        != SymbolRole::Separator {
        Module { status: grid[x][y].status, role: SymbolRole::ReservedVersionInformation }
    } else {
        grid[x][y]
    }
}

/// The matrix after the reservation of the version information.
pub open spec fn spec_reserve_version_information(grid: Seq<Seq<Module>>, version: int) -> Seq<
    Seq<Module>,
> {
    Seq::new(
        grid.len(),
        |x: int| Seq::new(grid[x].len(), |y: int| reserved_version_module(grid, version, x, y)),
    )
}

/// The number, counted from the highest bit, of the bit of the version
/// information that stands at a place, if one does.
pub open spec fn version_bit_at(width: int, x: int, y: int) -> Option<int> {
    if 4 <= x <= 9 && width - 15 <= y <= width - 13 {
        Some((9 - x) * 3 + (width - 13 - y))
    } else if width - 15 <= x <= width - 13 && 4 <= y <= 9 {
        Some((9 - y) * 3 + (width - 13 - x))
    } else {
        None
    }
}

/// The colour for bit `index` of `bits`, bit 0 being the lowest.
pub open spec fn bit_status(bits: u32, index: u32) -> SymbolStatus {
    if (bits >> index) & 1 == 1 {
        SymbolStatus::LogicalTrue
    } else {
        SymbolStatus::LogicalFalse
    }
}

/// The module that the stage of the version information leaves at a place.
pub open spec fn version_module(grid: Seq<Seq<Module>>, version: int, x: int, y: int) -> Module {
    match version_bit_at(grid.len() as int, x, y) {
        Some(number) => if version >= 7 {
            Module {
                status: bit_status(spec_version_info(version), (17 - number) as u32),
                role: SymbolRole::VersionInformation,
            }
        } else {
            grid[x][y]
        },
        None => grid[x][y],
    }
}

/// The matrix after the stage of the version information.
pub open spec fn spec_version_information(grid: Seq<Seq<Module>>, version: int) -> Seq<Seq<Module>> {
    Seq::new(grid.len(), |x: int| Seq::new(grid[x].len(), |y: int| version_module(grid, version, x, y)))
}

/// Every place of a bit of the version information is reserved for it.
pub open spec fn version_places_reserved(grid: Seq<Seq<Module>>) -> bool {
    forall|x: int, y: int|
        0 <= x < grid.len() && 0 <= y < grid.len() && version_bit_at(grid.len() as int, x, y) is Some
            ==> (#[trigger] grid[x][y]).role == SymbolRole::ReservedVersionInformation
}

/// A stage that gives no module the role, and takes it from none, leaves
/// the neighbours with that role where they were, also half way through.
pub proof fn lemma_touches_stable(
    current: Seq<Seq<Module>>,
    source: Seq<Seq<Module>>,
    target: Seq<Seq<Module>>,
    x: int,
    y: int,
    role: SymbolRole,
)
    requires
        is_square(source, source.len() as int),
        is_inner(source.len() as int, x, y),
        is_partly(current, source, target, x, y),
        forall|i: int, j: int|
            0 <= i < source.len() && 0 <= j < source.len() ==> ((#[trigger] target[i][j]).role == role
                <==> source[i][j].role == role),
    ensures
        touches_role(current, x, y, role) == touches_role(source, x, y, role),
{
    assert((current[x + 1][y].role == role) == (source[x + 1][y].role == role)) by {
        assert(target[x + 1][y].role == role <==> source[x + 1][y].role == role);
    }
    assert((current[x][y + 1].role == role) == (source[x][y + 1].role == role)) by {
        assert(target[x][y + 1].role == role <==> source[x][y + 1].role == role);
    }
    assert((current[x - 1][y].role == role) == (source[x - 1][y].role == role)) by {
        assert(target[x - 1][y].role == role <==> source[x - 1][y].role == role);
    }
    assert((current[x][y - 1].role == role) == (source[x][y - 1].role == role)) by {
        assert(target[x][y - 1].role == role <==> source[x][y - 1].role == role);
    }
    assert((current[x - 1][y - 1].role == role) == (source[x - 1][y - 1].role == role)) by {
        assert(target[x - 1][y - 1].role == role <==> source[x - 1][y - 1].role == role);
    }
    assert((current[x + 1][y - 1].role == role) == (source[x + 1][y - 1].role == role)) by {
        assert(target[x + 1][y - 1].role == role <==> source[x + 1][y - 1].role == role);
    }
    assert((current[x - 1][y + 1].role == role) == (source[x - 1][y + 1].role == role)) by {
        assert(target[x - 1][y + 1].role == role <==> source[x - 1][y + 1].role == role);
    }
    assert((current[x + 1][y + 1].role == role) == (source[x + 1][y + 1].role == role)) by {
        assert(target[x + 1][y + 1].role == role <==> source[x + 1][y + 1].role == role);
    }
}

/// The ring of a square pattern that a place lies on.
fn ring(x: usize, y: usize, centre_x: usize, centre_y: usize) -> (ring: usize)
    ensures
        ring == ring_of(x as int, y as int, centre_x as int, centre_y as int),
{
    let dx = if x >= centre_x {
        x - centre_x
    } else {
        centre_x - x
    };
    let dy = if y >= centre_y {
        y - centre_y
    } else {
        centre_y - y
    };
    if dx >= dy {
        dx
    } else {
        dy
    }
}

/// `place` is at most `reach` away from `centre`.
fn is_near(place: usize, centre: usize, reach: usize) -> (result: bool)
    requires
        reach <= centre,
        centre + reach <= usize::MAX,
    ensures
        result == near(place as int, centre as int, reach as int),
{
    centre - reach <= place && place <= centre + reach
}

/// The centre of the finder pattern that covers a place, if one does.
fn finder_centre_of(width: usize, x: usize, y: usize) -> (centre: Option<(usize, usize)>)
    requires
        29 <= width <= 185,
    ensures
        match centre {
            Some((centre_x, centre_y)) => finder_centre(width as int, x as int, y as int) == Some(
                (centre_x as int, centre_y as int),
            ),
            None => finder_centre(width as int, x as int, y as int) is None,
        },
{
    if is_near(x, 7, 3) && is_near(y, 7, 3) {
        Some((7, 7))
    } else if is_near(x, width - 8, 3) && is_near(y, 7, 3) {
        Some((width - 8, 7))
    } else if is_near(x, 7, 3) && is_near(y, width - 8, 3) {
        Some((7, width - 8))
    } else {
        None
    }
}

/// The pair of centres would put an alignment pattern on a finder pattern.
fn centre_on_finder(centres: &Vec<u8>, centre_x: usize, centre_y: usize) -> (result: bool)
    requires
        centres@.len() > 0,
    ensures
        result == is_on_finder(centres@, centre_x as int, centre_y as int),
{
    let lower: usize = centres[0] as usize + 4;
    let upper: usize = centres[centres.len() - 1] as usize + 4;
    ((centre_x == upper || centre_x == lower) && centre_y == lower) || (centre_x == lower && centre_y
        == upper)
}

/// The centre of the last alignment pattern over a place, if there is one.
fn alignment_centre_over(centres: &Vec<u8>, x: usize, y: usize) -> (centre: Option<(usize, usize)>)
    ensures
        match centre {
            Some((centre_x, centre_y)) => last_alignment_centre(
                centres@,
                x as int,
                y as int,
                centres@.len() as int,
            ) == Some((centre_x as int, centre_y as int)),
            None => last_alignment_centre(centres@, x as int, y as int, centres@.len() as int) is None,
        },
{
    let mut found: Option<(usize, usize)> = None;
    let mut i: usize = 0;
    while i < centres.len()
        invariant
            i <= centres@.len(),
            match found {
                Some((centre_x, centre_y)) => last_alignment_centre(centres@, x as int, y as int, i as int)
                    == Some((centre_x as int, centre_y as int)),
                None => last_alignment_centre(centres@, x as int, y as int, i as int) is None,
            },
        decreases centres@.len() - i,
    {
        let centre_x: usize = centres[i] as usize + 4;
        let mut row: Option<usize> = None;
        let mut j: usize = 0;
        while j < centres.len()
            invariant
                j <= centres@.len(),
                i < centres@.len(),
                centre_x == centres@[i as int] + 4,
                match row {
                    Some(centre_y) => last_centre_y(centres@, centre_x as int, x as int, y as int, j as int)
                        == Some(centre_y as int),
                    None => last_centre_y(centres@, centre_x as int, x as int, y as int, j as int) is None,
                },
            decreases centres@.len() - j,
        {
            let centre_y: usize = centres[j] as usize + 4;
            if !centre_on_finder(centres, centre_x, centre_y) && is_near(x, centre_x, 2) && is_near(
                y,
                centre_y,
                2,
            ) {
                row = Some(centre_y);
            }
            j += 1;
        }
        match row {
            Some(centre_y) => {
                found = Some((centre_x, centre_y));
            },
            None => {},
        }
        i += 1;
    }
    found
}

/// All that the construction of one symbol needs.
#[derive(Debug, Clone)]
pub struct QRData {
    /// the modules, column by column
    pub modules: Vec<Vec<Module>>,
    pub version: u8,
    pub error_blocks: Vec<ErrorBlockInfo>,
    pub settings: Settings,
}

impl QRData {
    /// The matrix: `grid()[x][y]` is the module in column `x` and row `y`.
    pub open spec fn grid(&self) -> Seq<Seq<Module>> {
        Seq::new(self.modules@.len(), |x: int| self.modules@[x]@)
    }

    /// The version is one of the forty, and the matrix is the square of
    /// that version.
    pub open spec fn wf(&self) -> bool {
        &&& 1 <= self.version <= 40
        &&& is_square(self.grid(), width_of_version(self.version as int))
    }

    /// The same symbol but for the matrix.
    pub open spec fn same_but_grid(&self, other: &QRData) -> bool {
        &&& self.version == other.version
        &&& self.error_blocks@ == other.error_blocks@
        &&& self.settings == other.settings
    }

    /// The module in column `x` and row `y`.
    pub fn module_at(&self, x: usize, y: usize) -> (module: Module)
        requires
            x < self.grid().len(),
            y < self.grid()[x as int].len(),
        ensures
            module == self.grid()[x as int][y as int],
    {
        self.modules[x][y]
    }

    /// Replaces the module in column `x` and row `y`.
    pub fn set_module(&mut self, x: usize, y: usize, module: Module)
        requires
            x < old(self).grid().len(),
            y < old(self).grid()[x as int].len(),
        ensures
            final(self).same_but_grid(old(self)),
            final(self).grid() == old(self).grid().update(
                x as int,
                old(self).grid()[x as int].update(y as int, module),
            ),
    {
        self.modules[x][y] = module;
        assert(self.grid() =~~= old(self).grid().update(
            x as int,
            old(self).grid()[x as int].update(y as int, module),
        ));
    }

    /// An empty matrix for the smallest version that holds the text at the
    /// level asked for. A text that no version holds is refused.
    pub fn new(input: Settings) -> (made: Result<QRData, QrError>)
        ensures
            match made {
                Ok(data) => {
                    &&& data.wf()
                    &&& data.settings == input
                    &&& is_chosen_version(
                        input.text().len() as int,
                        input.error_level,
                        data.version as int,
                    )
                    &&& data.error_blocks@ == spec_error_blocks(data.version as int, input.error_level)
                    &&& forall|x: int, y: int|
                        0 <= x < data.grid().len() && 0 <= y < data.grid().len() ==> (
                        #[trigger] data.grid()[x][y]) == (Module {
                            status: SymbolStatus::Uninitialised,
                            role: SymbolRole::Uninitialised,
                        })
                },
                Err(error) => error == QrError::TextTooLong && fits_no_version(
                    input.text().len() as int,
                    input.error_level,
                ),
            },
    {
        let length = input.information.as_str().as_bytes().len();
        let (version, error_blocks) = match get_verison_info(length, input.error_level) {
            Ok(chosen) => chosen,
            Err(error) => {
                return Err(error);
            },
        };
        let width: usize = 17 + 4 * (version as usize) + 8;
        let blank = Module { status: SymbolStatus::Uninitialised, role: SymbolRole::Uninitialised };
        let mut modules: Vec<Vec<Module>> = Vec::new();
        let mut x: usize = 0;
        while x < width
            invariant
                x <= width,
                modules@.len() == x,
                blank == (Module { status: SymbolStatus::Uninitialised, role: SymbolRole::Uninitialised }),
                forall|i: int| 0 <= i < x ==> (#[trigger] modules@[i])@.len() == width,
                forall|i: int, j: int| 0 <= i < x && 0 <= j < width ==> (#[trigger] modules@[i]@[j]) == blank,
            decreases width - x,
        {
            let mut column: Vec<Module> = Vec::new();
            let mut y: usize = 0;
            while y < width
                invariant
                    y <= width,
                    column@.len() == y,
                    forall|j: int| 0 <= j < y ==> (#[trigger] column@[j]) == blank,
                decreases width - y,
            {
                column.push(blank);
                y += 1;
            }
            modules.push(column);
            x += 1;
        }
        let data = QRData { modules, version, error_blocks, settings: input };
        proof {
            assert forall|i: int| 0 <= i < width implies (#[trigger] data.grid()[i]).len() == width by {
                assert(data.modules@[i]@.len() == width);
            }
            assert forall|i: int, j: int|
                0 <= i < data.grid().len() && 0 <= j < data.grid().len() implies (
            #[trigger] data.grid()[i][j]) == blank by {
                assert(data.modules@[i]@[j] == blank);
            }
        }
        Ok(data)
    }

    /// The version of the symbol.
    pub fn get_version(&self) -> (version: u8)
        ensures
            version == self.version,
    {
        self.version
    }

    /// Number of modules along one side of the matrix, the quiet zone
    /// included.
    pub fn get_width(&self) -> (width: usize)
        requires
            self.wf(),
        ensures
            width == width_of_version(self.version as int),
            width == self.grid().len(),
    {
        self.modules.len()
    }

    /// What is encoded, and how.
    pub fn get_settings(&self) -> (settings: &Settings)
        ensures
            *settings == self.settings,
    {
        &self.settings
    }

    /// The groups of error-correction blocks of the symbol.
    pub fn get_error_info(&self) -> (blocks: &Vec<ErrorBlockInfo>)
        ensures
            *blocks == self.error_blocks,
    {
        &self.error_blocks
    }

    /// The colours of the modules, column by column.
    pub fn _get_data(&self) -> (colours: Vec<Vec<SymbolStatus>>)
        ensures
            colours@.len() == self.grid().len(),
            forall|x: int|
                0 <= x < self.grid().len() ==> (#[trigger] colours@[x])@.len() == self.grid()[x].len(),
            forall|x: int, y: int|
                0 <= x < self.grid().len() && 0 <= y < self.grid()[x].len() ==> (
                #[trigger] colours@[x]@[y]) == self.grid()[x][y].status,
    {
        let mut colours: Vec<Vec<SymbolStatus>> = Vec::new();
        let mut x: usize = 0;
        while x < self.modules.len()
            invariant
                x <= self.modules@.len(),
                colours@.len() == x,
                forall|i: int| 0 <= i < x ==> (#[trigger] colours@[i])@.len() == self.grid()[i].len(),
                forall|i: int, j: int|
                    0 <= i < x && 0 <= j < self.grid()[i].len() ==> (#[trigger] colours@[i]@[j])
                        == self.grid()[i][j].status,
            decreases self.modules@.len() - x,
        {
            let mut column: Vec<SymbolStatus> = Vec::new();
            let mut y: usize = 0;
            while y < self.modules[x].len()
                invariant
                    x < self.modules@.len(),
                    y <= self.modules@[x as int]@.len(),
                    column@.len() == y,
                    forall|j: int| 0 <= j < y ==> (#[trigger] column@[j]) == self.grid()[x as int][j].status,
                decreases self.modules@[x as int]@.len() - y,
            {
                column.push(self.modules[x][y].status);
                y += 1;
            }
            colours.push(column);
            x += 1;
        }
        colours
    }

    /// Stage 1: the four outer rows and columns become the light quiet zone.
    pub fn quiet_zone(&mut self)
        requires
            old(self).wf(),
        ensures
            final(self).wf(),
            final(self).same_but_grid(old(self)),
            final(self).grid() == spec_quiet_zone(old(self).grid()),
    {
        let width = self.get_width();
        let ghost source = self.grid();
        let ghost target = spec_quiet_zone(source);
        for x in 0..width
            invariant
                self.same_but_grid(old(self)),
                is_square(source, width as int),
                target == spec_quiet_zone(source),
                is_partly(self.grid(), source, target, x as int, 0),
        {
            for y in 0..width
                invariant
                    x < width,
                    self.same_but_grid(old(self)),
                    is_square(source, width as int),
                    target == spec_quiet_zone(source),
                    is_partly(self.grid(), source, target, x as int, y as int),
            {
                if x <= 3 || x >= width - 4 || y <= 3 || y >= width - 4 {
                    self.set_module(
                        x,
                        y,
                        Module { status: SymbolStatus::LogicalFalse, role: SymbolRole::QuietZone },
                    );
                }
            }
        }
        assert(self.grid() =~~= target);
    }
    /// One of the eight neighbours of a place has the role.
    pub fn touches(&self, x: usize, y: usize, role: SymbolRole) -> (result: bool)
        requires
            is_square(self.grid(), self.grid().len() as int),
            is_inner(self.grid().len() as int, x as int, y as int),
        ensures
            result == touches_role(self.grid(), x as int, y as int, role),
    {
        let width = self.modules.len();
        assert(x + 1 < width && y + 1 < width);
        self.module_at(x + 1, y).role == role || self.module_at(x, y + 1).role == role || self.module_at(
            x - 1,
            y,
        ).role == role || self.module_at(x, y - 1).role == role || self.module_at(x - 1, y - 1).role
            == role || self.module_at(x + 1, y - 1).role == role || self.module_at(x - 1, y + 1).role
            == role || self.module_at(x + 1, y + 1).role == role
    }

    /// Stage 2: the three finder patterns, in the upper left, the upper
    /// right and the lower left corner, where no module has a role yet.
    pub fn finders(&mut self)
        requires
            old(self).wf(),
        ensures
            final(self).wf(),
            final(self).same_but_grid(old(self)),
            final(self).grid() == spec_finders(old(self).grid()),
    {
        let width = self.get_width();
        let ghost source = self.grid();
        let ghost target = spec_finders(source);
        for x in 0..width
            invariant
                29 <= width <= 185,
                self.same_but_grid(old(self)),
                is_square(source, width as int),
                target == spec_finders(source),
                is_partly(self.grid(), source, target, x as int, 0),
        {
            for y in 0..width
                invariant
                    x < width,
                    29 <= width <= 185,
                    self.same_but_grid(old(self)),
                    is_square(source, width as int),
                    target == spec_finders(source),
                    is_partly(self.grid(), source, target, x as int, y as int),
            {
                match finder_centre_of(width, x, y) {
                    Some((centre_x, centre_y)) => {
                        if self.module_at(x, y).role == SymbolRole::Uninitialised {
                            let status = if ring(x, y, centre_x, centre_y) == 2 {
                                SymbolStatus::LogicalFalse
                            } else {
                                SymbolStatus::LogicalTrue
                            };
                            self.set_module(x, y, Module { status, role: SymbolRole::FinderPattern });
                        }
                    },
                    None => {},
                }
            }
        }
        assert(self.grid() =~~= target);
    }

    /// Stage 3: the timing patterns in column 10 and row 10, where no
    /// module has a role yet.
    pub fn timing_pattern(&mut self)
        requires
            old(self).wf(),
        ensures
            final(self).wf(),
            final(self).same_but_grid(old(self)),
            final(self).grid() == spec_timing_pattern(old(self).grid()),
    {
        let width = self.get_width();
        let ghost source = self.grid();
        let ghost target = spec_timing_pattern(source);
        for x in 0..width
            invariant
                self.same_but_grid(old(self)),
                is_square(source, width as int),
                target == spec_timing_pattern(source),
                is_partly(self.grid(), source, target, x as int, 0),
        {
            for y in 0..width
                invariant
                    x < width,
                    self.same_but_grid(old(self)),
                    is_square(source, width as int),
                    target == spec_timing_pattern(source),
                    is_partly(self.grid(), source, target, x as int, y as int),
            {
                if (x == 10 || y == 10) && self.module_at(x, y).role == SymbolRole::Uninitialised {
                    let along = if x == 10 {
                        y
                    } else {
                        x
                    };
                    let status = if along % 2 == 0 {
                        SymbolStatus::LogicalTrue
                    } else {
                        SymbolStatus::LogicalFalse
                    };
                    self.set_module(x, y, Module { status, role: SymbolRole::TimingPattern });
                }
            }
        }
        assert(self.grid() =~~= target);
    }

    /// Stage 4: the light separators around the finder patterns, on modules
    /// without a role and on modules of the timing patterns.
    pub fn separators(&mut self)
        requires
            old(self).wf(),
        ensures
            final(self).wf(),
            final(self).same_but_grid(old(self)),
            final(self).grid() == spec_separators(old(self).grid()),
    {
        let width = self.get_width();
        let ghost source = self.grid();
        let ghost target = spec_separators(source);
        for x in 0..width
            invariant
                29 <= width <= 185,
                self.same_but_grid(old(self)),
                is_square(source, width as int),
                target == spec_separators(source),
                is_partly(self.grid(), source, target, x as int, 0),
        {
            for y in 0..width
                invariant
                    x < width,
                    29 <= width <= 185,
                    self.same_but_grid(old(self)),
                    is_square(source, width as int),
                    target == spec_separators(source),
                    is_partly(self.grid(), source, target, x as int, y as int),
            {
                if x > 0 && x < width - 1 && y > 0 && y < width - 1 {
                    proof {
                        lemma_touches_stable(
                            self.grid(),
                            source,
                            target,
                            x as int,
                            y as int,
                            SymbolRole::FinderPattern,
                        );
                    }
                    let role = self.module_at(x, y).role;
                    if self.touches(x, y, SymbolRole::FinderPattern) && (role == SymbolRole::Uninitialised
                        || role == SymbolRole::TimingPattern) {
                        self.set_module(
                            x,
                            y,
                            Module { status: SymbolStatus::LogicalFalse, role: SymbolRole::Separator },
                        );
                    }
                }
            }
        }
        assert(self.grid() =~~= target);
    }

    /// Stage 5: the modules beside the separators are kept for the format
    /// information and made light; the one module that is always dark is
    /// made dark and gets its role.
    pub fn reserve_format_information(&mut self)
        requires
            old(self).wf(),
        ensures
            final(self).wf(),
            final(self).same_but_grid(old(self)),
            final(self).grid() == spec_reserve_format_information(old(self).grid()),
    {
        let width = self.get_width();
        let ghost source = self.grid();
        let ghost target = spec_reserve_format_information(source);
        for x in 0..width
            invariant
                29 <= width <= 185,
                self.same_but_grid(old(self)),
                is_square(source, width as int),
                target == spec_reserve_format_information(source),
                is_partly(self.grid(), source, target, x as int, 0),
        {
            for y in 0..width
                invariant
                    x < width,
                    29 <= width <= 185,
                    self.same_but_grid(old(self)),
                    is_square(source, width as int),
                    target == spec_reserve_format_information(source),
                    is_partly(self.grid(), source, target, x as int, y as int),
            {
                if x > 0 && x < width - 1 && y > 0 && y < width - 1 {
                    proof {
                        lemma_touches_stable(
                            self.grid(),
                            source,
                            target,
                            x as int,
                            y as int,
                            SymbolRole::Separator,
                        );
                    }
                    if self.touches(x, y, SymbolRole::Separator) && self.module_at(x, y).role
                        == SymbolRole::Uninitialised && y != width - 13 && x != width - 13 {
                        let module = if x == 12 && y == width - 12 {
                            Module { status: SymbolStatus::LogicalTrue, role: SymbolRole::AlwaysTrue }
                        } else {
                            Module {
                                status: SymbolStatus::LogicalFalse,
                                role: SymbolRole::ReservedFormatInformation,
                            }
                        };
                        self.set_module(x, y, module);
                    }
                }
            }
        }
        assert(self.grid() =~~= target);
    }

    /// Stage 6: the alignment patterns of the version, at every pair of
    /// centres but the three on the finder patterns, over whatever is there.
    pub fn draw_alignment_pattern(&mut self)
        requires
            old(self).wf(),
        ensures
            final(self).wf(),
            final(self).same_but_grid(old(self)),
            final(self).grid() == spec_draw_alignment_pattern(
                old(self).grid(),
                spec_alignment_centres(old(self).version as int),
            ),
    {
        let width = self.get_width();
        let centres = alignment_pattern_data(self.version).1;
        let ghost source = self.grid();
        let ghost target = spec_draw_alignment_pattern(source, centres@);
        for x in 0..width
            invariant
                self.same_but_grid(old(self)),
                is_square(source, width as int),
                target == spec_draw_alignment_pattern(source, centres@),
                is_partly(self.grid(), source, target, x as int, 0),
        {
            for y in 0..width
                invariant
                    x < width,
                    self.same_but_grid(old(self)),
                    is_square(source, width as int),
                    target == spec_draw_alignment_pattern(source, centres@),
                    is_partly(self.grid(), source, target, x as int, y as int),
            {
                match alignment_centre_over(&centres, x, y) {
                    Some((centre_x, centre_y)) => {
                        let status = if ring(x, y, centre_x, centre_y) == 1 {
                            SymbolStatus::LogicalFalse
                        } else {
                            SymbolStatus::LogicalTrue
                        };
                        self.set_module(x, y, Module { status, role: SymbolRole::AlignmentPattern });
                    },
                    None => {},
                }
            }
        }
        assert(self.grid() =~~= target);
    }

    /// Stage 7: from version 7 on, the two blocks beside the finder patterns
    /// are kept for the version information, but for their separators.
    pub fn reserve_version_information(&mut self)
        requires
            old(self).wf(),
        ensures
            final(self).wf(),
            final(self).same_but_grid(old(self)),
            final(self).grid() == spec_reserve_version_information(
                old(self).grid(),
                old(self).version as int,
            ),
    {
        let width = self.get_width();
        let version = self.version;
        let ghost source = self.grid();
        let ghost target = spec_reserve_version_information(source, version as int);
        for x in 0..width
            invariant
                29 <= width <= 185,
                self.same_but_grid(old(self)),
                is_square(source, width as int),
                target == spec_reserve_version_information(source, version as int),
                is_partly(self.grid(), source, target, x as int, 0),
        {
            for y in 0..width
                invariant
                    x < width,
                    29 <= width <= 185,
                    self.same_but_grid(old(self)),
                    is_square(source, width as int),
                    target == spec_reserve_version_information(source, version as int),
                    is_partly(self.grid(), source, target, x as int, y as int),
            {
                let in_block = (4 <= x && x <= 9 && width - 15 <= y && y <= width - 12) || (width - 15 <= x
                    && x <= width - 12 && 4 <= y && y <= 9);
                if version >= 7 && in_block {
                    let module = self.module_at(x, y);
                    if module.role != SymbolRole::Separator {
                        self.set_module(
                            x,
                            y,
                            Module { status: module.status, role: SymbolRole::ReservedVersionInformation },
                        );
                    }
                }
            }
        }
        assert(self.grid() =~~= target);
    }

    /// Stage 9: from version 7 on, the eighteen bits of the version
    /// information are written into both blocks kept for them, the highest
    /// bit first. If a place of a bit is not reserved for it, nothing is
    /// written and the stage fails.
    pub fn version_information(&mut self) -> (written: Result<(), QrError>)
        requires
            old(self).wf(),
        ensures
            final(self).wf(),
            final(self).same_but_grid(old(self)),
            match written {
                Ok(_) => {
                    &&& old(self).version >= 7 ==> version_places_reserved(old(self).grid())
                    &&& final(self).grid() == spec_version_information(
                        old(self).grid(),
                        old(self).version as int,
                    )
                },
                Err(error) => {
                    &&& error == QrError::InvalidPlacementTarget
                    &&& old(self).version >= 7
                    &&& !version_places_reserved(old(self).grid())
                    &&& final(self).grid() == old(self).grid()
                },
            },
    {
        let width = self.get_width();
        let version = self.version;
        if version < 7 {
            assert(self.grid() =~~= spec_version_information(self.grid(), version as int));
            return Ok(());
        }
        for x in 0..width
            invariant
                53 <= width <= 185,
                self.wf(),
                self.same_but_grid(old(self)),
                version == old(self).version,
                version >= 7,
                self.grid() == old(self).grid(),
                is_square(self.grid(), width as int),
                forall|i: int, j: int|
                    0 <= i < x && 0 <= j < width && version_bit_at(width as int, i, j) is Some ==> (
                    #[trigger] self.grid()[i][j]).role == SymbolRole::ReservedVersionInformation,
        {
            for y in 0..width
                invariant
                    x < width,
                    53 <= width <= 185,
                    self.wf(),
                    self.same_but_grid(old(self)),
                    version == old(self).version,
                    version >= 7,
                    self.grid() == old(self).grid(),
                    is_square(self.grid(), width as int),
                    forall|i: int, j: int|
                        0 <= i < x && 0 <= j < width && version_bit_at(width as int, i, j) is Some ==> (
                        #[trigger] self.grid()[i][j]).role == SymbolRole::ReservedVersionInformation,
                    forall|j: int|
                        0 <= j < y && version_bit_at(width as int, x as int, j) is Some ==> (
                        #[trigger] self.grid()[x as int][j]).role
                            == SymbolRole::ReservedVersionInformation,
            {
                let in_block = (4 <= x && x <= 9 && width - 15 <= y && y <= width - 13) || (width - 15 <= x
                    && x <= width - 13 && 4 <= y && y <= 9);
                if in_block && self.module_at(x, y).role != SymbolRole::ReservedVersionInformation {
                    proof {
                        assert(version_bit_at(width as int, x as int, y as int) is Some);
                        assert(self.grid()[x as int][y as int].role
                            != SymbolRole::ReservedVersionInformation);
                    }
                    return Err(QrError::InvalidPlacementTarget);
                }
            }
        }
        let bits = version_info(version);
        let ghost source = self.grid();
        let ghost target = spec_version_information(source, version as int);
        for x in 0..width
            invariant
                53 <= width <= 185,
                version >= 7,
                bits == spec_version_info(version as int),
                self.same_but_grid(old(self)),
                is_square(source, width as int),
                target == spec_version_information(source, version as int),
                is_partly(self.grid(), source, target, x as int, 0),
        {
            for y in 0..width
                invariant
                    x < width,
                    53 <= width <= 185,
                    version >= 7,
                    bits == spec_version_info(version as int),
                    self.same_but_grid(old(self)),
                    is_square(source, width as int),
                    target == spec_version_information(source, version as int),
                    is_partly(self.grid(), source, target, x as int, y as int),
            {
                let number: Option<usize> = if 4 <= x && x <= 9 && width - 15 <= y && y <= width - 13 {
                    Some((9 - x) * 3 + (width - 13 - y))
                } else if width - 15 <= x && x <= width - 13 && 4 <= y && y <= 9 {
                    Some((9 - y) * 3 + (width - 13 - x))
                } else {
                    None
                };
                match number {
                    Some(place) => {
                        let shift: u32 = (17 - place) as u32;
                        let status = if (bits >> shift) & 1 == 1 {
                            SymbolStatus::LogicalTrue
                        } else {
                            SymbolStatus::LogicalFalse
                        };
                        self.set_module(x, y, Module { status, role: SymbolRole::VersionInformation });
                    },
                    None => {},
                }
            }
        }
        assert(self.grid() =~~= target);
        Ok(())
    }
}

} // verus!
