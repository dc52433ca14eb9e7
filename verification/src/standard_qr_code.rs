//! Construction of a symbol from a text and an error-correction level.
//!
//! The stages run in a fixed order on one matrix: quiet zone, finder
//! patterns, timing patterns, separators, reservation of the format
//! information, alignment patterns, reservation of the version information,
//! placement of the codewords, version information, and masking with the
//! format information.

use vstd::prelude::*;
use crate::error::QrError;
use crate::input::ErrorLevel;
use crate::input::Settings;
use crate::standard_qr_code::codewords::block_sizes;
use crate::standard_qr_code::codewords::correction_parts;
use crate::standard_qr_code::codewords::data_offset;
use crate::standard_qr_code::codewords::data_parts;
use crate::standard_qr_code::codewords::raw_message;
use crate::standard_qr_code::codewords::symbol_codewords;
use crate::standard_qr_code::codewords::views;
use crate::standard_qr_code::masking::chosen_mask;
use crate::standard_qr_code::masking::colours_resolved;
use crate::standard_qr_code::masking::format_bit_at;
use crate::standard_qr_code::qr_struct::is_dark_place;
use crate::standard_qr_code::masking::spec_apply_mask;
use crate::standard_qr_code::masking::spec_masking_format_information;
use crate::standard_qr_code::placement::is_data_place;
use crate::standard_qr_code::placement::spec_write_into_self;
use crate::standard_qr_code::qr_struct::ErrorBlockInfo;
use crate::standard_qr_code::qr_struct::Module;
use crate::standard_qr_code::qr_struct::QRData;
use crate::standard_qr_code::qr_struct::SymbolRole;
use crate::standard_qr_code::qr_struct::SymbolStatus;
use crate::standard_qr_code::qr_struct::finder_centre;
use crate::standard_qr_code::qr_struct::in_version_block;
use crate::standard_qr_code::qr_struct::is_square;
use crate::standard_qr_code::qr_struct::spec_draw_alignment_pattern;
use crate::standard_qr_code::qr_struct::spec_finders;
use crate::standard_qr_code::qr_struct::spec_quiet_zone;
use crate::standard_qr_code::qr_struct::spec_reserve_format_information;
use crate::standard_qr_code::qr_struct::spec_reserve_version_information;
use crate::standard_qr_code::qr_struct::spec_separators;
use crate::standard_qr_code::qr_struct::spec_timing_pattern;
use crate::standard_qr_code::qr_struct::spec_version_information;
use crate::standard_qr_code::qr_struct::touches_role;
use crate::standard_qr_code::qr_struct::version_bit_at;
use crate::standard_qr_code::qr_struct::version_places_reserved;
use crate::standard_qr_code::qr_struct::width_of_version;
use crate::standard_qr_code::utils::fits_no_version;
use crate::standard_qr_code::utils::is_chosen_version;
use crate::standard_qr_code::utils::total_data_bytes;
use crate::standard_qr_code::version_constants::spec_alignment_centres;
use crate::standard_qr_code::version_constants::spec_error_blocks;

pub mod bit_vector;
pub mod codewords;
pub mod example;
pub mod field;
pub mod free_places;
pub mod masking;
pub mod placement;
pub mod qr_struct;
pub mod utils;
pub mod version_constants;

verus! {

/// The matrix of a version in which no module has a colour or a role.
pub open spec fn blank_grid(version: int) -> Seq<Seq<Module>> {
    Seq::new(
        width_of_version(version) as nat,
        |x: int|
            Seq::new(
                width_of_version(version) as nat,
                |y: int| Module { status: SymbolStatus::Uninitialised, role: SymbolRole::Uninitialised },
            ),
    )
}

/// The matrix of a version with all its fixed patterns and reservations,
/// before the codewords are placed.
pub open spec fn structure_grid(version: int) -> Seq<Seq<Module>> {
    spec_reserve_version_information(
        spec_draw_alignment_pattern(
            spec_reserve_format_information(
                spec_separators(spec_timing_pattern(spec_finders(spec_quiet_zone(blank_grid(version))))),
            ),
            spec_alignment_centres(version),
        ),
        version,
    )
}

/// The matrix of a version with the codewords of a text placed in it.
pub open spec fn filled_grid(text: Seq<u8>, level: ErrorLevel, version: int) -> Seq<Seq<Module>> {
    spec_write_into_self(
        structure_grid(version),
        symbol_codewords(text, version, spec_error_blocks(version, level)),
    )
}

/// The finished symbol for a text at a level in a version.
pub open spec fn finished_grid(text: Seq<u8>, level: ErrorLevel, version: int) -> Seq<Seq<Module>> {
    spec_masking_format_information(
        spec_version_information(filled_grid(text, level, version), version),
        level,
    )
}

/// Why the codewords of a text cannot be made for the groups of blocks, if
/// they cannot.
pub open spec fn codewords_error(text: Seq<u8>, version: int, groups: Seq<ErrorBlockInfo>) -> Option<
    QrError,
> {
    let sizes = block_sizes(groups);
    let capacity = data_offset(sizes, sizes.len() as int);
    if !(1 <= groups.len() <= 2) || capacity > 0xffff {
        Some(QrError::MalformedBlockLayout)
    } else if raw_message(text, version).len() + 1 > capacity {
        Some(QrError::CapacityExceeded)
    } else {
        None
    }
}

/// The offset of a block depends on the blocks before it alone.
proof fn lemma_offset_prefix(first: Seq<(u8, u8)>, second: Seq<(u8, u8)>, block: int)
    requires
        0 <= block <= first.len(),
    ensures
        data_offset(first + second, block) == data_offset(first, block),
    decreases block,
{
    if block > 0 {
        lemma_offset_prefix(first, second, block - 1);
        assert((first + second)[block - 1] == first[block - 1]);
    }
}

/// Blocks of one size add their number times their data bytes to the offset.
proof fn lemma_offset_of_copies(first: Seq<(u8, u8)>, size: (u8, u8), count: int)
    requires
        0 <= count,
    ensures
        data_offset(first + Seq::new(count as nat, |i: int| size), first.len() + count) == data_offset(
            first,
            first.len() as int,
        ) + count * size.0,
    decreases count,
{
    let all = first + Seq::new(count as nat, |i: int| size);
    if count == 0 {
        lemma_offset_prefix(first, Seq::new(count as nat, |i: int| size), first.len() as int);
    } else {
        let fewer = first + Seq::new((count - 1) as nat, |i: int| size);
        assert(all =~= fewer + seq![size]);
        lemma_offset_prefix(fewer, seq![size], first.len() + count - 1);
        lemma_offset_of_copies(first, size, count - 1);
        assert(all[first.len() + count - 1] == size);
        assert((count - 1) * size.0 + size.0 == count * size.0) by (nonlinear_arith);
    }
}

/// The blocks of the groups hold as many data bytes as the groups say.
pub proof fn lemma_capacity_of_blocks(groups: Seq<ErrorBlockInfo>)
    ensures
        data_offset(block_sizes(groups), block_sizes(groups).len() as int) == total_data_bytes(groups),
    decreases groups.len(),
{
    if groups.len() > 0 {
        lemma_capacity_of_blocks(groups.drop_last());
        lemma_offset_of_copies(
            block_sizes(groups.drop_last()),
            (groups.last().num_data_bytes, groups.last().num_error_bytes),
            groups.last().num_block as int,
        );
    }
}

/// Two groups hold at most 255 data bytes for each of their blocks.
proof fn lemma_total_of_groups(groups: Seq<ErrorBlockInfo>)
    requires
        1 <= groups.len() <= 2,
    ensures
        total_data_bytes(groups) <= 255 * (groups[0].num_block + if groups.len() == 2 {
            groups[1].num_block as int
        } else {
            0
        }),
{
    reveal_with_fuel(total_data_bytes, 3);
    if groups.len() == 2 {
        assert(groups.drop_last() =~= seq![groups[0]]);
        assert(groups.drop_last().drop_last() =~= Seq::<ErrorBlockInfo>::empty());
        assert(groups[1].num_block * groups[1].num_data_bytes <= 255 * groups[1].num_block)
            by (nonlinear_arith)
            requires
                0 <= groups[1].num_block,
                0 <= groups[1].num_data_bytes <= 255,
        ;
    } else {
        assert(groups.drop_last() =~= Seq::<ErrorBlockInfo>::empty());
    }
    assert(groups[0].num_block * groups[0].num_data_bytes <= 255 * groups[0].num_block)
        by (nonlinear_arith)
        requires
            0 <= groups[0].num_block,
            0 <= groups[0].num_data_bytes <= 255,
    ;
}

/// No version of the table has more than 81 blocks, so none holds more
/// data bytes than a bit buffer can.
pub proof fn lemma_table_capacity(version: int, level: ErrorLevel)
    requires
        1 <= version <= 40,
    ensures
        1 <= spec_error_blocks(version, level).len() <= 2,
        total_data_bytes(spec_error_blocks(version, level)) <= 0xffff,
{
    let groups = spec_error_blocks(version, level);
    lemma_total_of_groups(groups);
    assert(groups[0].num_block + if groups.len() == 2 {
        groups[1].num_block as int
    } else {
        0
    } <= 81);
}

/// For the version that is chosen for a text the codewords can always be
/// made.
pub proof fn lemma_codewords_can_be_made(text: Seq<u8>, level: ErrorLevel, version: int)
    requires
        is_chosen_version(text.len() as int, level, version),
    ensures
        codewords_error(text, version, spec_error_blocks(version, level)) is None,
{
    lemma_table_capacity(version, level);
    lemma_capacity_of_blocks(spec_error_blocks(version, level));
}

/// After the placement of the codewords every place of a bit of the
/// version information is still reserved for it.
pub proof fn lemma_version_places_stay_reserved(text: Seq<u8>, level: ErrorLevel, version: int)
    requires
        7 <= version <= 40,
    ensures
        version_places_reserved(filled_grid(text, level, version)),
{
    let width = width_of_version(version);
    let blank = blank_grid(version);
    let quiet = spec_quiet_zone(blank);
    let finders = spec_finders(quiet);
    let timing = spec_timing_pattern(finders);
    let separated = spec_separators(timing);
    let reserved = spec_reserve_format_information(separated);
    let aligned = spec_draw_alignment_pattern(reserved, spec_alignment_centres(version));
    let structure = structure_grid(version);
    let filled = filled_grid(text, level, version);
    assert forall|x: int, y: int|
        0 <= x < filled.len() && 0 <= y < filled.len() && version_bit_at(filled.len() as int, x, y) is Some
        implies (#[trigger] filled[x][y]).role == SymbolRole::ReservedVersionInformation by {
        assert(filled.len() == width);
        assert forall|i: int, j: int| x - 1 <= i <= x + 1 && y - 1 <= j <= y + 1 implies (
        #[trigger] timing[i][j]).role != SymbolRole::FinderPattern by {
            assert(finder_centre(width, i, j) is None);
            assert(quiet[i][j].role != SymbolRole::FinderPattern);
            assert(finders[i][j].role != SymbolRole::FinderPattern);
        }
        assert(!touches_role(timing, x, y, SymbolRole::FinderPattern));
        assert(separated[x][y].role != SymbolRole::Separator) by {
            assert(timing[x][y].role != SymbolRole::Separator);
        }
        assert(reserved[x][y].role != SymbolRole::Separator);
        assert(aligned[x][y].role != SymbolRole::Separator);
        assert(structure[x][y].role == SymbolRole::ReservedVersionInformation);
    }
}

/// The reservation of the format information changes only modules without
/// a role, none in the column or the row beside the upper right and the
/// lower left separator; what it changes becomes light and reserved, but for
/// the module that is always dark, which becomes dark with its own role.
pub proof fn lemma_format_reservation_changes(grid: Seq<Seq<Module>>, x: int, y: int)
    requires
        0 <= x < grid.len(),
        0 <= y < grid[x].len(),
        spec_reserve_format_information(grid)[x][y] != grid[x][y],
    ensures
        grid[x][y].role == SymbolRole::Uninitialised,
        x != grid.len() - 13,
        y != grid.len() - 13,
        spec_reserve_format_information(grid)[x][y] == if is_dark_place(grid.len() as int, x, y) {
            Module { status: SymbolStatus::LogicalTrue, role: SymbolRole::AlwaysTrue }
        } else {
            Module { status: SymbolStatus::LogicalFalse, role: SymbolRole::ReservedFormatInformation }
        },
{
}

/// A place on the light line around a finder pattern: beside the upper left
/// one, the upper right one or the lower left one.
pub open spec fn is_separator_place(width: int, x: int, y: int) -> bool {
    ||| (x == 11 && 4 <= y <= 11) || (y == 11 && 4 <= x <= 11)
    ||| (x == width - 12 && 4 <= y <= 11) || (y == 11 && width - 12 <= x <= width - 5)
    ||| (y == width - 12 && 4 <= x <= 11) || (x == 11 && width - 12 <= y <= width - 5)
}

/// After the first four stages the places around the finder patterns hold
/// separators.
proof fn lemma_separator_at(version: int, x: int, y: int)
    requires
        1 <= version <= 40,
        is_separator_place(width_of_version(version), x, y),
    ensures
        spec_separators(spec_timing_pattern(spec_finders(spec_quiet_zone(blank_grid(version)))))[x][y]
            == (Module { status: SymbolStatus::LogicalFalse, role: SymbolRole::Separator }),
{
    let width = width_of_version(version);
    let quiet = spec_quiet_zone(blank_grid(version));
    let finders = spec_finders(quiet);
    let timing = spec_timing_pattern(finders);
    // a neighbour that belongs to a finder pattern
    let i = if x == 11 {
        10
    } else if x == width - 12 {
        width - 11
    } else {
        x
    };
    let j = if y == 11 {
        10
    } else if y == width - 12 {
        width - 11
    } else {
        y
    };
    assert(finder_centre(width, i, j) is Some);
    assert(quiet[i][j].role == SymbolRole::Uninitialised);
    assert(finders[i][j].role == SymbolRole::FinderPattern);
    assert(timing[i][j].role == SymbolRole::FinderPattern);
    assert(touches_role(timing, x, y, SymbolRole::FinderPattern));
    assert(finder_centre(width, x, y) is None);
    assert(timing[x][y].role == SymbolRole::Uninitialised || timing[x][y].role
        == SymbolRole::TimingPattern);
}

/// After the first five stages every place of a bit of the format
/// information is light and kept for it, and the module that is always dark
/// is dark and has its role.
pub proof fn lemma_format_places_reserved(version: int, x: int, y: int)
    requires
        1 <= version <= 40,
        0 <= x < width_of_version(version),
        0 <= y < width_of_version(version),
    ensures
        format_bit_at(width_of_version(version), x, y) is Some ==> spec_reserve_format_information(
            spec_separators(spec_timing_pattern(spec_finders(spec_quiet_zone(blank_grid(version))))),
        )[x][y] == (Module {
            status: SymbolStatus::LogicalFalse,
            role: SymbolRole::ReservedFormatInformation,
        }),
        is_dark_place(width_of_version(version), x, y) ==> spec_reserve_format_information(
            spec_separators(spec_timing_pattern(spec_finders(spec_quiet_zone(blank_grid(version))))),
        )[x][y] == (Module { status: SymbolStatus::LogicalTrue, role: SymbolRole::AlwaysTrue }),
{
    let width = width_of_version(version);
    let separated = spec_separators(
        spec_timing_pattern(spec_finders(spec_quiet_zone(blank_grid(version)))),
    );
    if format_bit_at(width, x, y) is Some || is_dark_place(width, x, y) {
        lemma_free_beside_separator(version, x, y);
        // the separator beside the place
        if x == 12 && y == 12 {
            lemma_separator_at(version, 11, 11);
        } else if x == 12 {
            lemma_separator_at(version, 11, y);
        } else {
            lemma_separator_at(version, x, 11);
        }
        assert(touches_role(separated, x, y, SymbolRole::Separator));
    }
}

/// After the first four stages a place in the symbol that lies two away
/// from a finder pattern, and not on a timing pattern, has no role.
proof fn lemma_free_beside_separator(version: int, x: int, y: int)
    requires
        1 <= version <= 40,
        x == 12 || y == 12,
        4 <= x <= width_of_version(version) - 5,
        4 <= y <= width_of_version(version) - 5,
        x != 10,
        y != 10,
    ensures
        spec_separators(spec_timing_pattern(spec_finders(spec_quiet_zone(blank_grid(version)))))[x][y]
            == (Module { status: SymbolStatus::Uninitialised, role: SymbolRole::Uninitialised }),
{
    let width = width_of_version(version);
    let quiet = spec_quiet_zone(blank_grid(version));
    let finders = spec_finders(quiet);
    let timing = spec_timing_pattern(finders);
    assert forall|a: int, b: int| x - 1 <= a <= x + 1 && y - 1 <= b <= y + 1 implies (
    #[trigger] timing[a][b]).role != SymbolRole::FinderPattern by {
        assert(finder_centre(width, a, b) is None);
        assert(quiet[a][b].role != SymbolRole::FinderPattern);
        assert(finders[a][b].role != SymbolRole::FinderPattern);
    }
    assert(!touches_role(timing, x, y, SymbolRole::FinderPattern));
    assert(finder_centre(width, x, y) is None);
}

/// The module has a colour and a role.
pub open spec fn is_resolved(module: Module) -> bool {
    module.status != SymbolStatus::Uninitialised && module.role != SymbolRole::Uninitialised
}

/// Every module has a colour and a role: the matrix is ready to be shown.
pub open spec fn is_finished(grid: Seq<Seq<Module>>) -> bool {
    forall|x: int, y: int|
        0 <= x < grid.len() && 0 <= y < grid[x].len() ==> is_resolved(#[trigger] grid[x][y])
}

/// In the matrix with its fixed patterns a module without a role lies at a
/// place for data, and a module without a colour either has no role or
/// waits for a bit of the version information.
proof fn lemma_structure_at(version: int, x: int, y: int)
    requires
        1 <= version <= 40,
        0 <= x < width_of_version(version),
        0 <= y < width_of_version(version),
    ensures
        structure_grid(version)[x][y].role == SymbolRole::Uninitialised ==> is_data_place(
            width_of_version(version),
            x,
            y,
        ),
        structure_grid(version)[x][y].status == SymbolStatus::Uninitialised ==> {
            ||| structure_grid(version)[x][y].role == SymbolRole::Uninitialised
            ||| version >= 7 && version_bit_at(width_of_version(version), x, y) is Some
                && structure_grid(version)[x][y].role == SymbolRole::ReservedVersionInformation
        },
        structure_grid(version)[x][y].role != SymbolRole::EncodingRegion,
{
    let width = width_of_version(version);
    let blank = blank_grid(version);
    let quiet = spec_quiet_zone(blank);
    let finders = spec_finders(quiet);
    let timing = spec_timing_pattern(finders);
    let separated = spec_separators(timing);
    let reserved = spec_reserve_format_information(separated);
    let aligned = spec_draw_alignment_pattern(reserved, spec_alignment_centres(version));
    let structure = structure_grid(version);
    let tidy = |module: Module|
        module.role != SymbolRole::Uninitialised ==> module.status != SymbolStatus::Uninitialised;
    assert(tidy(quiet[x][y]));
    assert(tidy(finders[x][y]));
    assert(tidy(timing[x][y]));
    assert(tidy(separated[x][y]));
    assert(tidy(reserved[x][y]));
    assert(tidy(aligned[x][y]));
    if !is_data_place(width, x, y) {
        assert(timing[x][y].role != SymbolRole::Uninitialised);
        assert(separated[x][y].role != SymbolRole::Uninitialised);
        assert(reserved[x][y].role != SymbolRole::Uninitialised);
        assert(aligned[x][y].role != SymbolRole::Uninitialised);
    }
    if version >= 7 && in_version_block(width, x, y) && version_bit_at(width, x, y) is None {
        // the fourth row or column of a block: a separator
        if 4 <= x <= 9 {
            assert(y == width - 12);
            assert(finder_centre(width, x, y + 1) == Some((7int, width - 8)));
            assert(quiet[x][y + 1].role == SymbolRole::Uninitialised);
            assert(finders[x][y + 1].role == SymbolRole::FinderPattern);
            assert(timing[x][y + 1].role == SymbolRole::FinderPattern);
        } else {
            assert(x == width - 12);
            assert(finder_centre(width, x + 1, y) == Some((width - 8, 7int)));
            assert(quiet[x + 1][y].role == SymbolRole::Uninitialised);
            assert(finders[x + 1][y].role == SymbolRole::FinderPattern);
            assert(timing[x + 1][y].role == SymbolRole::FinderPattern);
        }
        assert(touches_role(timing, x, y, SymbolRole::FinderPattern));
        assert(finder_centre(width, x, y) is None);
        assert(timing[x][y].role == SymbolRole::Uninitialised || timing[x][y].role
            == SymbolRole::TimingPattern);
        assert(separated[x][y].role == SymbolRole::Separator);
        assert(reserved[x][y].role == SymbolRole::Separator);
        assert(aligned[x][y].role != SymbolRole::Uninitialised);
    }
}

/// The finished symbol of every version has the size of its version, and
/// each of its modules has a colour and a role.
pub proof fn lemma_symbol_is_finished(text: Seq<u8>, level: ErrorLevel, version: int)
    requires
        1 <= version <= 40,
    ensures
        is_square(finished_grid(text, level, version), width_of_version(version)),
        is_finished(finished_grid(text, level, version)),
{
    let width = width_of_version(version);
    let filled = filled_grid(text, level, version);
    let versioned = spec_version_information(filled, version);
    let mask = chosen_mask(versioned);
    let masked = spec_apply_mask(versioned, mask);
    let finished = finished_grid(text, level, version);
    assert forall|x: int, y: int| 0 <= x < finished.len() && 0 <= y < finished[x].len() implies is_resolved(
        #[trigger] finished[x][y],
    ) by {
        lemma_structure_at(version, x, y);
        assert(is_resolved(versioned[x][y]));
        assert(is_resolved(masked[x][y]));
    }
}

/// No module carries data.
pub open spec fn no_data_yet(grid: Seq<Seq<Module>>) -> bool {
    forall|x: int, y: int|
        0 <= x < grid.len() && 0 <= y < grid[x].len() ==> (#[trigger] grid[x][y]).role
            != SymbolRole::EncodingRegion
}

impl QRData {
    /// Stage 8: the codewords for the text are made and placed in the
    /// matrix. Where the codewords cannot be made, the matrix stays as it is.
    pub fn read_and_write(&mut self) -> (written: Result<(), QrError>)
        requires
            old(self).wf(),
        ensures
            final(self).wf(),
            final(self).same_but_grid(old(self)),
            match written {
                Ok(_) => {
                    &&& codewords_error(
                        old(self).settings.text(),
                        old(self).version as int,
                        old(self).error_blocks@,
                    ) is None
                    &&& final(self).grid() == spec_write_into_self(
                        old(self).grid(),
                        symbol_codewords(
                            old(self).settings.text(),
                            old(self).version as int,
                            old(self).error_blocks@,
                        ),
                    )
                },
                Err(error) => {
                    &&& codewords_error(
                        old(self).settings.text(),
                        old(self).version as int,
                        old(self).error_blocks@,
                    ) == Some(error)
                    &&& final(self).grid() == old(self).grid()
                },
            },
    {
        let sizes = match self.generate_error_blocks() {
            Ok(sizes) => sizes,
            Err(error) => {
                return Err(error);
            },
        };
        let vectors = match self.write_data_into_vectors(&sizes) {
            Ok(vectors) => vectors,
            Err(error) => {
                return Err(error);
            },
        };
        let ghost text = self.settings.text();
        let ghost version = self.version as int;
        let mut data_blocks: Vec<Vec<u8>> = Vec::new();
        let mut b: usize = 0;
        while b < vectors.len()
            invariant
                b <= vectors@.len(),
                vectors@.len() == sizes@.len(),
                data_blocks@.len() == b,
                forall|c: int|
                    0 <= c < sizes@.len() ==> (#[trigger] vectors@[c]).data@ == data_parts(
                        text,
                        version,
                        sizes@,
                    )[c],
                forall|c: int| 0 <= c < b ==> (#[trigger] data_blocks@[c])@ == data_parts(text, version, sizes@)[c],
            decreases vectors@.len() - b,
        {
            data_blocks.push(vectors[b].get_data());
            b += 1;
        }
        let correction_blocks = QRData::generate_error_corrction(&sizes, &data_blocks);
        let codewords = QRData::shuffle_bit_vectors(&data_blocks, &correction_blocks);
        proof {
            assert(views(data_blocks@) =~~= data_parts(text, version, sizes@));
            assert(views(correction_blocks@) =~~= correction_parts(text, version, sizes@));
        }
        self.write_into_self(&codewords);
        Ok(())
    }
}

/// The symbol for a text at an error-correction level: the smallest version
/// that holds the text, with all stages run. A text that no version holds
/// is refused; every other text gives a symbol.
pub fn qr_code(input: Settings) -> (symbol: Result<QRData, QrError>)
    ensures
        match symbol {
            Ok(data) => {
                &&& data.wf()
                &&& data.settings == input
                &&& is_chosen_version(input.text().len() as int, input.error_level, data.version as int)
                &&& data.error_blocks@ == spec_error_blocks(data.version as int, input.error_level)
                &&& data.grid() == finished_grid(input.text(), input.error_level, data.version as int)
                &&& is_finished(data.grid())
            },
            Err(error) => error == QrError::TextTooLong && fits_no_version(
                input.text().len() as int,
                input.error_level,
            ),
        },
{
    let mut qrdata = match QRData::new(input) {
        Ok(data) => data,
        Err(error) => {
            return Err(error);
        },
    };
    let ghost version = qrdata.version as int;
    assert(qrdata.grid() =~~= blank_grid(version));
    assert(no_data_yet(qrdata.grid()));
    qrdata.quiet_zone();
    assert(no_data_yet(qrdata.grid()));
    qrdata.finders();
    assert(no_data_yet(qrdata.grid()));
    qrdata.timing_pattern();
    assert(no_data_yet(qrdata.grid()));
    qrdata.separators();
    assert(no_data_yet(qrdata.grid()));
    qrdata.reserve_format_information();
    assert(no_data_yet(qrdata.grid()));
    qrdata.draw_alignment_pattern();
    assert(no_data_yet(qrdata.grid()));
    qrdata.reserve_version_information();
    assert(no_data_yet(qrdata.grid()));
    assert(qrdata.grid() == structure_grid(version));
    proof {
        lemma_codewords_can_be_made(input.text(), input.error_level, version);
    }
    match qrdata.read_and_write() {
        Ok(_) => {},
        Err(error) => {
            return Err(error);
        },
    }
    assert(colours_resolved(qrdata.grid()));
    proof {
        if version >= 7 {
            lemma_version_places_stay_reserved(input.text(), input.error_level, version);
        }
    }
    match qrdata.version_information() {
        Ok(_) => {},
        Err(error) => {
            return Err(error);
        },
    }
    assert(colours_resolved(qrdata.grid()));
    qrdata.masking_format_information();
    proof {
        lemma_symbol_is_finished(input.text(), input.error_level, version);
    }
    Ok(qrdata)
}

} // verus!

