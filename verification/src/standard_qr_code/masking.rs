//! The eight masks, the penalty that judges a masked symbol, the choice of
//! the mask, and the format information that names the level and the mask.
//!
//! The penalty looks at the symbol without its quiet zone. It is the sum,
//! over all places, of what each feature scores at a place, and a score for
//! the share of dark modules.

use vstd::prelude::*;
use core::ops::BitXor;
use crate::input::ErrorLevel;
use crate::input::Settings;
use crate::standard_qr_code::qr_struct::ErrorBlockInfo;
use crate::standard_qr_code::qr_struct::Module;
use crate::standard_qr_code::qr_struct::QRData;
use crate::standard_qr_code::qr_struct::SymbolRole;
use crate::standard_qr_code::qr_struct::SymbolStatus;
use crate::standard_qr_code::qr_struct::is_partly;
use crate::standard_qr_code::qr_struct::is_square;
use crate::standard_qr_code::qr_struct::status_xor;
use crate::standard_qr_code::version_constants::information_sequences;
use crate::standard_qr_code::version_constants::spec_information_sequences;

verus! {

/// What the penalty looks for at a place.
#[derive(Debug, Clone, Copy, PartialEq, Eq, Structural)]
pub enum Feature {
    /// the place ends a run of five or more modules of one colour in its column
    RunDown,
    /// the place ends a run of five or more modules of one colour in its row
    RunRight,
    /// the place is the upper left module of four of one colour
    Block,
    /// the place ends eleven modules in its column that look like a finder pattern
    FinderDown,
    /// the place ends eleven modules in its row that look like a finder pattern
    FinderRight,
    /// the module at the place is dark
    Dark,
}

/// The formula of a mask says that the module in the row and the column,
/// both counted without the quiet zone, is to be inverted.
pub open spec fn mask_applies(mask: int, row: int, column: int) -> bool {
    if mask == 0 {
        (row + column) % 2 == 0
    } else if mask == 1 {
        row % 2 == 0
    } else if mask == 2 {
        column % 3 == 0
    } else if mask == 3 {
        (row + column) % 3 == 0
    } else if mask == 4 {
        (row / 2 + column / 3) % 2 == 0
    } else if mask == 5 {
        (row * column) % 2 + (row * column) % 3 == 0
    } else if mask == 6 {
        ((row * column) % 2 + (row * column) % 3) % 2 == 0
    } else {
        ((row + column) % 2 + (row * column) % 3) % 2 == 0
    }
}

/// The place lies in the symbol, not in the quiet zone.
pub open spec fn in_symbol(width: int, x: int, y: int) -> bool {
    4 <= x < width - 4 && 4 <= y < width - 4
}

/// Every module that carries data has a colour.
pub open spec fn colours_resolved(grid: Seq<Seq<Module>>) -> bool {
    forall|x: int, y: int|
        0 <= x < grid.len() && 0 <= y < grid[x].len() && (#[trigger] grid[x][y]).role
            == SymbolRole::EncodingRegion ==> grid[x][y].status != SymbolStatus::Uninitialised
}

/// The module that a mask leaves at a place: a module that carries data is
/// inverted where the formula of the mask says so.
pub open spec fn masked_module(grid: Seq<Seq<Module>>, mask: int, x: int, y: int) -> Module {
    if in_symbol(grid.len() as int, x, y) && grid[x][y].role == SymbolRole::EncodingRegion && mask_applies(
        mask,
        y - 4,
        x - 4,
    ) {
        Module {
            status: status_xor(grid[x][y].status, SymbolStatus::LogicalTrue),
            role: SymbolRole::EncodingRegion,
        }
    } else {
        grid[x][y]
    }
}

/// The matrix under a mask.
pub open spec fn spec_apply_mask(grid: Seq<Seq<Module>>, mask: int) -> Seq<Seq<Module>> {
    Seq::new(grid.len(), |x: int| Seq::new(grid[x].len(), |y: int| masked_module(grid, mask, x, y)))
}

/// The colour of the module that lies `back` places before a place, up its
/// column or to the left in its row.
pub open spec fn status_back(grid: Seq<Seq<Module>>, x: int, y: int, down: bool, back: int) -> SymbolStatus {
    if down {
        grid[x][y - back].status
    } else {
        grid[x - back][y].status
    }
}

/// The coordinate, along the line, of the place that lies `back` places
/// before a place.
pub open spec fn place_back(x: int, y: int, down: bool, back: int) -> int {
    if down {
        y - back
    } else {
        x - back
    }
}

/// The `length` modules that end at the place lie in the symbol and have
/// one colour.
pub open spec fn ends_run(grid: Seq<Seq<Module>>, x: int, y: int, down: bool, length: int) -> bool
    decreases length,
{
    if length <= 1 {
        true
    } else {
        &&& ends_run(grid, x, y, down, length - 1)
        &&& place_back(x, y, down, length - 1) >= 4
        &&& status_back(grid, x, y, down, length - 1) == grid[x][y].status
    }
}

/// The eleven colours that look like a finder pattern with four light
/// modules behind it: dark, light, three dark, light, dark, four light.
pub open spec fn finder_like(place: int) -> SymbolStatus {
    if place == 0 || place == 2 || place == 3 || place == 4 || place == 6 {
        SymbolStatus::LogicalTrue
    } else {
        SymbolStatus::LogicalFalse
    }
}

/// The first `count` of the eleven modules that end at the place have the
/// colours of the finder-like sequence, read forwards or backwards.
pub open spec fn ends_window(
    grid: Seq<Seq<Module>>,
    x: int,
    y: int,
    down: bool,
    reversed: bool,
    count: int,
) -> bool
    decreases count,
{
    if count <= 0 {
        true
    } else {
        &&& ends_window(grid, x, y, down, reversed, count - 1)
        &&& status_back(grid, x, y, down, 11 - count) == finder_like(
            if reversed {
                11 - count
            } else {
                count - 1
            },
        )
    }
}

/// The score of a run that ends at the place: 3 for the fifth module of a
/// run, 1 for each further one.
pub open spec fn run_score(grid: Seq<Seq<Module>>, x: int, y: int, down: bool) -> int {
    if ends_run(grid, x, y, down, 6) {
        1
    } else if ends_run(grid, x, y, down, 5) {
        3
    } else {
        0
    }
}

/// The score of the eleven modules that end at the place: 40 if they lie
/// in the symbol and look like a finder pattern.
pub open spec fn window_score(grid: Seq<Seq<Module>>, x: int, y: int, down: bool) -> int {
    if place_back(x, y, down, 10) >= 4 && (ends_window(grid, x, y, down, false, 11) || ends_window(
        grid,
        x,
        y,
        down,
        true,
        11,
    )) {
        40
    } else {
        0
    }
}

/// The score of the four modules of which the place is the upper left one:
/// 3 if they lie in the symbol and have one colour.
pub open spec fn block_score(grid: Seq<Seq<Module>>, x: int, y: int) -> int {
    let width = grid.len() as int;
    if x + 1 < width - 4 && y + 1 < width - 4 && grid[x][y].status == grid[x + 1][y].status
        && grid[x][y].status == grid[x][y + 1].status && grid[x][y].status == grid[x + 1][y + 1].status {
        3
    } else {
        0
    }
}

/// What a feature scores at a place of the symbol.
pub open spec fn cell_score(grid: Seq<Seq<Module>>, feature: Feature, x: int, y: int) -> int {
    match feature {
        Feature::RunDown => run_score(grid, x, y, true),
        Feature::RunRight => run_score(grid, x, y, false),
        Feature::Block => block_score(grid, x, y),
        Feature::FinderDown => window_score(grid, x, y, true),
        Feature::FinderRight => window_score(grid, x, y, false),
        Feature::Dark => if grid[x][y].status == SymbolStatus::LogicalTrue {
            1
        } else {
            0
        },
    }
}

/// What a feature scores in column `x`, in the rows of the symbol before
/// row `rows`.
pub open spec fn column_score(grid: Seq<Seq<Module>>, feature: Feature, x: int, rows: int) -> int
    decreases rows,
{
    if rows <= 4 {
        0
    } else {
        column_score(grid, feature, x, rows - 1) + cell_score(grid, feature, x, rows - 1)
    }
}

/// What a feature scores in the columns of the symbol before column
/// `columns`.
pub open spec fn region_score(grid: Seq<Seq<Module>>, feature: Feature, columns: int) -> int
    decreases columns,
{
    if columns <= 4 {
        0
    } else {
        region_score(grid, feature, columns - 1) + column_score(
            grid,
            feature,
            columns - 1,
            grid.len() - 4,
        )
    }
}

/// What a feature scores in the whole symbol.
pub open spec fn feature_score(grid: Seq<Seq<Module>>, feature: Feature) -> int {
    region_score(grid, feature, grid.len() - 4)
}

/// The score for the share of dark modules: the share is taken in steps of
/// five percent, rounded down, and of this step and the next the one nearer
/// to fifty percent counts, ten for each step away from it.
pub open spec fn ratio_score(dark: int, side: int) -> int {
    let steps = (dark * 20) / (side * side);
    if steps >= 10 {
        10 * (steps - 10)
    } else {
        10 * (9 - steps)
    }
}

/// The penalty of a matrix.
pub open spec fn spec_calculate_penalty(grid: Seq<Seq<Module>>) -> int {
    feature_score(grid, Feature::RunDown) + feature_score(grid, Feature::RunRight) + feature_score(
        grid,
        Feature::Block,
    ) + feature_score(grid, Feature::FinderDown) + feature_score(grid, Feature::FinderRight)
        + ratio_score(feature_score(grid, Feature::Dark), grid.len() - 8)
}

/// The penalty of the matrix under a mask.
pub open spec fn penalty_of_mask(grid: Seq<Seq<Module>>, mask: int) -> int {
    spec_calculate_penalty(spec_apply_mask(grid, mask))
}

/// No mask has a lower penalty than `mask`, and every mask before it has a
/// higher one.
pub open spec fn is_best_mask(grid: Seq<Seq<Module>>, mask: int) -> bool {
    &&& 0 <= mask < 8
    &&& forall|other: int| 0 <= other < 8 ==> penalty_of_mask(grid, mask) <= #[trigger] penalty_of_mask(grid, other)
    &&& forall|other: int| 0 <= other < mask ==> penalty_of_mask(grid, mask) < #[trigger] penalty_of_mask(grid, other)
}

/// The mask that is chosen for a matrix.
pub open spec fn chosen_mask(grid: Seq<Seq<Module>>) -> int {
    choose|mask: int| is_best_mask(grid, mask)
}

/// The number, bit 0 being the lowest, of the bit of the format information
/// that stands at a place, if one does. The fifteen bits stand twice: around
/// the upper left finder pattern, and split between the lower left and the
/// upper right one.
pub open spec fn format_bit_at(width: int, x: int, y: int) -> Option<int> {
    if y == 12 && 4 <= x <= 9 {
        Some(18 - x)
    } else if y == 12 && x == 11 {
        Some(8)
    } else if x == 12 && y == 12 {
        Some(7)
    } else if x == 12 && y == 11 {
        Some(6)
    } else if x == 12 && 4 <= y <= 9 {
        Some(y - 4)
    } else if x == 12 && width - 11 <= y <= width - 5 {
        Some(y + 19 - width)
    } else if y == 12 && width - 12 <= x <= width - 5 {
        Some(width - 5 - x)
    } else {
        None
    }
}

/// The colour for bit `index` of the format information.
pub open spec fn format_status(bits: u16, index: u16) -> SymbolStatus {
    if (bits >> index) & 1 == 1 {
        SymbolStatus::LogicalTrue
    } else {
        SymbolStatus::LogicalFalse
    }
}

/// The module that the writing of the format information leaves at a place.
/// The module that is always dark is no place of a bit and stays as it is.
pub open spec fn format_module(grid: Seq<Seq<Module>>, bits: u16, x: int, y: int) -> Module {
    match format_bit_at(grid.len() as int, x, y) {
        Some(index) => Module { status: format_status(bits, index as u16), role: SymbolRole::FormatInformation },
        None => grid[x][y],
    }
}

/// The matrix after the writing of the format information.
pub open spec fn spec_format_information(grid: Seq<Seq<Module>>, bits: u16) -> Seq<Seq<Module>> {
    Seq::new(grid.len(), |x: int| Seq::new(grid[x].len(), |y: int| format_module(grid, bits, x, y)))
}

/// The five bits that the format information protects: two bits of the
/// level, then three bits of the mask.
pub open spec fn format_value(level: ErrorLevel, mask: int) -> int {
    level.spec_format_bits() * 8 + mask
}

/// The matrix after the last stage: under the chosen mask, with the format
/// information for the level and that mask.
pub open spec fn spec_masking_format_information(grid: Seq<Seq<Module>>, level: ErrorLevel) -> Seq<
    Seq<Module>,
> {
    let mask = chosen_mask(grid);
    spec_format_information(
        spec_apply_mask(grid, mask),
        spec_information_sequences(format_value(level, mask)),
    )
}

/// Only one mask is the best one.
pub proof fn lemma_best_mask_unique(grid: Seq<Seq<Module>>, mask: int)
    requires
        is_best_mask(grid, mask),
    ensures
        chosen_mask(grid) == mask,
{
    let other = chosen_mask(grid);
    assert(is_best_mask(grid, other));
    if other < mask {
        assert(penalty_of_mask(grid, mask) < penalty_of_mask(grid, other));
        assert(penalty_of_mask(grid, other) <= penalty_of_mask(grid, mask));
    } else if mask < other {
        assert(penalty_of_mask(grid, other) < penalty_of_mask(grid, mask));
        assert(penalty_of_mask(grid, mask) <= penalty_of_mask(grid, other));
    }
}

/// The formula of a mask holds in a row and a column.
fn formula_holds(mask: u8, row: usize, column: usize) -> (holds: bool)
    requires
        mask < 8,
        row <= 176,
        column <= 176,
    ensures
        holds == mask_applies(mask as int, row as int, column as int),
{
    assert(row * column <= 176 * 176) by (nonlinear_arith)
        requires
            row <= 176,
            column <= 176,
    ;
    if mask == 0 {
        (row + column) % 2 == 0
    } else if mask == 1 {
        row % 2 == 0
    } else if mask == 2 {
        column % 3 == 0
    } else if mask == 3 {
        (row + column) % 3 == 0
    } else if mask == 4 {
        (row / 2 + column / 3) % 2 == 0
    } else if mask == 5 {
        (row * column) % 2 + (row * column) % 3 == 0
    } else if mask == 6 {
        ((row * column) % 2 + (row * column) % 3) % 2 == 0
    } else {
        ((row + column) % 2 + (row * column) % 3) % 2 == 0
    }
}

/// The colour at a place of the finder-like sequence.
fn finder_like_status(place: usize) -> (status: SymbolStatus)
    ensures
        status == finder_like(place as int),
{
    if place == 0 || place == 2 || place == 3 || place == 4 || place == 6 {
        SymbolStatus::LogicalTrue
    } else {
        SymbolStatus::LogicalFalse
    }
}

impl QRData {
    /// The colour of the module that lies `back` places before a place.
    fn status_before(&self, x: usize, y: usize, down: bool, back: usize) -> (status: SymbolStatus)
        requires
            is_square(self.grid(), self.grid().len() as int),
            x < self.grid().len(),
            y < self.grid().len(),
            place_back(x as int, y as int, down, back as int) >= 0,
        ensures
            status == status_back(self.grid(), x as int, y as int, down, back as int),
    {
        if down {
            self.module_at(x, y - back).status
        } else {
            self.module_at(x - back, y).status
        }
    }

    /// The `length` modules that end at the place have one colour.
    fn run_ends_at(&self, x: usize, y: usize, down: bool, length: usize) -> (ends: bool)
        requires
            is_square(self.grid(), self.grid().len() as int),
            x < self.grid().len(),
            y < self.grid().len(),
            1 <= length <= 6,
        ensures
            ends == ends_run(self.grid(), x as int, y as int, down, length as int),
    {
        let here = self.module_at(x, y).status;
        let along = if down {
            y
        } else {
            x
        };
        let mut back: usize = 1;
        while back < length
            invariant
                1 <= back <= length <= 6,
                is_square(self.grid(), self.grid().len() as int),
                x < self.grid().len(),
                y < self.grid().len(),
                along == place_back(x as int, y as int, down, 0),
                here == self.grid()[x as int][y as int].status,
                ends_run(self.grid(), x as int, y as int, down, back as int),
            decreases length - back,
        {
            if along < 4 + back {
                assert(!ends_run(self.grid(), x as int, y as int, down, back + 1));
                proof {
                    lemma_run_shorter(self.grid(), x as int, y as int, down, back + 1, length as int);
                }
                return false;
            }
            if self.status_before(x, y, down, back) != here {
                assert(!ends_run(self.grid(), x as int, y as int, down, back + 1));
                proof {
                    lemma_run_shorter(self.grid(), x as int, y as int, down, back + 1, length as int);
                }
                return false;
            }
            back += 1;
        }
        true
    }

    /// The eleven modules that end at the place look like a finder pattern.
    fn window_ends_at(&self, x: usize, y: usize, down: bool, reversed: bool) -> (ends: bool)
        requires
            is_square(self.grid(), self.grid().len() as int),
            x < self.grid().len(),
            y < self.grid().len(),
            place_back(x as int, y as int, down, 10) >= 0,
        ensures
            ends == ends_window(self.grid(), x as int, y as int, down, reversed, 11),
    {
        let mut count: usize = 0;
        while count < 11
            invariant
                count <= 11,
                is_square(self.grid(), self.grid().len() as int),
                x < self.grid().len(),
                y < self.grid().len(),
                place_back(x as int, y as int, down, 10) >= 0,
                ends_window(self.grid(), x as int, y as int, down, reversed, count as int),
            decreases 11 - count,
        {
            let wanted = finder_like_status(
                if reversed {
                    10 - count
                } else {
                    count
                },
            );
            if self.status_before(x, y, down, 10 - count) != wanted {
                assert(!ends_window(self.grid(), x as int, y as int, down, reversed, count + 1));
                proof {
                    lemma_window_shorter(self.grid(), x as int, y as int, down, reversed, count + 1, 11);
                }
                return false;
            }
            count += 1;
        }
        true
    }

    /// What a feature scores at a place of the symbol.
    pub fn score_at(&self, feature: Feature, x: usize, y: usize) -> (score: u64)
        requires
            self.wf(),
            in_symbol(self.grid().len() as int, x as int, y as int),
        ensures
            score == cell_score(self.grid(), feature, x as int, y as int),
            score <= 40,
    {
        let width = self.get_width();
        match feature {
            Feature::RunDown | Feature::RunRight => {
                let down = feature == Feature::RunDown;
                if self.run_ends_at(x, y, down, 6) {
                    1
                } else if self.run_ends_at(x, y, down, 5) {
                    3
                } else {
                    0
                }
            },
            Feature::Block => {
                let here = self.module_at(x, y).status;
                if x + 1 < width - 4 && y + 1 < width - 4 && here == self.module_at(x + 1, y).status && here
                    == self.module_at(x, y + 1).status && here == self.module_at(x + 1, y + 1).status {
                    3
                } else {
                    0
                }
            },
            Feature::FinderDown | Feature::FinderRight => {
                let down = feature == Feature::FinderDown;
                let along = if down {
                    y
                } else {
                    x
                };
                if along >= 14 && (self.window_ends_at(x, y, down, false) || self.window_ends_at(
                    x,
                    y,
                    down,
                    true,
                )) {
                    40
                } else {
                    0
                }
            },
            Feature::Dark => {
                if self.module_at(x, y).status == SymbolStatus::LogicalTrue {
                    1
                } else {
                    0
                }
            },
        }
    }

    /// What a feature scores in the whole symbol.
    pub fn score_of(&self, feature: Feature) -> (score: u64)
        requires
            self.wf(),
        ensures
            score == feature_score(self.grid(), feature),
            score <= 1_600_000,
    {
        let width = self.get_width();
        let mut score: u64 = 0;
        for x in 4..(width - 4)
            invariant
                self.wf(),
                width == self.grid().len(),
                score == region_score(self.grid(), feature, x as int),
                score <= 8000 * x,
        {
            for y in 4..(width - 4)
                invariant
                    4 <= x < width - 4,
                    self.wf(),
                    width == self.grid().len(),
                    score == region_score(self.grid(), feature, x as int) + column_score(
                        self.grid(),
                        feature,
                        x as int,
                        y as int,
                    ),
                    score <= 8000 * x + 40 * y,
            {
                let here = self.score_at(feature, x, y);
                score = score + here;
            }
        }
        score
    }

    /// The penalty for runs of five or more modules of one colour, in the
    /// columns and in the rows.
    pub fn penalty_consecutive_same_color(&self) -> (penalty: u32)
        requires
            self.wf(),
        ensures
            penalty == feature_score(self.grid(), Feature::RunDown) + feature_score(
                self.grid(),
                Feature::RunRight,
            ),
            penalty <= 3_200_000,
    {
        (self.score_of(Feature::RunDown) + self.score_of(Feature::RunRight)) as u32
    }

    /// The penalty for squares of four modules of one colour.
    pub fn penalty_color_blocks(&self) -> (penalty: u32)
        requires
            self.wf(),
        ensures
            penalty == feature_score(self.grid(), Feature::Block),
            penalty <= 1_600_000,
    {
        self.score_of(Feature::Block) as u32
    }

    /// The penalty for sequences that look like a finder pattern, in the
    /// columns and in the rows.
    pub fn penalty_finder_patterns(&self) -> (penalty: u32)
        requires
            self.wf(),
        ensures
            penalty == feature_score(self.grid(), Feature::FinderDown) + feature_score(
                self.grid(),
                Feature::FinderRight,
            ),
            penalty <= 3_200_000,
    {
        (self.score_of(Feature::FinderDown) + self.score_of(Feature::FinderRight)) as u32
    }

    /// The penalty for a share of dark modules away from one half.
    pub fn penalty_color_ratios(&self) -> (penalty: u32)
        requires
            self.wf(),
        ensures
            penalty == ratio_score(feature_score(self.grid(), Feature::Dark), self.grid().len() - 8),
            penalty <= 320_000_000,
    {
        let dark = self.score_of(Feature::Dark);
        let side: u64 = (self.get_width() - 8) as u64;
        assert(1 <= side * side <= 177 * 177) by (nonlinear_arith)
            requires
                1 <= side <= 177,
        ;
        let steps: u64 = (dark * 20) / (side * side);
        assert(steps <= dark * 20) by (nonlinear_arith)
            requires
                steps == (dark * 20) / (side * side),
                1 <= side * side,
                0 <= dark,
        ;
        if steps >= 10 {
            (10 * (steps - 10)) as u32
        } else {
            (10 * (9 - steps)) as u32
        }
    }

    /// The penalty of the matrix: the sum of the four penalties.
    pub fn calculate_penalty(&self) -> (penalty: u32)
        requires
            self.wf(),
        ensures
            penalty == spec_calculate_penalty(self.grid()),
    {
        let mut total_score: u32 = 0;
        total_score = total_score + self.penalty_consecutive_same_color();
        total_score = total_score + self.penalty_color_blocks();
        total_score = total_score + self.penalty_finder_patterns();
        total_score = total_score + self.penalty_color_ratios();
        total_score
    }

    /// A copy of the symbol under a mask: every module that carries data is
    /// inverted where the formula of the mask says so.
    pub fn apply_mask(&self, mask_number: u8) -> (masked: QRData)
        requires
            self.wf(),
            mask_number < 8,
            colours_resolved(self.grid()),
        ensures
            masked.wf(),
            masked.same_but_grid(self),
            masked.grid() == spec_apply_mask(self.grid(), mask_number as int),
    {
        let width = self.get_width();
        let ghost target = spec_apply_mask(self.grid(), mask_number as int);
        let mut modules: Vec<Vec<Module>> = Vec::new();
        for x in 0..width
            invariant
                self.wf(),
                width == self.grid().len(),
                mask_number < 8,
                colours_resolved(self.grid()),
                target == spec_apply_mask(self.grid(), mask_number as int),
                modules@.len() == x,
                forall|i: int| 0 <= i < x ==> (#[trigger] modules@[i])@ == target[i],
        {
            let mut column: Vec<Module> = Vec::new();
            for y in 0..width
                invariant
                    x < width,
                    self.wf(),
                    width == self.grid().len(),
                    mask_number < 8,
                    colours_resolved(self.grid()),
                    target == spec_apply_mask(self.grid(), mask_number as int),
                    column@.len() == y,
                    forall|j: int| 0 <= j < y ==> (#[trigger] column@[j]) == target[x as int][j],
            {
                let module = self.module_at(x, y);
                if 4 <= x && x < width - 4 && 4 <= y && y < width - 4 && module.role
                    == SymbolRole::EncodingRegion && formula_holds(mask_number, y - 4, x - 4) {
                    column.push(
                        Module {
                            status: module.status.bitxor(SymbolStatus::LogicalTrue),
                            role: SymbolRole::EncodingRegion,
                        },
                    );
                } else {
                    column.push(module);
                }
            }
            assert(column@ =~= target[x as int]);
            modules.push(column);
        }
        let mut error_blocks: Vec<ErrorBlockInfo> = Vec::new();
        let mut g: usize = 0;
        while g < self.error_blocks.len()
            invariant
                g <= self.error_blocks@.len(),
                error_blocks@ == self.error_blocks@.take(g as int),
            decreases self.error_blocks@.len() - g,
        {
            error_blocks.push(self.error_blocks[g]);
            assert(error_blocks@ =~= self.error_blocks@.take(g + 1));
            g += 1;
        }
        assert(self.error_blocks@.take(g as int) =~= self.error_blocks@);
        let settings = Settings {
            information: self.settings.information.clone(),
            error_level: self.settings.error_level,
            debugging: self.settings.debugging,
        };
        let masked = QRData { modules, version: self.version, error_blocks, settings };
        assert(masked.grid() =~~= target);
        masked
    }

    /// The mask with the lowest penalty; of several such masks the first.
    pub fn select_mask(&self) -> (mask: u8)
        requires
            self.wf(),
            colours_resolved(self.grid()),
        ensures
            is_best_mask(self.grid(), mask as int),
            mask as int == chosen_mask(self.grid()),
    {
        let mut best: u8 = 0;
        let mut lowest: u32 = self.apply_mask(0).calculate_penalty();
        let mut mask: u8 = 1;
        while mask < 8
            invariant
                1 <= mask <= 8,
                best < mask,
                self.wf(),
                colours_resolved(self.grid()),
                lowest == penalty_of_mask(self.grid(), best as int),
                forall|other: int|
                    0 <= other < mask ==> lowest <= #[trigger] penalty_of_mask(self.grid(), other),
                forall|other: int|
                    0 <= other < best ==> lowest < #[trigger] penalty_of_mask(self.grid(), other),
            decreases 8 - mask,
        {
            let current = self.apply_mask(mask).calculate_penalty();
            if current < lowest {
                best = mask;
                lowest = current;
            }
            mask += 1;
        }
        proof {
            lemma_best_mask_unique(self.grid(), best as int);
        }
        best
    }

    /// Stage 10: the symbol is put under the mask with the lowest penalty,
    /// and the format information for the level and the mask is written to
    /// its two places.
    pub fn masking_format_information(&mut self)
        requires
            old(self).wf(),
            colours_resolved(old(self).grid()),
        ensures
            final(self).wf(),
            final(self).same_but_grid(old(self)),
            final(self).grid() == spec_masking_format_information(
                old(self).grid(),
                old(self).settings.error_level,
            ),
    {
        let width = self.get_width();
        let best = self.select_mask();
        let masked = self.apply_mask(best);
        self.modules = masked.modules;
        let value: u8 = self.settings.error_level.format_bits() * 8 + best;
        let bits = information_sequences(value);
        let ghost source = self.grid();
        let ghost target = spec_format_information(source, bits);
        assert(source =~~= spec_apply_mask(old(self).grid(), best as int));
        for x in 0..width
            invariant
                29 <= width <= 185,
                self.same_but_grid(old(self)),
                is_square(source, width as int),
                target == spec_format_information(source, bits),
                is_partly(self.grid(), source, target, x as int, 0),
        {
            for y in 0..width
                invariant
                    x < width,
                    29 <= width <= 185,
                    self.same_but_grid(old(self)),
                    is_square(source, width as int),
                    target == spec_format_information(source, bits),
                    is_partly(self.grid(), source, target, x as int, y as int),
            {
                let index: Option<usize> = if y == 12 && 4 <= x && x <= 9 {
                    Some(18 - x)
                } else if y == 12 && x == 11 {
                    Some(8)
                } else if x == 12 && y == 12 {
                    Some(7)
                } else if x == 12 && y == 11 {
                    Some(6)
                } else if x == 12 && 4 <= y && y <= 9 {
                    Some(y - 4)
                } else if x == 12 && width - 11 <= y && y <= width - 5 {
                    Some(y + 19 - width)
                } else if y == 12 && width - 12 <= x && x <= width - 5 {
                    Some(width - 5 - x)
                } else {
                    None
                };
                match index {
                    Some(index) => {
                        let status = if (bits >> (index as u16)) & 1 == 1 {
                            SymbolStatus::LogicalTrue
                        } else {
                            SymbolStatus::LogicalFalse
                        };
                        self.set_module(x, y, Module { status, role: SymbolRole::FormatInformation });
                    },
                    None => {},
                }
            }
        }
        assert(self.grid() =~~= target);
    }
}

/// A run that does not reach a length does not reach a greater one.
proof fn lemma_run_shorter(grid: Seq<Seq<Module>>, x: int, y: int, down: bool, shorter: int, longer: int)
    requires
        shorter <= longer,
        !ends_run(grid, x, y, down, shorter),
    ensures
        !ends_run(grid, x, y, down, longer),
    decreases longer - shorter,
{
    if shorter < longer {
        lemma_run_shorter(grid, x, y, down, shorter, longer - 1);
    }
}

/// Modules that differ from the sequence in its first places differ from
/// the whole of it.
proof fn lemma_window_shorter(
    grid: Seq<Seq<Module>>,
    x: int,
    y: int,
    down: bool,
    reversed: bool,
    shorter: int,
    longer: int,
)
    requires
        shorter <= longer,
        !ends_window(grid, x, y, down, reversed, shorter),
    ensures
        !ends_window(grid, x, y, down, reversed, longer),
    decreases longer - shorter,
{
    if shorter < longer {
        lemma_window_shorter(grid, x, y, down, reversed, shorter, longer - 1);
    }
}

} // verus!
