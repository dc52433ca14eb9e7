//! The placement of the codewords in the matrix.
//!
//! The places for data are visited in strips of two columns, from the right
//! edge of the symbol to the left one: the first strip upwards, the next one
//! downwards, and so on. In each row of a strip the right column comes
//! first. Column 10, which holds a timing pattern, belongs to no strip.

use vstd::prelude::*;
use crate::standard_qr_code::qr_struct::Module;
use crate::standard_qr_code::qr_struct::QRData;
use crate::standard_qr_code::qr_struct::SymbolRole;
use crate::standard_qr_code::qr_struct::SymbolStatus;
use crate::standard_qr_code::qr_struct::is_square;

verus! {

/// The width of the matrix of some version: 29, 33, ..., 185.
pub open spec fn is_symbol_width(width: int) -> bool {
    29 <= width <= 185 && width % 4 == 1
}

/// Number of strips.
pub open spec fn strip_count(width: int) -> int {
    (width - 9) / 2
}

/// Number of places in one strip.
pub open spec fn strip_length(width: int) -> int {
    2 * (width - 8)
}

/// The right column of a strip.
pub open spec fn strip_column(width: int, strip: int) -> int {
    let column = width - 5 - 2 * strip;
    if column > 10 {
        column
    } else {
        column - 1
    }
}

/// The column of the place that is visited at a step in a strip.
pub open spec fn zigzag_column(width: int, strip: int, step: int) -> int {
    strip_column(width, strip) - step % 2
}

/// The row of the place that is visited at a step in a strip.
pub open spec fn zigzag_row(width: int, strip: int, step: int) -> int {
    if strip % 2 == 0 {
        width - 5 - step / 2
    } else {
        4 + step / 2
    }
}

/// The place lies in the symbol, not in the quiet zone, and not in the
/// column of the timing pattern.
pub open spec fn is_data_place(width: int, x: int, y: int) -> bool {
    4 <= x <= width - 5 && 4 <= y <= width - 5 && x != 10
}

/// The strip that a column belongs to.
pub open spec fn strip_of(width: int, x: int) -> int {
    if x > 10 {
        (width - 5 - x) / 2
    } else {
        (width - 6 - x) / 2
    }
}

/// The step at which a place is visited in its strip.
pub open spec fn step_of(width: int, x: int, y: int) -> int {
    let strip = strip_of(width, x);
    let rows = if strip % 2 == 0 {
        width - 5 - y
    } else {
        y - 4
    };
    2 * rows + (strip_column(width, strip) - x)
}

/// The module at the place has no role yet.
pub open spec fn is_free(grid: Seq<Seq<Module>>, x: int, y: int) -> bool {
    grid[x][y].role == SymbolRole::Uninitialised
}

/// Number of modules without a role among the places of the first `steps`
/// steps of a strip.
pub open spec fn free_in_strip(grid: Seq<Seq<Module>>, strip: int, steps: int) -> int
    decreases steps,
{
    if steps <= 0 {
        0
    } else {
        let width = grid.len() as int;
        free_in_strip(grid, strip, steps - 1) + if is_free(
            grid,
            zigzag_column(width, strip, steps - 1),
            zigzag_row(width, strip, steps - 1),
        ) {
            1int
        } else {
            0int
        }
    }
}

/// Number of modules without a role in the first `strips` strips.
pub open spec fn free_before(grid: Seq<Seq<Module>>, strips: int) -> int
    decreases strips,
{
    if strips <= 0 {
        0
    } else {
        free_before(grid, strips - 1) + free_in_strip(grid, strips - 1, strip_length(grid.len() as int))
    }
}

/// The number of the bit that is placed at a place: the number of modules
/// without a role that are visited before it.
pub open spec fn bit_number(grid: Seq<Seq<Module>>, x: int, y: int) -> int {
    let width = grid.len() as int;
    free_before(grid, strip_of(width, x)) + free_in_strip(grid, strip_of(width, x), step_of(width, x, y))
}

/// The colour for bit `number` of the codewords, the highest bit of the
/// first codeword being bit 0; light behind the last codeword.
pub open spec fn codeword_bit(codewords: Seq<u8>, number: int) -> SymbolStatus {
    if number / 8 < codewords.len() && (codewords[number / 8] >> ((7 - number % 8) as u8)) & 1 == 1 {
        SymbolStatus::LogicalTrue
    } else {
        SymbolStatus::LogicalFalse
    }
}

/// The module that the placement of the codewords leaves at a place.
pub open spec fn data_module(grid: Seq<Seq<Module>>, codewords: Seq<u8>, x: int, y: int) -> Module {
    if is_data_place(grid.len() as int, x, y) && is_free(grid, x, y) {
        Module {
            status: codeword_bit(codewords, bit_number(grid, x, y)),
            role: SymbolRole::EncodingRegion,
        }
    } else {
        grid[x][y]
    }
}

/// The matrix after the placement of the codewords.
pub open spec fn spec_write_into_self(grid: Seq<Seq<Module>>, codewords: Seq<u8>) -> Seq<Seq<Module>> {
    Seq::new(grid.len(), |x: int| Seq::new(grid[x].len(), |y: int| data_module(grid, codewords, x, y)))
}

/// `current` holds the modules of `target` at the places that are visited
/// before step `step` of strip `strip`, elsewhere those of `source`.
pub open spec fn is_placed_until(
    current: Seq<Seq<Module>>,
    source: Seq<Seq<Module>>,
    target: Seq<Seq<Module>>,
    strip: int,
    step: int,
) -> bool {
    let width = source.len() as int;
    &&& current.len() == source.len()
    &&& forall|i: int| 0 <= i < source.len() ==> (#[trigger] current[i]).len() == source[i].len()
    &&& forall|i: int, j: int|
        0 <= i < source.len() && 0 <= j < source[i].len() ==> (#[trigger] current[i][j]) == if is_data_place(
            width,
            i,
            j,
        ) && (strip_of(width, i) < strip || (strip_of(width, i) == strip && step_of(width, i, j) < step)) {
            target[i][j]
        } else {
            source[i][j]
        }
}

/// Every step of every strip visits a place for data, and no other step
/// visits that place.
pub proof fn lemma_place_of_step(width: int, strip: int, step: int)
    requires
        is_symbol_width(width),
        0 <= strip < strip_count(width),
        0 <= step < strip_length(width),
    ensures
        is_data_place(width, zigzag_column(width, strip, step), zigzag_row(width, strip, step)),
        strip_of(width, zigzag_column(width, strip, step)) == strip,
        step_of(width, zigzag_column(width, strip, step), zigzag_row(width, strip, step)) == step,
{
}

/// Every place for data is visited, at one step of one strip.
pub proof fn lemma_step_of_place(width: int, x: int, y: int)
    requires
        is_symbol_width(width),
        is_data_place(width, x, y),
    ensures
        0 <= strip_of(width, x) < strip_count(width),
        0 <= step_of(width, x, y) < strip_length(width),
        zigzag_column(width, strip_of(width, x), step_of(width, x, y)) == x,
        zigzag_row(width, strip_of(width, x), step_of(width, x, y)) == y,
{
}

/// After the placement no place for data is without a role, and the modules
/// that carry data are those that were free or carried data before.
pub proof fn lemma_data_places_filled(grid: Seq<Seq<Module>>, codewords: Seq<u8>, x: int, y: int)
    requires
        is_square(grid, grid.len() as int),
        0 <= x < grid.len(),
        0 <= y < grid.len(),
        is_data_place(grid.len() as int, x, y),
    ensures
        spec_write_into_self(grid, codewords)[x][y].role != SymbolRole::Uninitialised,
        spec_write_into_self(grid, codewords)[x][y].role == SymbolRole::EncodingRegion <==> (grid[x][y].role
            == SymbolRole::Uninitialised || grid[x][y].role == SymbolRole::EncodingRegion),
        spec_write_into_self(grid, codewords)[x][y].role != SymbolRole::EncodingRegion ==> spec_write_into_self(
            grid,
            codewords,
        )[x][y] == grid[x][y],
{
}

/// After the placement none of the first `steps` places of a strip is free.
proof fn lemma_no_free_place_in_strip(grid: Seq<Seq<Module>>, codewords: Seq<u8>, strip: int, steps: int)
    requires
        is_symbol_width(grid.len() as int),
        is_square(grid, grid.len() as int),
        0 <= strip < strip_count(grid.len() as int),
        0 <= steps <= strip_length(grid.len() as int),
    ensures
        free_in_strip(spec_write_into_self(grid, codewords), strip, steps) == 0,
    decreases steps,
{
    if steps > 0 {
        let width = grid.len() as int;
        lemma_no_free_place_in_strip(grid, codewords, strip, steps - 1);
        lemma_place_of_step(width, strip, steps - 1);
        lemma_data_places_filled(
            grid,
            codewords,
            zigzag_column(width, strip, steps - 1),
            zigzag_row(width, strip, steps - 1),
        );
    }
}

/// The placement uses every free place: after it no place of any strip is
/// free. With [`lemma_place_of_step`] and [`lemma_step_of_place`], by which
/// the steps and the places for data correspond one to one, the modules
/// that the placement writes are the places of the symbol outside the
/// timing column that no pattern or reservation has taken.
pub proof fn lemma_no_free_place_left(grid: Seq<Seq<Module>>, codewords: Seq<u8>, strips: int)
    requires
        is_symbol_width(grid.len() as int),
        is_square(grid, grid.len() as int),
        0 <= strips <= strip_count(grid.len() as int),
    ensures
        free_before(spec_write_into_self(grid, codewords), strips) == 0,
    decreases strips,
{
    if strips > 0 {
        lemma_no_free_place_left(grid, codewords, strips - 1);
        lemma_no_free_place_in_strip(grid, codewords, strips - 1, strip_length(grid.len() as int));
    }
}

impl QRData {
    /// Stage 8: the bits of the codewords are placed, the highest bit of
    /// the first codeword first, on the modules without a role, in the order
    /// of the strips. Modules that are left when the codewords are used up
    /// become light.
    pub fn write_into_self(&mut self, final_data_vect: &Vec<u8>)
        requires
            old(self).wf(),
        ensures
            final(self).wf(),
            final(self).same_but_grid(old(self)),
            final(self).grid() == spec_write_into_self(old(self).grid(), final_data_vect@),
    {
        let width = self.get_width();
        let strips: usize = (width - 9) / 2;
        let length: usize = 2 * (width - 8);
        let ghost source = self.grid();
        let ghost target = spec_write_into_self(source, final_data_vect@);
        let mut bit_index: usize = 0;
        for strip in 0..strips
            invariant
                is_symbol_width(width as int),
                strips == strip_count(width as int),
                length == strip_length(width as int),
                self.same_but_grid(old(self)),
                is_square(source, width as int),
                target == spec_write_into_self(source, final_data_vect@),
                is_placed_until(self.grid(), source, target, strip as int, 0),
                bit_index == free_before(source, strip as int),
                bit_index <= 400 * strip,
        {
            for step in 0..length
                invariant
                    strip < strips,
                    is_symbol_width(width as int),
                    strips == strip_count(width as int),
                    length == strip_length(width as int),
                    self.same_but_grid(old(self)),
                    is_square(source, width as int),
                    target == spec_write_into_self(source, final_data_vect@),
                    is_placed_until(self.grid(), source, target, strip as int, step as int),
                    bit_index == free_before(source, strip as int) + free_in_strip(
                        source,
                        strip as int,
                        step as int,
                    ),
                    bit_index <= 400 * strip + step,
            {
                proof {
                    lemma_place_of_step(width as int, strip as int, step as int);
                }
                let right: usize = if width - 5 - 2 * strip > 10 {
                    width - 5 - 2 * strip
                } else {
                    width - 6 - 2 * strip
                };
                let column: usize = right - step % 2;
                let row: usize = if strip % 2 == 0 {
                    width - 5 - step / 2
                } else {
                    4 + step / 2
                };
                let ghost before = self.grid();
                if self.module_at(column, row).role == SymbolRole::Uninitialised {
                    let dark = bit_index / 8 < final_data_vect.len() && (final_data_vect[bit_index / 8] >> ((7
                        - bit_index % 8) as u8)) & 1 == 1;
                    let status = if dark {
                        SymbolStatus::LogicalTrue
                    } else {
                        SymbolStatus::LogicalFalse
                    };
                    self.set_module(column, row, Module { status, role: SymbolRole::EncodingRegion });
                    bit_index += 1;
                }
                proof {
                    assert forall|i: int, j: int|
                        0 <= i < source.len() && 0 <= j < source[i].len() implies (
                    #[trigger] self.grid()[i][j]) == if is_data_place(width as int, i, j) && (strip_of(
                        width as int,
                        i,
                    ) < strip || (strip_of(width as int, i) == strip && step_of(width as int, i, j) < step
                        + 1)) {
                        target[i][j]
                    } else {
                        source[i][j]
                    } by {
                        if is_data_place(width as int, i, j) {
                            lemma_step_of_place(width as int, i, j);
                        }
                        assert(before[i][j] == if is_data_place(width as int, i, j) && (strip_of(
                            width as int,
                            i,
                        ) < strip || (strip_of(width as int, i) == strip && step_of(width as int, i, j)
                            < step)) {
                            target[i][j]
                        } else {
                            source[i][j]
                        });
                    }
                }
            }
        }
        proof {
            assert forall|i: int, j: int|
                0 <= i < source.len() && 0 <= j < source[i].len() implies (#[trigger] self.grid()[i][j])
                == target[i][j] by {
                if is_data_place(width as int, i, j) {
                    lemma_step_of_place(width as int, i, j);
                }
            }
            assert(self.grid() =~~= target);
        }
    }
}

} // verus!
