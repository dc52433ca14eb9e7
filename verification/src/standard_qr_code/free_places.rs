//! The places that the fixed patterns of version 1 leave for the codewords,
//! counted.

use vstd::prelude::*;
use crate::input::ErrorLevel;
use crate::standard_qr_code::blank_grid;
use crate::standard_qr_code::filled_grid;
use crate::standard_qr_code::lemma_structure_at;
use crate::standard_qr_code::is_separator_place;
use crate::standard_qr_code::lemma_format_places_reserved;
use crate::standard_qr_code::lemma_separator_at;
use crate::standard_qr_code::masking::format_bit_at;
use crate::standard_qr_code::placement::free_before;
use crate::standard_qr_code::placement::free_in_strip;
use crate::standard_qr_code::placement::is_data_place;
use crate::standard_qr_code::placement::is_free;
use crate::standard_qr_code::placement::lemma_place_of_step;
use crate::standard_qr_code::placement::zigzag_column;
use crate::standard_qr_code::placement::zigzag_row;
use crate::standard_qr_code::placement::strip_count;
use crate::standard_qr_code::placement::strip_length;
use crate::standard_qr_code::qr_struct::Module;
use crate::standard_qr_code::qr_struct::SymbolRole;
use crate::standard_qr_code::qr_struct::finder_centre;
use crate::standard_qr_code::qr_struct::is_dark_place;
use crate::standard_qr_code::qr_struct::spec_draw_alignment_pattern;
use crate::standard_qr_code::qr_struct::spec_finders;
use crate::standard_qr_code::qr_struct::spec_quiet_zone;
use crate::standard_qr_code::qr_struct::spec_reserve_format_information;
use crate::standard_qr_code::qr_struct::spec_separators;
use crate::standard_qr_code::qr_struct::spec_timing_pattern;
use crate::standard_qr_code::qr_struct::touches_role;
use crate::standard_qr_code::structure_grid;
use crate::standard_qr_code::version_constants::spec_alignment_centres;
use crate::standard_qr_code::version_constants::spec_codewords;

verus! {

/// In version 1 the places for data that no pattern or reservation has
/// taken: those outside the three corners of nine modules with the finder
/// patterns, and outside the row of the timing pattern.
pub open spec fn is_free_in_version_1(x: int, y: int) -> bool {
    &&& !(x <= 12 && y <= 12)
    &&& !(x >= 17 && y <= 12)
    &&& !(x <= 12 && y >= 17)
    &&& y != 10
}

/// The matrix of version 1 with its fixed patterns leaves free the places
/// that [`is_free_in_version_1`] names.
proof fn lemma_free_places_of_version_1()
    ensures
        forall|x: int, y: int|
            is_data_place(29, x, y) ==> (#[trigger] is_free(structure_grid(1), x, y)
                <==> is_free_in_version_1(x, y)),
{
    let structure = structure_grid(1);
    let quiet = spec_quiet_zone(blank_grid(1));
    let finders = spec_finders(quiet);
    let timing = spec_timing_pattern(finders);
    let separated = spec_separators(timing);
    let reserved = spec_reserve_format_information(separated);
    let aligned = spec_draw_alignment_pattern(reserved, spec_alignment_centres(1));
    assert(spec_alignment_centres(1).len() == 0);
    assert forall|x: int, y: int| is_data_place(29, x, y) implies (#[trigger] is_free(structure, x, y)
        <==> is_free_in_version_1(x, y)) by {
        assert(aligned[x][y] == reserved[x][y]);
        assert(structure[x][y] == aligned[x][y]);
        if is_free_in_version_1(x, y) {
            assert forall|a: int, b: int| x - 1 <= a <= x + 1 && y - 1 <= b <= y + 1 implies (
            #[trigger] timing[a][b]).role != SymbolRole::FinderPattern by {
                assert(finder_centre(29, a, b) is None);
                assert(finders[a][b].role != SymbolRole::FinderPattern);
            }
            assert(!touches_role(timing, x, y, SymbolRole::FinderPattern));
            assert(finder_centre(29, x, y) is None);
            assert(timing[x][y].role == SymbolRole::Uninitialised);
            assert(separated[x][y].role == SymbolRole::Uninitialised);
            if x != 16 && y != 16 {
                assert forall|a: int, b: int| x - 1 <= a <= x + 1 && y - 1 <= b <= y + 1 implies (
                #[trigger] separated[a][b]).role != SymbolRole::Separator by {
                    assert forall|c: int, d: int| a - 1 <= c <= a + 1 && b - 1 <= d <= b + 1 implies (
                    #[trigger] timing[c][d]).role != SymbolRole::FinderPattern by {
                        assert(finder_centre(29, c, d) is None);
                        assert(finders[c][d].role != SymbolRole::FinderPattern);
                    }
                    assert(!touches_role(timing, a, b, SymbolRole::FinderPattern));
                    assert(timing[a][b].role != SymbolRole::Separator);
                }
                assert(!touches_role(separated, x, y, SymbolRole::Separator));
            }
            assert(reserved[x][y].role == SymbolRole::Uninitialised);
        } else if y == 10 || finder_centre(29, x, y) is Some {
            assert(timing[x][y].role != SymbolRole::Uninitialised);
            assert(separated[x][y].role != SymbolRole::Uninitialised);
            assert(reserved[x][y].role != SymbolRole::Uninitialised);
        } else if is_separator_place(29, x, y) {
            lemma_separator_at(1, x, y);
            assert(reserved[x][y].role != SymbolRole::Uninitialised);
        } else {
            assert(x == 12 || y == 12);
            assert(format_bit_at(29, x, y) is Some || is_dark_place(29, x, y));
            lemma_format_places_reserved(1, x, y);
        }
    }
}

/// Number of places that a strip of version 1 leaves free: the four strips
/// on the right, the two in the middle, the four on the left.
pub open spec fn free_in_strip_of_version_1(strip: int) -> int {
    if strip < 4 {
        24
    } else if strip < 6 {
        40
    } else {
        8
    }
}

/// In a strip of version 1 the places of a row are free or taken together.
pub open spec fn is_free_row_of_version_1(strip: int, y: int) -> bool {
    if strip < 4 {
        13 <= y
    } else if strip < 6 {
        y != 10
    } else {
        13 <= y <= 16
    }
}

/// Number of free rows among the first `rows` rows of a strip of version 1,
/// in the order in which the strip visits them.
pub open spec fn free_rows_of_version_1(strip: int, rows: int) -> int
    decreases rows,
{
    if rows <= 0 {
        0
    } else {
        free_rows_of_version_1(strip, rows - 1) + if is_free_row_of_version_1(
            strip,
            zigzag_row(29, strip, 2 * (rows - 1)),
        ) {
            1int
        } else {
            0int
        }
    }
}

/// The place of a step of a strip is free where its row is a free row.
pub open spec fn is_free_by_row(grid: Seq<Seq<Module>>, strip: int, step: int) -> bool {
    is_free(grid, zigzag_column(29, strip, step), zigzag_row(29, strip, step))
        <==> is_free_row_of_version_1(strip, zigzag_row(29, strip, step))
}

/// Where the rows decide, the free places among the first steps of a strip
/// are two for each free row, and one for a free row that is half done.
proof fn lemma_free_by_rows(grid: Seq<Seq<Module>>, strip: int, steps: int)
    requires
        grid.len() == 29,
        0 <= strip < 10,
        0 <= steps <= 42,
        forall|step: int| 0 <= step < 42 ==> #[trigger] is_free_by_row(grid, strip, step),
    ensures
        free_in_strip(grid, strip, steps) == 2 * free_rows_of_version_1(strip, steps / 2) + if steps % 2
            == 1 && is_free_row_of_version_1(strip, zigzag_row(29, strip, steps - 1)) {
            1int
        } else {
            0int
        },
    decreases steps,
{
    if steps > 0 {
        lemma_free_by_rows(grid, strip, steps - 1);
        assert(is_free_by_row(grid, strip, steps - 1));
        let y = zigzag_row(29, strip, steps - 1);
        if steps % 2 == 0 {
            assert(zigzag_row(29, strip, steps - 2) == y);
            assert(zigzag_row(29, strip, 2 * (steps / 2 - 1)) == y);
        } else {
            assert(zigzag_row(29, strip, 2 * (steps / 2)) == y);
        }
    }
}

/// In the matrix of version 1 the rows decide which places are free.
proof fn lemma_rows_decide(strip: int, step: int)
    requires
        0 <= strip < 10,
        0 <= step < 42,
    ensures
        is_free_by_row(structure_grid(1), strip, step),
{
    lemma_free_places_of_version_1();
    lemma_place_of_step(29, strip, step);
}

/// The free places of each strip of version 1, counted.
proof fn lemma_free_in_strip_of_version_1(strip: int)
    requires
        0 <= strip < 10,
    ensures
        free_in_strip(structure_grid(1), strip, 42) == free_in_strip_of_version_1(strip),
{
    assert(structure_grid(1).len() == 29);
    assert forall|step: int| 0 <= step < 42 implies #[trigger] is_free_by_row(
        structure_grid(1),
        strip,
        step,
    ) by {
        lemma_rows_decide(strip, step);
    }
    lemma_free_by_rows(structure_grid(1), strip, 42);
    lemma_free_rows_counted(strip);
}

/// The free rows of each strip of version 1, counted.
proof fn lemma_free_rows_counted(strip: int)
    requires
        0 <= strip < 10,
    ensures
        free_rows_of_version_1(strip, 21) == if strip < 4 {
            12int
        } else if strip < 6 {
            20int
        } else {
            4int
        },
{
    reveal_with_fuel(free_rows_of_version_1, 22);
}

/// Version 1 leaves 208 places for data: one for each bit of its 26
/// codewords, and none over.
pub proof fn lemma_data_places_of_version_1()
    ensures
        free_before(structure_grid(1), strip_count(29)) == 208,
        208 == 8 * spec_codewords(1),
{
    reveal_with_fuel(free_before, 11);
    assert(structure_grid(1).len() == 29);
    assert(strip_length(29) == 42);
    lemma_free_in_strip_of_version_1(0);
    lemma_free_in_strip_of_version_1(1);
    lemma_free_in_strip_of_version_1(2);
    lemma_free_in_strip_of_version_1(3);
    lemma_free_in_strip_of_version_1(4);
    lemma_free_in_strip_of_version_1(5);
    lemma_free_in_strip_of_version_1(6);
    lemma_free_in_strip_of_version_1(7);
    lemma_free_in_strip_of_version_1(8);
    lemma_free_in_strip_of_version_1(9);
}

/// With the codewords placed, the modules of version 1 that carry data are
/// those at the places that its fixed patterns leave free.
pub proof fn lemma_data_modules_of_version_1(text: Seq<u8>, level: ErrorLevel, x: int, y: int)
    requires
        0 <= x < 29,
        0 <= y < 29,
    ensures
        filled_grid(text, level, 1)[x][y].role == SymbolRole::EncodingRegion <==> (is_data_place(
            29,
            x,
            y,
        ) && is_free_in_version_1(x, y)),
{
    lemma_free_places_of_version_1();
    lemma_structure_at(1, x, y);
    assert(structure_grid(1).len() == 29);
    assert(structure_grid(1)[x].len() == 29);
    if is_data_place(29, x, y) {
        assert(is_free(structure_grid(1), x, y) <==> is_free_in_version_1(x, y));
    }
}

} // verus!
