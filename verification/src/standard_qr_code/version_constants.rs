//! The fixed tables of the symbol standard: codeword capacities and block
//! layouts of the forty versions, the centres of the alignment patterns, and
//! the protected bit sequences of the version and format information.
//!
//! Each table stands twice: as a `spec` function, of which the contracts
//! speak, and as the executable function that is proved to return it.

use vstd::prelude::*;
use crate::input::ErrorLevel;
use crate::standard_qr_code::qr_struct::ErrorBlockInfo;

verus! {

/// Number of codewords of a version, data and error correction together.
pub open spec fn spec_codewords(version: int) -> int {
    if version == 1 {
        26
    }     else if version == 2 {
        44
    }     else if version == 3 {
        70
    }     else if version == 4 {
        100
    }     else if version == 5 {
        134
    }     else if version == 6 {
        172
    }     else if version == 7 {
        196
    }     else if version == 8 {
        242
    }     else if version == 9 {
        292
    }     else if version == 10 {
        346
    }     else if version == 11 {
        404
    }     else if version == 12 {
        466
    }     else if version == 13 {
        532
    }     else if version == 14 {
        581
    }     else if version == 15 {
        655
    }     else if version == 16 {
        733
    }     else if version == 17 {
        815
    }     else if version == 18 {
        901
    }     else if version == 19 {
        991
    }     else if version == 20 {
        1085
    }     else if version == 21 {
        1156
    }     else if version == 22 {
        1258
    }     else if version == 23 {
        1364
    }     else if version == 24 {
        1474
    }     else if version == 25 {
        1588
    }     else if version == 26 {
        1706
    }     else if version == 27 {
        1828
    }     else if version == 28 {
        1921
    }     else if version == 29 {
        2051
    }     else if version == 30 {
        2185
    }     else if version == 31 {
        2323
    }     else if version == 32 {
        2465
    }     else if version == 33 {
        2611
    }     else if version == 34 {
        2761
    }     else if version == 35 {
        2876
    }     else if version == 36 {
        3034
    }     else if version == 37 {
        3196
    }     else if version == 38 {
        3362
    }     else if version == 39 {
        3532
    } else {
        3706
    }
}

/// Number of codewords of a version, data and error correction together.
pub fn codewords(version: u8) -> (count: u16)
    requires
        1 <= version <= 40,
    ensures
        count == spec_codewords(version as int),
{
    match version {
        1 => 26,
        2 => 44,
        3 => 70,
        4 => 100,
        5 => 134,
        6 => 172,
        7 => 196,
        8 => 242,
        9 => 292,
        10 => 346,
        11 => 404,
        12 => 466,
        13 => 532,
        14 => 581,
        15 => 655,
        16 => 733,
        17 => 815,
        18 => 901,
        19 => 991,
        20 => 1085,
        21 => 1156,
        22 => 1258,
        23 => 1364,
        24 => 1474,
        25 => 1588,
        26 => 1706,
        27 => 1828,
        28 => 1921,
        29 => 2051,
        30 => 2185,
        31 => 2323,
        32 => 2465,
        33 => 2611,
        34 => 2761,
        35 => 2876,
        36 => 3034,
        37 => 3196,
        38 => 3362,
        39 => 3532,
        _ => 3706,
    }
}

/// One group of blocks.
pub open spec fn one_group(num_block: u8, total_block_len: u8, num_data_bytes: u8) -> Seq<ErrorBlockInfo> {
    seq![ErrorBlockInfo::spec_new(num_block, total_block_len, num_data_bytes)]
}

/// Two groups of blocks, of which the second has the longer blocks.
pub open spec fn two_groups(
    first_blocks: u8,
    first_len: u8,
    first_data: u8,
    second_blocks: u8,
    second_len: u8,
    second_data: u8,
) -> Seq<ErrorBlockInfo> {
    seq![
        ErrorBlockInfo::spec_new(first_blocks, first_len, first_data),
        ErrorBlockInfo::spec_new(second_blocks, second_len, second_data),
    ]
}

/// One group of blocks.
fn group(num_block: u8, total_block_len: u8, num_data_bytes: u8) -> (blocks: Vec<ErrorBlockInfo>)
    requires
        num_data_bytes <= total_block_len,
    ensures
        blocks@ == one_group(num_block, total_block_len, num_data_bytes),
{
    let mut blocks: Vec<ErrorBlockInfo> = Vec::new();
    blocks.push(ErrorBlockInfo::new(num_block, total_block_len, num_data_bytes));
    assert(blocks@ =~= one_group(num_block, total_block_len, num_data_bytes));
    blocks
}

/// Two groups of blocks.
fn groups(
    first_blocks: u8,
    first_len: u8,
    first_data: u8,
    second_blocks: u8,
    second_len: u8,
    second_data: u8,
) -> (blocks: Vec<ErrorBlockInfo>)
    requires
        first_data <= first_len,
        second_data <= second_len,
    ensures
        blocks@ == two_groups(first_blocks, first_len, first_data, second_blocks, second_len, second_data),
{
    let mut blocks: Vec<ErrorBlockInfo> = Vec::new();
    blocks.push(ErrorBlockInfo::new(first_blocks, first_len, first_data));
    blocks.push(ErrorBlockInfo::new(second_blocks, second_len, second_data));
    assert(blocks@ =~= two_groups(
        first_blocks,
        first_len,
        first_data,
        second_blocks,
        second_len,
        second_data,
    ));
    blocks
}

/// The groups of blocks of each version at level L.
pub open spec fn spec_error_blocks_l(version: int) -> Seq<ErrorBlockInfo> {
    if version == 1 {
        one_group(1, 26, 19)
    }     else if version == 2 {
        one_group(1, 44, 34)
    }     else if version == 3 {
        one_group(1, 70, 55)
    }     else if version == 4 {
        one_group(1, 100, 80)
    }     else if version == 5 {
        one_group(1, 134, 108)
    }     else if version == 6 {
        one_group(2, 86, 68)
    }     else if version == 7 {
        one_group(2, 98, 78)
    }     else if version == 8 {
        one_group(2, 121, 97)
    }     else if version == 9 {
        one_group(2, 146, 116)
    }     else if version == 10 {
        two_groups(2, 86, 68, 2, 87, 69)
    }     else if version == 11 {
        one_group(4, 101, 81)
    }     else if version == 12 {
        two_groups(2, 116, 92, 2, 117, 93)
    }     else if version == 13 {
        one_group(4, 133, 107)
    }     else if version == 14 {
        two_groups(3, 145, 115, 1, 146, 116)
    }     else if version == 15 {
        two_groups(5, 109, 87, 1, 110, 88)
    }     else if version == 16 {
        two_groups(5, 122, 98, 1, 123, 99)
    }     else if version == 17 {
        two_groups(1, 135, 107, 5, 136, 108)
    }     else if version == 18 {
        two_groups(5, 150, 120, 1, 151, 121)
    }     else if version == 19 {
        two_groups(3, 141, 113, 4, 142, 114)
    }     else if version == 20 {
        two_groups(3, 135, 107, 5, 136, 108)
    }     else if version == 21 {
        two_groups(4, 144, 116, 4, 145, 117)
    }     else if version == 22 {
        two_groups(2, 139, 111, 7, 140, 112)
    }     else if version == 23 {
        two_groups(4, 151, 121, 5, 152, 122)
    }     else if version == 24 {
        two_groups(6, 147, 117, 4, 148, 118)
    }     else if version == 25 {
        two_groups(8, 132, 106, 4, 133, 107)
    }     else if version == 26 {
        two_groups(10, 142, 114, 2, 143, 115)
    }     else if version == 27 {
        two_groups(8, 152, 122, 4, 153, 123)
    }     else if version == 28 {
        two_groups(3, 147, 117, 10, 148, 118)
    }     else if version == 29 {
        two_groups(7, 146, 116, 7, 147, 117)
    }     else if version == 30 {
        two_groups(5, 145, 115, 10, 146, 116)
    }     else if version == 31 {
        two_groups(13, 145, 115, 3, 146, 116)
    }     else if version == 32 {
        one_group(17, 145, 115)
    }     else if version == 33 {
        two_groups(17, 145, 115, 1, 146, 116)
    }     else if version == 34 {
        two_groups(13, 145, 115, 6, 146, 116)
    }     else if version == 35 {
        two_groups(12, 151, 121, 7, 152, 122)
    }     else if version == 36 {
        two_groups(6, 151, 121, 14, 152, 122)
    }     else if version == 37 {
        two_groups(17, 152, 122, 4, 153, 123)
    }     else if version == 38 {
        two_groups(4, 152, 122, 18, 153, 123)
    }     else if version == 39 {
        two_groups(20, 147, 117, 4, 148, 118)
    } else {
        two_groups(19, 148, 118, 6, 149, 119)
    }
}

/// The groups of blocks of a version at level L.
fn error_blocks_l(version: u8) -> (blocks: Vec<ErrorBlockInfo>)
    requires
        1 <= version <= 40,
    ensures
        blocks@ == spec_error_blocks_l(version as int),
{
    match version {
        1 => group(1, 26, 19),
        2 => group(1, 44, 34),
        3 => group(1, 70, 55),
        4 => group(1, 100, 80),
        5 => group(1, 134, 108),
        6 => group(2, 86, 68),
        7 => group(2, 98, 78),
        8 => group(2, 121, 97),
        9 => group(2, 146, 116),
        10 => groups(2, 86, 68, 2, 87, 69),
        11 => group(4, 101, 81),
        12 => groups(2, 116, 92, 2, 117, 93),
        13 => group(4, 133, 107),
        14 => groups(3, 145, 115, 1, 146, 116),
        15 => groups(5, 109, 87, 1, 110, 88),
        16 => groups(5, 122, 98, 1, 123, 99),
        17 => groups(1, 135, 107, 5, 136, 108),
        18 => groups(5, 150, 120, 1, 151, 121),
        19 => groups(3, 141, 113, 4, 142, 114),
        20 => groups(3, 135, 107, 5, 136, 108),
        21 => groups(4, 144, 116, 4, 145, 117),
        22 => groups(2, 139, 111, 7, 140, 112),
        23 => groups(4, 151, 121, 5, 152, 122),
        24 => groups(6, 147, 117, 4, 148, 118),
        25 => groups(8, 132, 106, 4, 133, 107),
        26 => groups(10, 142, 114, 2, 143, 115),
        27 => groups(8, 152, 122, 4, 153, 123),
        28 => groups(3, 147, 117, 10, 148, 118),
        29 => groups(7, 146, 116, 7, 147, 117),
        30 => groups(5, 145, 115, 10, 146, 116),
        31 => groups(13, 145, 115, 3, 146, 116),
        32 => group(17, 145, 115),
        33 => groups(17, 145, 115, 1, 146, 116),
        34 => groups(13, 145, 115, 6, 146, 116),
        35 => groups(12, 151, 121, 7, 152, 122),
        36 => groups(6, 151, 121, 14, 152, 122),
        37 => groups(17, 152, 122, 4, 153, 123),
        38 => groups(4, 152, 122, 18, 153, 123),
        39 => groups(20, 147, 117, 4, 148, 118),
        _ => groups(19, 148, 118, 6, 149, 119),
    }
}

/// The groups of blocks of each version at level M.
pub open spec fn spec_error_blocks_m(version: int) -> Seq<ErrorBlockInfo> {
    if version == 1 {
        one_group(1, 26, 16)
    }     else if version == 2 {
        one_group(1, 44, 28)
    }     else if version == 3 {
        one_group(1, 70, 44)
    }     else if version == 4 {
        one_group(2, 50, 32)
    }     else if version == 5 {
        one_group(2, 67, 43)
    }     else if version == 6 {
        one_group(4, 43, 27)
    }     else if version == 7 {
        one_group(4, 49, 31)
    }     else if version == 8 {
        two_groups(2, 60, 38, 2, 61, 39)
    }     else if version == 9 {
        two_groups(3, 58, 36, 2, 59, 37)
    }     else if version == 10 {
        two_groups(4, 69, 43, 1, 70, 44)
    }     else if version == 11 {
        two_groups(1, 80, 50, 4, 81, 51)
    }     else if version == 12 {
        two_groups(6, 58, 36, 2, 59, 37)
    }     else if version == 13 {
        two_groups(8, 59, 37, 1, 60, 38)
    }     else if version == 14 {
        two_groups(4, 64, 40, 5, 65, 41)
    }     else if version == 15 {
        two_groups(5, 65, 41, 5, 66, 42)
    }     else if version == 16 {
        two_groups(7, 73, 45, 3, 74, 46)
    }     else if version == 17 {
        two_groups(10, 74, 46, 1, 75, 47)
    }     else if version == 18 {
        two_groups(9, 69, 43, 4, 70, 44)
    }     else if version == 19 {
        two_groups(3, 70, 44, 11, 71, 45)
    }     else if version == 20 {
        two_groups(3, 67, 41, 13, 68, 42)
    }     else if version == 21 {
        one_group(17, 68, 42)
    }     else if version == 22 {
        one_group(17, 74, 46)
    }     else if version == 23 {
        two_groups(4, 75, 47, 14, 76, 48)
    }     else if version == 24 {
        two_groups(6, 73, 45, 14, 74, 46)
    }     else if version == 25 {
        two_groups(8, 75, 47, 13, 76, 48)
    }     else if version == 26 {
        two_groups(19, 74, 46, 4, 75, 47)
    }     else if version == 27 {
        two_groups(22, 73, 45, 3, 74, 46)
    }     else if version == 28 {
        two_groups(3, 73, 45, 23, 74, 46)
    }     else if version == 29 {
        two_groups(21, 73, 45, 7, 74, 46)
    }     else if version == 30 {
        two_groups(19, 75, 47, 10, 76, 48)
    }     else if version == 31 {
        two_groups(2, 74, 46, 29, 75, 47)
    }     else if version == 32 {
        two_groups(10, 74, 46, 23, 75, 47)
    }     else if version == 33 {
        two_groups(14, 74, 46, 21, 75, 47)
    }     else if version == 34 {
        two_groups(14, 74, 46, 23, 75, 47)
    }     else if version == 35 {
        two_groups(12, 75, 47, 26, 76, 48)
    }     else if version == 36 {
        two_groups(6, 75, 47, 34, 76, 48)
    }     else if version == 37 {
        two_groups(29, 74, 46, 14, 75, 47)
    }     else if version == 38 {
        two_groups(13, 74, 46, 32, 75, 47)
    }     else if version == 39 {
        two_groups(40, 75, 47, 7, 76, 48)
    } else {
        two_groups(18, 75, 47, 31, 76, 48)
    }
}

/// The groups of blocks of a version at level M.
fn error_blocks_m(version: u8) -> (blocks: Vec<ErrorBlockInfo>)
    requires
        1 <= version <= 40,
    ensures
        blocks@ == spec_error_blocks_m(version as int),
{
    match version {
        1 => group(1, 26, 16),
        2 => group(1, 44, 28),
        3 => group(1, 70, 44),
        4 => group(2, 50, 32),
        5 => group(2, 67, 43),
        6 => group(4, 43, 27),
        7 => group(4, 49, 31),
        8 => groups(2, 60, 38, 2, 61, 39),
        9 => groups(3, 58, 36, 2, 59, 37),
        10 => groups(4, 69, 43, 1, 70, 44),
        11 => groups(1, 80, 50, 4, 81, 51),
        12 => groups(6, 58, 36, 2, 59, 37),
        13 => groups(8, 59, 37, 1, 60, 38),
        14 => groups(4, 64, 40, 5, 65, 41),
        15 => groups(5, 65, 41, 5, 66, 42),
        16 => groups(7, 73, 45, 3, 74, 46),
        17 => groups(10, 74, 46, 1, 75, 47),
        18 => groups(9, 69, 43, 4, 70, 44),
        19 => groups(3, 70, 44, 11, 71, 45),
        20 => groups(3, 67, 41, 13, 68, 42),
        21 => group(17, 68, 42),
        22 => group(17, 74, 46),
        23 => groups(4, 75, 47, 14, 76, 48),
        24 => groups(6, 73, 45, 14, 74, 46),
        25 => groups(8, 75, 47, 13, 76, 48),
        26 => groups(19, 74, 46, 4, 75, 47),
        27 => groups(22, 73, 45, 3, 74, 46),
        28 => groups(3, 73, 45, 23, 74, 46),
        29 => groups(21, 73, 45, 7, 74, 46),
        30 => groups(19, 75, 47, 10, 76, 48),
        31 => groups(2, 74, 46, 29, 75, 47),
        32 => groups(10, 74, 46, 23, 75, 47),
        33 => groups(14, 74, 46, 21, 75, 47),
        34 => groups(14, 74, 46, 23, 75, 47),
        35 => groups(12, 75, 47, 26, 76, 48),
        36 => groups(6, 75, 47, 34, 76, 48),
        37 => groups(29, 74, 46, 14, 75, 47),
        38 => groups(13, 74, 46, 32, 75, 47),
        39 => groups(40, 75, 47, 7, 76, 48),
        _ => groups(18, 75, 47, 31, 76, 48),
    }
}

/// The groups of blocks of each version at level Q.
pub open spec fn spec_error_blocks_q(version: int) -> Seq<ErrorBlockInfo> {
    if version == 1 {
        one_group(1, 26, 13)
    }     else if version == 2 {
        one_group(1, 44, 22)
    }     else if version == 3 {
        one_group(2, 35, 17)
    }     else if version == 4 {
        one_group(2, 50, 24)
    }     else if version == 5 {
        two_groups(2, 33, 15, 2, 34, 16)
    }     else if version == 6 {
        one_group(4, 43, 19)
    }     else if version == 7 {
        two_groups(2, 32, 14, 4, 33, 15)
    }     else if version == 8 {
        two_groups(4, 40, 18, 2, 41, 19)
    }     else if version == 9 {
        two_groups(4, 36, 16, 4, 37, 17)
    }     else if version == 10 {
        two_groups(6, 43, 19, 2, 44, 20)
    }     else if version == 11 {
        two_groups(4, 50, 22, 4, 51, 23)
    }     else if version == 12 {
        two_groups(4, 46, 20, 6, 47, 21)
    }     else if version == 13 {
        two_groups(8, 44, 20, 4, 45, 21)
    }     else if version == 14 {
        two_groups(11, 36, 16, 5, 37, 17)
    }     else if version == 15 {
        two_groups(5, 54, 24, 7, 55, 25)
    }     else if version == 16 {
        two_groups(15, 43, 19, 2, 44, 20)
    }     else if version == 17 {
        two_groups(1, 50, 22, 15, 51, 23)
    }     else if version == 18 {
        two_groups(17, 50, 22, 1, 51, 23)
    }     else if version == 19 {
        two_groups(17, 47, 21, 4, 48, 22)
    }     else if version == 20 {
        two_groups(15, 54, 24, 5, 55, 25)
    }     else if version == 21 {
        two_groups(17, 50, 22, 6, 51, 23)
    }     else if version == 22 {
        two_groups(7, 54, 24, 16, 55, 25)
    }     else if version == 23 {
        two_groups(11, 54, 24, 14, 55, 25)
    }     else if version == 24 {
        two_groups(11, 54, 24, 16, 55, 25)
    }     else if version == 25 {
        two_groups(7, 54, 24, 22, 55, 25)
    }     else if version == 26 {
        two_groups(28, 50, 22, 6, 51, 23)
    }     else if version == 27 {
        two_groups(8, 53, 23, 26, 54, 24)
    }     else if version == 28 {
        two_groups(4, 54, 24, 31, 55, 25)
    }     else if version == 29 {
        two_groups(1, 53, 23, 37, 54, 24)
    }     else if version == 30 {
        two_groups(15, 54, 24, 25, 55, 25)
    }     else if version == 31 {
        two_groups(42, 54, 24, 1, 55, 25)
    }     else if version == 32 {
        two_groups(10, 54, 24, 35, 55, 25)
    }     else if version == 33 {
        two_groups(29, 54, 24, 19, 55, 25)
    }     else if version == 34 {
        two_groups(44, 54, 24, 7, 55, 25)
    }     else if version == 35 {
        two_groups(39, 54, 24, 14, 55, 25)
    }     else if version == 36 {
        two_groups(46, 54, 24, 10, 55, 25)
    }     else if version == 37 {
        two_groups(49, 54, 24, 10, 55, 25)
    }     else if version == 38 {
        two_groups(48, 54, 24, 14, 55, 25)
    }     else if version == 39 {
        two_groups(43, 54, 24, 22, 55, 25)
    } else {
        two_groups(34, 54, 24, 34, 55, 25)
    }
}

/// The groups of blocks of a version at level Q.
fn error_blocks_q(version: u8) -> (blocks: Vec<ErrorBlockInfo>)
    requires
        1 <= version <= 40,
    ensures
        blocks@ == spec_error_blocks_q(version as int),
{
    match version {
        1 => group(1, 26, 13),
        2 => group(1, 44, 22),
        3 => group(2, 35, 17),
        4 => group(2, 50, 24),
        5 => groups(2, 33, 15, 2, 34, 16),
        6 => group(4, 43, 19),
        7 => groups(2, 32, 14, 4, 33, 15),
        8 => groups(4, 40, 18, 2, 41, 19),
        9 => groups(4, 36, 16, 4, 37, 17),
        10 => groups(6, 43, 19, 2, 44, 20),
        11 => groups(4, 50, 22, 4, 51, 23),
        12 => groups(4, 46, 20, 6, 47, 21),
        13 => groups(8, 44, 20, 4, 45, 21),
        14 => groups(11, 36, 16, 5, 37, 17),
        15 => groups(5, 54, 24, 7, 55, 25),
        16 => groups(15, 43, 19, 2, 44, 20),
        17 => groups(1, 50, 22, 15, 51, 23),
        18 => groups(17, 50, 22, 1, 51, 23),
        19 => groups(17, 47, 21, 4, 48, 22),
        20 => groups(15, 54, 24, 5, 55, 25),
        21 => groups(17, 50, 22, 6, 51, 23),
        22 => groups(7, 54, 24, 16, 55, 25),
        23 => groups(11, 54, 24, 14, 55, 25),
        24 => groups(11, 54, 24, 16, 55, 25),
        25 => groups(7, 54, 24, 22, 55, 25),
        26 => groups(28, 50, 22, 6, 51, 23),
        27 => groups(8, 53, 23, 26, 54, 24),
        28 => groups(4, 54, 24, 31, 55, 25),
        29 => groups(1, 53, 23, 37, 54, 24),
        30 => groups(15, 54, 24, 25, 55, 25),
        31 => groups(42, 54, 24, 1, 55, 25),
        32 => groups(10, 54, 24, 35, 55, 25),
        33 => groups(29, 54, 24, 19, 55, 25),
        34 => groups(44, 54, 24, 7, 55, 25),
        35 => groups(39, 54, 24, 14, 55, 25),
        36 => groups(46, 54, 24, 10, 55, 25),
        37 => groups(49, 54, 24, 10, 55, 25),
        38 => groups(48, 54, 24, 14, 55, 25),
        39 => groups(43, 54, 24, 22, 55, 25),
        _ => groups(34, 54, 24, 34, 55, 25),
    }
}

/// The groups of blocks of each version at level H.
pub open spec fn spec_error_blocks_h(version: int) -> Seq<ErrorBlockInfo> {
    if version == 1 {
        one_group(1, 26, 9)
    }     else if version == 2 {
        one_group(1, 44, 16)
    }     else if version == 3 {
        one_group(2, 35, 13)
    }     else if version == 4 {
        one_group(4, 25, 9)
    }     else if version == 5 {
        two_groups(2, 33, 11, 2, 34, 12)
    }     else if version == 6 {
        one_group(4, 43, 15)
    }     else if version == 7 {
        two_groups(4, 39, 13, 1, 40, 14)
    }     else if version == 8 {
        two_groups(4, 40, 14, 2, 41, 15)
    }     else if version == 9 {
        two_groups(4, 36, 12, 4, 37, 13)
    }     else if version == 10 {
        two_groups(6, 43, 15, 2, 44, 16)
    }     else if version == 11 {
        two_groups(3, 36, 12, 8, 37, 13)
    }     else if version == 12 {
        two_groups(7, 42, 14, 4, 43, 15)
    }     else if version == 13 {
        two_groups(12, 33, 11, 4, 34, 12)
    }     else if version == 14 {
        two_groups(11, 36, 12, 5, 37, 13)
    }     else if version == 15 {
        two_groups(11, 36, 12, 7, 37, 13)
    }     else if version == 16 {
        two_groups(3, 45, 15, 13, 46, 16)
    }     else if version == 17 {
        two_groups(2, 42, 14, 17, 43, 15)
    }     else if version == 18 {
        two_groups(2, 42, 14, 19, 43, 15)
    }     else if version == 19 {
        two_groups(9, 39, 13, 16, 40, 14)
    }     else if version == 20 {
        two_groups(15, 43, 15, 10, 44, 16)
    }     else if version == 21 {
        two_groups(19, 46, 16, 6, 47, 17)
    }     else if version == 22 {
        one_group(34, 37, 13)
    }     else if version == 23 {
        two_groups(16, 45, 15, 14, 46, 16)
    }     else if version == 24 {
        two_groups(30, 46, 16, 2, 47, 17)
    }     else if version == 25 {
        two_groups(22, 45, 15, 13, 46, 16)
    }     else if version == 26 {
        two_groups(33, 46, 16, 4, 47, 17)
    }     else if version == 27 {
        two_groups(12, 45, 15, 28, 46, 16)
    }     else if version == 28 {
        two_groups(11, 45, 15, 31, 46, 16)
    }     else if version == 29 {
        two_groups(19, 45, 15, 26, 46, 16)
    }     else if version == 30 {
        two_groups(23, 45, 15, 25, 46, 16)
    }     else if version == 31 {
        two_groups(23, 45, 15, 28, 46, 16)
    }     else if version == 32 {
        two_groups(19, 45, 15, 35, 46, 16)
    }     else if version == 33 {
        two_groups(11, 45, 15, 46, 46, 16)
    }     else if version == 34 {
        two_groups(59, 46, 16, 1, 47, 17)
    }     else if version == 35 {
        two_groups(22, 45, 15, 41, 46, 16)
    }     else if version == 36 {
        two_groups(2, 45, 15, 64, 46, 16)
    }     else if version == 37 {
        two_groups(24, 45, 15, 46, 46, 16)
    }     else if version == 38 {
        two_groups(42, 45, 15, 32, 46, 16)
    }     else if version == 39 {
        two_groups(10, 45, 15, 67, 46, 16)
    } else {
        two_groups(20, 45, 15, 61, 46, 16)
    }
}

/// The groups of blocks of a version at level H.
fn error_blocks_h(version: u8) -> (blocks: Vec<ErrorBlockInfo>)
    requires
        1 <= version <= 40,
    ensures
        blocks@ == spec_error_blocks_h(version as int),
{
    match version {
        1 => group(1, 26, 9),
        2 => group(1, 44, 16),
        3 => group(2, 35, 13),
        4 => group(4, 25, 9),
        5 => groups(2, 33, 11, 2, 34, 12),
        6 => group(4, 43, 15),
        7 => groups(4, 39, 13, 1, 40, 14),
        8 => groups(4, 40, 14, 2, 41, 15),
        9 => groups(4, 36, 12, 4, 37, 13),
        10 => groups(6, 43, 15, 2, 44, 16),
        11 => groups(3, 36, 12, 8, 37, 13),
        12 => groups(7, 42, 14, 4, 43, 15),
        13 => groups(12, 33, 11, 4, 34, 12),
        14 => groups(11, 36, 12, 5, 37, 13),
        15 => groups(11, 36, 12, 7, 37, 13),
        16 => groups(3, 45, 15, 13, 46, 16),
        17 => groups(2, 42, 14, 17, 43, 15),
        18 => groups(2, 42, 14, 19, 43, 15),
        19 => groups(9, 39, 13, 16, 40, 14),
        20 => groups(15, 43, 15, 10, 44, 16),
        21 => groups(19, 46, 16, 6, 47, 17),
        22 => group(34, 37, 13),
        23 => groups(16, 45, 15, 14, 46, 16),
        24 => groups(30, 46, 16, 2, 47, 17),
        25 => groups(22, 45, 15, 13, 46, 16),
        26 => groups(33, 46, 16, 4, 47, 17),
        27 => groups(12, 45, 15, 28, 46, 16),
        28 => groups(11, 45, 15, 31, 46, 16),
        29 => groups(19, 45, 15, 26, 46, 16),
        30 => groups(23, 45, 15, 25, 46, 16),
        31 => groups(23, 45, 15, 28, 46, 16),
        32 => groups(19, 45, 15, 35, 46, 16),
        33 => groups(11, 45, 15, 46, 46, 16),
        34 => groups(59, 46, 16, 1, 47, 17),
        35 => groups(22, 45, 15, 41, 46, 16),
        36 => groups(2, 45, 15, 64, 46, 16),
        37 => groups(24, 45, 15, 46, 46, 16),
        38 => groups(42, 45, 15, 32, 46, 16),
        39 => groups(10, 45, 15, 67, 46, 16),
        _ => groups(20, 45, 15, 61, 46, 16),
    }
}

/// The groups of blocks of a version at a level: one group, or two.
pub open spec fn spec_error_blocks(version: int, level: ErrorLevel) -> Seq<ErrorBlockInfo> {
    match level {
        ErrorLevel::L => spec_error_blocks_l(version),
        ErrorLevel::M => spec_error_blocks_m(version),
        ErrorLevel::Q => spec_error_blocks_q(version),
        ErrorLevel::H => spec_error_blocks_h(version),
    }
}

/// The groups of blocks of a version at a level.
pub fn error_blocks_of(version: u8, level: ErrorLevel) -> (blocks: Vec<ErrorBlockInfo>)
    requires
        1 <= version <= 40,
    ensures
        blocks@ == spec_error_blocks(version as int, level),
{
    match level {
        ErrorLevel::L => error_blocks_l(version),
        ErrorLevel::M => error_blocks_m(version),
        ErrorLevel::Q => error_blocks_q(version),
        ErrorLevel::H => error_blocks_h(version),
    }
}

/// The level at place `index` in the rows of a version: L, M, Q, H.
pub open spec fn level_at(index: int) -> ErrorLevel {
    if index == 0 {
        ErrorLevel::L
    } else if index == 1 {
        ErrorLevel::M
    } else if index == 2 {
        ErrorLevel::Q
    } else {
        ErrorLevel::H
    }
}

/// The level at a place in the rows of a version.
fn level_of_index(index: usize) -> (level: ErrorLevel)
    requires
        index < 4,
    ensures
        level == level_at(index as int),
{
    if index == 0 {
        ErrorLevel::L
    } else if index == 1 {
        ErrorLevel::M
    } else if index == 2 {
        ErrorLevel::Q
    } else {
        ErrorLevel::H
    }
}

/// The whole capacity table: for each version its number, its number of
/// codewords, and for each level the groups of blocks.
pub fn get_error_block_info() -> (table: Vec<(u8, u16, Vec<(ErrorLevel, Vec<ErrorBlockInfo>)>)>)
    ensures
        table@.len() == 40,
        forall|v: int|
            #![trigger table@[v]]
            0 <= v < 40 ==> {
                &&& table@[v].0 == v + 1
                &&& table@[v].1 == spec_codewords(v + 1)
                &&& table@[v].2@.len() == 4
                &&& forall|l: int|
                    #![trigger table@[v].2@[l]]
                    0 <= l < 4 ==> table@[v].2@[l].0 == level_at(l) && table@[v].2@[l].1@
                        == spec_error_blocks(v + 1, level_at(l))
            },
{
    let mut table: Vec<(u8, u16, Vec<(ErrorLevel, Vec<ErrorBlockInfo>)>)> = Vec::new();
    let mut v: usize = 0;
    while v < 40
        invariant
            v <= 40,
            table@.len() == v,
            forall|u: int|
                #![trigger table@[u]]
                0 <= u < v ==> {
                    &&& table@[u].0 == u + 1
                    &&& table@[u].1 == spec_codewords(u + 1)
                    &&& table@[u].2@.len() == 4
                    &&& forall|l: int|
                        #![trigger table@[u].2@[l]]
                        0 <= l < 4 ==> table@[u].2@[l].0 == level_at(l) && table@[u].2@[l].1@
                            == spec_error_blocks(u + 1, level_at(l))
                },
        decreases 40 - v,
    {
        let version: u8 = (v + 1) as u8;
        let mut levels: Vec<(ErrorLevel, Vec<ErrorBlockInfo>)> = Vec::new();
        let mut l: usize = 0;
        while l < 4
            invariant
                l <= 4,
                v < 40,
                version == v + 1,
                levels@.len() == l,
                forall|k: int|
                    #![trigger levels@[k]]
                    0 <= k < l ==> levels@[k].0 == level_at(k) && levels@[k].1@ == spec_error_blocks(
                        v + 1,
                        level_at(k),
                    ),
            decreases 4 - l,
        {
            let level = level_of_index(l);
            let blocks = error_blocks_of(version, level);
            levels.push((level, blocks));
            l += 1;
        }
        let total = codewords(version);
        table.push((version, total, levels));
        v += 1;
    }
    table
}

/// The alignment centres of a version along one axis, without the quiet zone.
pub open spec fn spec_alignment_centres(version: int) -> Seq<u8> {
    if version == 1 {
        Seq::<u8>::empty()
    }     else if version == 2 {
        seq![6u8, 18u8]
    }     else if version == 3 {
        seq![6u8, 22u8]
    }     else if version == 4 {
        seq![6u8, 26u8]
    }     else if version == 5 {
        seq![6u8, 30u8]
    }     else if version == 6 {
        seq![6u8, 34u8]
    }     else if version == 7 {
        seq![6u8, 22u8, 38u8]
    }     else if version == 8 {
        seq![6u8, 24u8, 42u8]
    }     else if version == 9 {
        seq![6u8, 26u8, 46u8]
    }     else if version == 10 {
        seq![6u8, 28u8, 50u8]
    }     else if version == 11 {
        seq![6u8, 30u8, 54u8]
    }     else if version == 12 {
        seq![6u8, 32u8, 58u8]
    }     else if version == 13 {
        seq![6u8, 34u8, 62u8]
    }     else if version == 14 {
        seq![6u8, 26u8, 46u8, 66u8]
    }     else if version == 15 {
        seq![6u8, 26u8, 48u8, 70u8]
    }     else if version == 16 {
        seq![6u8, 26u8, 50u8, 74u8]
    }     else if version == 17 {
        seq![6u8, 30u8, 54u8, 78u8]
    }     else if version == 18 {
        seq![6u8, 30u8, 56u8, 82u8]
    }     else if version == 19 {
        seq![6u8, 30u8, 58u8, 86u8]
    }     else if version == 20 {
        seq![6u8, 34u8, 62u8, 90u8]
    }     else if version == 21 {
        seq![6u8, 28u8, 50u8, 72u8, 94u8]
    }     else if version == 22 {
        seq![6u8, 26u8, 50u8, 74u8, 98u8]
    }     else if version == 23 {
        seq![6u8, 30u8, 54u8, 78u8, 102u8]
    }     else if version == 24 {
        seq![6u8, 28u8, 54u8, 80u8, 106u8]
    }     else if version == 25 {
        seq![6u8, 32u8, 58u8, 84u8, 110u8]
    }     else if version == 26 {
        seq![6u8, 30u8, 58u8, 86u8, 114u8]
    }     else if version == 27 {
        seq![6u8, 34u8, 62u8, 90u8, 118u8]
    }     else if version == 28 {
        seq![6u8, 26u8, 50u8, 74u8, 98u8, 122u8]
    }     else if version == 29 {
        seq![6u8, 30u8, 54u8, 78u8, 102u8, 126u8]
    }     else if version == 30 {
        seq![6u8, 26u8, 52u8, 78u8, 104u8, 130u8]
    }     else if version == 31 {
        seq![6u8, 30u8, 56u8, 82u8, 108u8, 134u8]
    }     else if version == 32 {
        seq![6u8, 34u8, 60u8, 86u8, 112u8, 138u8]
    }     else if version == 33 {
        seq![6u8, 30u8, 58u8, 86u8, 114u8, 142u8]
    }     else if version == 34 {
        seq![6u8, 34u8, 62u8, 90u8, 118u8, 146u8]
    }     else if version == 35 {
        seq![6u8, 30u8, 54u8, 78u8, 102u8, 126u8, 150u8]
    }     else if version == 36 {
        seq![6u8, 24u8, 50u8, 76u8, 102u8, 128u8, 154u8]
    }     else if version == 37 {
        seq![6u8, 28u8, 54u8, 80u8, 106u8, 132u8, 158u8]
    }     else if version == 38 {
        seq![6u8, 32u8, 58u8, 84u8, 110u8, 136u8, 162u8]
    }     else if version == 39 {
        seq![6u8, 26u8, 54u8, 82u8, 110u8, 138u8, 166u8]
    } else {
        seq![6u8, 30u8, 58u8, 86u8, 114u8, 142u8, 170u8]
    }
}

/// Number of alignment patterns of a version: every pair of centres but the
/// three that fall on a finder pattern.
pub open spec fn alignment_pattern_count(version: int) -> int {
    let n = spec_alignment_centres(version).len();
    if n == 0 {
        0
    } else {
        n * n - 3
    }
}

/// The alignment centres of a version along one axis.
fn alignment_centres(version: u8) -> (centres: Vec<u8>)
    requires
        1 <= version <= 40,
    ensures
        centres@ == spec_alignment_centres(version as int),
{
    let centres = match version {
        1 => Vec::new(),
        2 => vec![6, 18],
        3 => vec![6, 22],
        4 => vec![6, 26],
        5 => vec![6, 30],
        6 => vec![6, 34],
        7 => vec![6, 22, 38],
        8 => vec![6, 24, 42],
        9 => vec![6, 26, 46],
        10 => vec![6, 28, 50],
        11 => vec![6, 30, 54],
        12 => vec![6, 32, 58],
        13 => vec![6, 34, 62],
        14 => vec![6, 26, 46, 66],
        15 => vec![6, 26, 48, 70],
        16 => vec![6, 26, 50, 74],
        17 => vec![6, 30, 54, 78],
        18 => vec![6, 30, 56, 82],
        19 => vec![6, 30, 58, 86],
        20 => vec![6, 34, 62, 90],
        21 => vec![6, 28, 50, 72, 94],
        22 => vec![6, 26, 50, 74, 98],
        23 => vec![6, 30, 54, 78, 102],
        24 => vec![6, 28, 54, 80, 106],
        25 => vec![6, 32, 58, 84, 110],
        26 => vec![6, 30, 58, 86, 114],
        27 => vec![6, 34, 62, 90, 118],
        28 => vec![6, 26, 50, 74, 98, 122],
        29 => vec![6, 30, 54, 78, 102, 126],
        30 => vec![6, 26, 52, 78, 104, 130],
        31 => vec![6, 30, 56, 82, 108, 134],
        32 => vec![6, 34, 60, 86, 112, 138],
        33 => vec![6, 30, 58, 86, 114, 142],
        34 => vec![6, 34, 62, 90, 118, 146],
        35 => vec![6, 30, 54, 78, 102, 126, 150],
        36 => vec![6, 24, 50, 76, 102, 128, 154],
        37 => vec![6, 28, 54, 80, 106, 132, 158],
        38 => vec![6, 32, 58, 84, 110, 136, 162],
        39 => vec![6, 26, 54, 82, 110, 138, 166],
        _ => vec![6, 30, 58, 86, 114, 142, 170],
    };
    assert(centres@ =~= spec_alignment_centres(version as int));
    centres
}

/// Number of alignment patterns of a version and their centres along one
/// axis, without the quiet zone.
pub fn alignment_pattern_data(version: u8) -> (data: (u8, Vec<u8>))
    requires
        1 <= version <= 40,
    ensures
        data.0 == alignment_pattern_count(version as int),
        data.1@ == spec_alignment_centres(version as int),
{
    let centres = alignment_centres(version);
    let n = centres.len();
    assert(n <= 7);
    let patterns: u8 = if n == 0 {
        0
    } else {
        assert(2 <= n);
        assert(1 <= n * n - 3 <= 46) by (nonlinear_arith)
            requires
                2 <= n <= 7,
        ;
        (n * n - 3) as u8
    };
    (patterns, centres)
}

/// The 18-bit version information of a version from 7 to 40.
pub open spec fn spec_version_info(version: int) -> u32 {
    if version == 7 {
        0x07C94
    }     else if version == 8 {
        0x085BC
    }     else if version == 9 {
        0x09A99
    }     else if version == 10 {
        0x0A4D3
    }     else if version == 11 {
        0x0BBF6
    }     else if version == 12 {
        0x0C762
    }     else if version == 13 {
        0x0D847
    }     else if version == 14 {
        0x0E60D
    }     else if version == 15 {
        0x0F928
    }     else if version == 16 {
        0x10B78
    }     else if version == 17 {
        0x1145D
    }     else if version == 18 {
        0x12A17
    }     else if version == 19 {
        0x13532
    }     else if version == 20 {
        0x149A6
    }     else if version == 21 {
        0x15683
    }     else if version == 22 {
        0x168C9
    }     else if version == 23 {
        0x177EC
    }     else if version == 24 {
        0x18EC4
    }     else if version == 25 {
        0x191E1
    }     else if version == 26 {
        0x1AFAB
    }     else if version == 27 {
        0x1B08E
    }     else if version == 28 {
        0x1CC1A
    }     else if version == 29 {
        0x1D33F
    }     else if version == 30 {
        0x1ED75
    }     else if version == 31 {
        0x1F250
    }     else if version == 32 {
        0x209D5
    }     else if version == 33 {
        0x216F0
    }     else if version == 34 {
        0x228BA
    }     else if version == 35 {
        0x2379F
    }     else if version == 36 {
        0x24B0B
    }     else if version == 37 {
        0x2542E
    }     else if version == 38 {
        0x26A64
    }     else if version == 39 {
        0x27541
    } else {
        0x28C69
    }
}

/// The 18-bit version information of a version from 7 to 40.
pub fn version_info(version: u8) -> (bits: u32)
    requires
        7 <= version <= 40,
    ensures
        bits == spec_version_info(version as int),
        bits < 0x40000,
{
    match version {
        7 => 0x07C94,
        8 => 0x085BC,
        9 => 0x09A99,
        10 => 0x0A4D3,
        11 => 0x0BBF6,
        12 => 0x0C762,
        13 => 0x0D847,
        14 => 0x0E60D,
        15 => 0x0F928,
        16 => 0x10B78,
        17 => 0x1145D,
        18 => 0x12A17,
        19 => 0x13532,
        20 => 0x149A6,
        21 => 0x15683,
        22 => 0x168C9,
        23 => 0x177EC,
        24 => 0x18EC4,
        25 => 0x191E1,
        26 => 0x1AFAB,
        27 => 0x1B08E,
        28 => 0x1CC1A,
        29 => 0x1D33F,
        30 => 0x1ED75,
        31 => 0x1F250,
        32 => 0x209D5,
        33 => 0x216F0,
        34 => 0x228BA,
        35 => 0x2379F,
        36 => 0x24B0B,
        37 => 0x2542E,
        38 => 0x26A64,
        39 => 0x27541,
        _ => 0x28C69,
    }
}

/// The 15-bit format information for a 5-bit value: two bits of the level,
/// then three bits of the mask.
pub open spec fn spec_information_sequences(data: int) -> u16 {
    if data == 0 {
        0x5412
    }     else if data == 1 {
        0x5125
    }     else if data == 2 {
        0x5E7C
    }     else if data == 3 {
        0x5B4B
    }     else if data == 4 {
        0x45F9
    }     else if data == 5 {
        0x40CE
    }     else if data == 6 {
        0x4F97
    }     else if data == 7 {
        0x4AA0
    }     else if data == 8 {
        0x77C4
    }     else if data == 9 {
        0x72F3
    }     else if data == 10 {
        0x7DAA
    }     else if data == 11 {
        0x789D
    }     else if data == 12 {
        0x662F
    }     else if data == 13 {
        0x6318
    }     else if data == 14 {
        0x6C41
    }     else if data == 15 {
        0x6976
    }     else if data == 16 {
        0x1689
    }     else if data == 17 {
        0x13BE
    }     else if data == 18 {
        0x1CE7
    }     else if data == 19 {
        0x19D0
    }     else if data == 20 {
        0x0762
    }     else if data == 21 {
        0x0255
    }     else if data == 22 {
        0x0D0C
    }     else if data == 23 {
        0x083B
    }     else if data == 24 {
        0x355F
    }     else if data == 25 {
        0x3068
    }     else if data == 26 {
        0x3F31
    }     else if data == 27 {
        0x3A06
    }     else if data == 28 {
        0x24B4
    }     else if data == 29 {
        0x2183
    }     else if data == 30 {
        0x2EDA
    } else {
        0x2BED
    }
}

/// The 15-bit format information for a 5-bit value.
pub fn information_sequences(data: u8) -> (bits: u16)
    requires
        data < 32,
    ensures
        bits == spec_information_sequences(data as int),
        bits < 0x8000,
{
    match data {
        0 => 0x5412,
        1 => 0x5125,
        2 => 0x5E7C,
        3 => 0x5B4B,
        4 => 0x45F9,
        5 => 0x40CE,
        6 => 0x4F97,
        7 => 0x4AA0,
        8 => 0x77C4,
        9 => 0x72F3,
        10 => 0x7DAA,
        11 => 0x789D,
        12 => 0x662F,
        13 => 0x6318,
        14 => 0x6C41,
        15 => 0x6976,
        16 => 0x1689,
        17 => 0x13BE,
        18 => 0x1CE7,
        19 => 0x19D0,
        20 => 0x0762,
        21 => 0x0255,
        22 => 0x0D0C,
        23 => 0x083B,
        24 => 0x355F,
        25 => 0x3068,
        26 => 0x3F31,
        27 => 0x3A06,
        28 => 0x24B4,
        29 => 0x2183,
        30 => 0x2EDA,
        _ => 0x2BED,
    }
}

} // verus!
