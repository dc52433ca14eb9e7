//! Choice of the version for a text.

use vstd::prelude::*;
use crate::error::QrError;
use crate::input::ErrorLevel;
use crate::standard_qr_code::qr_struct::ErrorBlockInfo;
use crate::standard_qr_code::version_constants::error_blocks_of;
use crate::standard_qr_code::version_constants::spec_error_blocks;

verus! {

/// Number of data bytes in all the blocks of the groups together.
pub open spec fn total_data_bytes(blocks: Seq<ErrorBlockInfo>) -> int
    decreases blocks.len(),
{
    if blocks.len() == 0 {
        0
    } else {
        total_data_bytes(blocks.drop_last()) + blocks.last().num_block * blocks.last().num_data_bytes
    }
}

/// Number of bytes that do not carry text: the mode indicator, the character
/// count (one byte, from version 10 on two) and the terminator.
pub open spec fn overhead_bytes(version: int) -> int {
    if version >= 10 {
        3
    } else {
        2
    }
}

/// A text of `text_length` bytes fits the version at the level.
pub open spec fn fits(text_length: int, version: int, level: ErrorLevel) -> bool {
    text_length + overhead_bytes(version) <= total_data_bytes(spec_error_blocks(version, level))
}

/// `version` is the smallest version that the text fits at the level.
pub open spec fn is_chosen_version(text_length: int, level: ErrorLevel, version: int) -> bool {
    &&& 1 <= version <= 40
    &&& fits(text_length, version, level)
    &&& forall|smaller: int| 1 <= smaller < version ==> !#[trigger] fits(text_length, smaller, level)
}

/// No version holds the text at the level.
pub open spec fn fits_no_version(text_length: int, level: ErrorLevel) -> bool {
    forall|version: int| 1 <= version <= 40 ==> !#[trigger] fits(text_length, version, level)
}

/// For a fixed level the version chosen does not fall when the text grows.
pub proof fn lemma_version_monotone(shorter: int, longer: int, level: ErrorLevel, first: int, second: int)
    requires
        shorter <= longer,
        is_chosen_version(shorter, level, first),
        is_chosen_version(longer, level, second),
    ensures
        first <= second,
{
    if second < first {
        assert(fits(shorter, second, level));
    }
}

/// Number of data bytes in all the blocks of the groups together.
pub fn data_bytes_of(blocks: &Vec<ErrorBlockInfo>) -> (total: usize)
    requires
        65025 * blocks@.len() <= usize::MAX,
    ensures
        total == total_data_bytes(blocks@),
        total <= 65025 * blocks@.len(),
{
    let mut total: usize = 0;
    let mut i: usize = 0;
    while i < blocks.len()
        invariant
            i <= blocks.len(),
            65025 * blocks@.len() <= usize::MAX,
            total == total_data_bytes(blocks@.take(i as int)),
            total <= 65025 * i,
        decreases blocks.len() - i,
    {
        let block = blocks[i];
        assert(block.num_block * block.num_data_bytes <= 65025) by (nonlinear_arith)
            requires
                block.num_block <= 255,
                block.num_data_bytes <= 255,
        ;
        assert(blocks@.take(i + 1).drop_last() =~= blocks@.take(i as int));
        total = total + (block.num_block as usize) * (block.num_data_bytes as usize);
        i += 1;
    }
    assert(blocks@.take(i as int) =~= blocks@);
    total
}

/// In the table every version has one or two groups of blocks at each level.
pub proof fn lemma_one_or_two_groups(version: int, level: ErrorLevel)
    ensures
        1 <= spec_error_blocks(version, level).len() <= 2,
{
}

/// The smallest version that holds a text of `text_length` bytes at the
/// level, with its groups of blocks; a text that no version holds is refused.
pub fn get_verison_info(text_length: usize, error_level: ErrorLevel) -> (chosen: Result<
    (u8, Vec<ErrorBlockInfo>),
    QrError,
>)
    ensures
        match chosen {
            Ok((version, blocks)) => is_chosen_version(text_length as int, error_level, version as int)
                && blocks@ == spec_error_blocks(version as int, error_level),
            Err(error) => error == QrError::TextTooLong && fits_no_version(
                text_length as int,
                error_level,
            ),
        },
{
    let mut version: u8 = 1;
    while version <= 40
        invariant
            1 <= version <= 41,
            forall|smaller: int|
                1 <= smaller < version ==> !#[trigger] fits(text_length as int, smaller, error_level),
        decreases 41 - version,
    {
        let blocks = error_blocks_of(version, error_level);
        proof {
            lemma_one_or_two_groups(version as int, error_level);
        }
        let capacity = data_bytes_of(&blocks);
        let overhead: usize = if version >= 10 {
            3
        } else {
            2
        };
        if overhead <= capacity && text_length <= capacity - overhead {
            return Ok((version, blocks));
        }
        version += 1;
    }
    Err(QrError::TextTooLong)
}

} // verus!
