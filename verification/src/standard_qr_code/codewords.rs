//! From the text to the sequence of codewords that is placed in the matrix:
//! the message stream, its split into blocks, the error correction of each
//! block, and the interleaving of the blocks.

use vstd::prelude::*;
use crate::error::QrError;
use crate::galois_field::GaloisFields;
use crate::galois_field::error_correction_bytes;
use crate::galois_field::generator_coefficients;
use crate::polynomials::Polynomial;
use crate::polynomials::lemma_terms_of_bytes_descending;
use crate::standard_qr_code::bit_vector::MyBitVector;
use crate::standard_qr_code::bit_vector::bit_window;
use crate::standard_qr_code::bit_vector::pad_byte;
use crate::standard_qr_code::field::qr_mask;
use crate::standard_qr_code::field::symbol_field;
use crate::standard_qr_code::qr_struct::ErrorBlockInfo;
use crate::standard_qr_code::qr_struct::QRData;

verus! {

/// The data bytes and the error-correction bytes of each block, the blocks
/// of the first group before those of the second.
pub open spec fn block_sizes(groups: Seq<ErrorBlockInfo>) -> Seq<(u8, u8)>
    decreases groups.len(),
{
    if groups.len() == 0 {
        Seq::empty()
    } else {
        block_sizes(groups.drop_last()) + Seq::new(
            groups.last().num_block as nat,
            |i: int| (groups.last().num_data_bytes, groups.last().num_error_bytes),
        )
    }
}

/// Number of data bytes in the blocks before block `block`.
pub open spec fn data_offset(sizes: Seq<(u8, u8)>, block: int) -> int
    decreases block,
{
    if block <= 0 {
        0
    } else {
        data_offset(sizes, block - 1) + sizes[block - 1].0
    }
}

/// The bytes of the character count: one byte, from version 10 on two.
pub open spec fn count_bytes(length: int, version: int) -> Seq<u8> {
    if version >= 10 {
        seq![((length / 256) % 256) as u8, (length % 256) as u8]
    } else {
        seq![(length % 256) as u8]
    }
}

/// What follows the mode indicator: the character count and the text.
pub open spec fn raw_message(text: Seq<u8>, version: int) -> Seq<u8> {
    count_bytes(text.len() as int, version) + text
}

/// The upper half of byte `k` of the stream: the mode indicator of byte
/// mode for the first byte, else the lower half of the byte before.
pub open spec fn upper_half(raw: Seq<u8>, k: int) -> int {
    if k == 0 {
        64
    } else {
        16 * (raw[k - 1] % 16)
    }
}

/// The message stream: the four bits of the mode indicator, the bytes of
/// `raw`, and four zero bits that end the message.
pub open spec fn message_stream(raw: Seq<u8>) -> Seq<u8> {
    Seq::new(
        raw.len() + 1,
        |k: int|
            (upper_half(raw, k) + if k < raw.len() {
                raw[k] / 16
            } else {
                0
            }) as u8,
    )
}

/// Number of bytes of a stream of `length` bytes that fall into a block of
/// `capacity` bytes that begins `offset` bytes into the stream.
pub open spec fn used_bytes(length: int, offset: int, capacity: int) -> int {
    if length - offset <= 0 {
        0
    } else if length - offset >= capacity {
        capacity
    } else {
        length - offset
    }
}

/// The data bytes of a block of `capacity` bytes that begins `offset` bytes
/// into the stream: the bytes of the stream as far as they reach, then pad
/// bytes.
pub open spec fn block_data(stream: Seq<u8>, offset: int, capacity: int) -> Seq<u8> {
    let used = used_bytes(stream.len() as int, offset, capacity);
    Seq::new(
        capacity as nat,
        |i: int|
            if i < used {
                stream[offset + i]
            } else {
                pad_byte(i - used)
            },
    )
}

/// `count` zero bytes.
pub open spec fn zero_bytes(count: int) -> Seq<u8> {
    Seq::new(count as nat, |i: int| 0u8)
}

/// The error-correction bytes of a block: what the division of the data,
/// followed by one zero for each error-correction byte, by the generator
/// polynomial leaves.
pub open spec fn block_error_correction(data: Seq<u8>, count: u8, m: int, mask: u8) -> Seq<u8> {
    error_correction_bytes(data + zero_bytes(count as int), generator_coefficients(count as int, m, mask), m, mask)
}

/// The views of a list of byte lists.
pub open spec fn views(parts: Seq<Vec<u8>>) -> Seq<Seq<u8>> {
    Seq::new(parts.len(), |i: int| parts[i]@)
}

/// The bytes at place `column` of the first `count` parts, in the order of
/// the parts; a part that is too short gives none.
pub open spec fn column_of(parts: Seq<Seq<u8>>, column: int, count: int) -> Seq<u8>
    decreases count,
{
    if count <= 0 {
        Seq::empty()
    } else if column < parts[count - 1].len() {
        column_of(parts, column, count - 1).push(parts[count - 1][column])
    } else {
        column_of(parts, column, count - 1)
    }
}

/// The first `columns` columns of the parts, one after the other.
pub open spec fn column_wise(parts: Seq<Seq<u8>>, columns: int) -> Seq<u8>
    decreases columns,
{
    if columns <= 0 {
        Seq::empty()
    } else {
        column_wise(parts, columns - 1) + column_of(parts, columns - 1, parts.len() as int)
    }
}

/// Length of the longest of the first `count` parts.
pub open spec fn longest(parts: Seq<Seq<u8>>, count: int) -> int
    decreases count,
{
    if count <= 0 {
        0
    } else if parts[count - 1].len() > longest(parts, count - 1) {
        parts[count - 1].len() as int
    } else {
        longest(parts, count - 1)
    }
}

/// Number of bytes in the first `count` parts together.
pub open spec fn total_len(parts: Seq<Seq<u8>>, count: int) -> int
    decreases count,
{
    if count <= 0 {
        0
    } else {
        total_len(parts, count - 1) + parts[count - 1].len()
    }
}

/// Number of bytes that the first `count` parts have in their first
/// `columns` places.
pub open spec fn total_len_within(parts: Seq<Seq<u8>>, count: int, columns: int) -> int
    decreases count,
{
    if count <= 0 {
        0
    } else {
        total_len_within(parts, count - 1, columns) + if parts[count - 1].len() <= columns {
            parts[count - 1].len() as int
        } else {
            columns
        }
    }
}

/// The final sequence of codewords: the data bytes of all blocks column by
/// column, then their error-correction bytes column by column.
pub open spec fn interleaved(data: Seq<Seq<u8>>, correction: Seq<Seq<u8>>) -> Seq<u8> {
    column_wise(data, longest(data, data.len() as int)) + column_wise(
        correction,
        longest(correction, correction.len() as int),
    )
}

/// The data bytes of every block for a text.
pub open spec fn data_parts(text: Seq<u8>, version: int, sizes: Seq<(u8, u8)>) -> Seq<Seq<u8>> {
    Seq::new(
        sizes.len(),
        |b: int| block_data(message_stream(raw_message(text, version)), data_offset(sizes, b), sizes[b].0 as int),
    )
}

/// The error-correction bytes of every block for a text.
pub open spec fn correction_parts(text: Seq<u8>, version: int, sizes: Seq<(u8, u8)>) -> Seq<Seq<u8>> {
    Seq::new(
        sizes.len(),
        |b: int| block_error_correction(data_parts(text, version, sizes)[b], sizes[b].1, 8, qr_mask()),
    )
}

/// The codewords of the symbol for a text, in the order in which they are
/// placed.
pub open spec fn symbol_codewords(text: Seq<u8>, version: int, groups: Seq<ErrorBlockInfo>) -> Seq<u8> {
    let sizes = block_sizes(groups);
    interleaved(data_parts(text, version, sizes), correction_parts(text, version, sizes))
}

/// Eight bits written half a byte into the buffer: the upper half fills
/// the byte of the cursor, the lower half begins the next byte.
proof fn lemma_window_half_byte(previous: u8, value: u8)
    by (bit_vector)
    requires
        previous & 15 == 0,
    ensures
        previous | ((bit_window(value, 8, 4) >> 8) as u8) == previous + value / 16,
        0u8 | ((bit_window(value, 8, 4) & 0xff) as u8) == (value % 16) * 16,
        ((value % 16) * 16) as u8 & 15 == 0,
{
}

/// Eight bits written at the beginning of a zero byte give that byte.
proof fn lemma_window_whole_byte(value: u8, next: u8)
    by (bit_vector)
    ensures
        0u8 | ((bit_window(value, 8, 0) >> 8) as u8) == value,
        next | ((bit_window(value, 8, 0) & 0xff) as u8) == next,
{
}

/// The mode indicator of byte mode at the beginning of the buffer.
proof fn lemma_window_mode(next: u8)
    by (bit_vector)
    ensures
        0u8 | ((bit_window(4, 4, 0) >> 8) as u8) == 64,
        next | ((bit_window(4, 4, 0) & 0xff) as u8) == next,
        64u8 & 15 == 0,
{
}

/// A column holds one byte for each part that reaches it.
proof fn lemma_column_len(parts: Seq<Seq<u8>>, column: int, count: int)
    requires
        0 <= column,
        0 <= count <= parts.len(),
    ensures
        column_of(parts, column, count).len() == total_len_within(parts, count, column + 1)
            - total_len_within(parts, count, column),
    decreases count,
{
    if count > 0 {
        lemma_column_len(parts, column, count - 1);
    }
}

/// The first columns hold the bytes that the parts have in them.
proof fn lemma_columns_len(parts: Seq<Seq<u8>>, columns: int)
    requires
        0 <= columns,
    ensures
        column_wise(parts, columns).len() == total_len_within(parts, parts.len() as int, columns),
    decreases columns,
{
    if columns > 0 {
        lemma_columns_len(parts, columns - 1);
        lemma_column_len(parts, columns - 1, parts.len() as int);
    } else {
        lemma_nothing_within(parts, parts.len() as int);
    }
}

/// No part has a byte before its first place.
proof fn lemma_nothing_within(parts: Seq<Seq<u8>>, count: int)
    ensures
        total_len_within(parts, count, 0) == 0,
    decreases count,
{
    if count > 0 {
        lemma_nothing_within(parts, count - 1);
    }
}

/// As many columns as the longest part has bytes hold all the bytes.
proof fn lemma_all_within(parts: Seq<Seq<u8>>, count: int, columns: int)
    requires
        0 <= count <= parts.len(),
        longest(parts, count) <= columns,
    ensures
        total_len_within(parts, count, columns) == total_len(parts, count),
    decreases count,
{
    if count > 0 {
        lemma_all_within(parts, count - 1, columns);
    }
}

/// The interleaving holds each byte of each block once: as many codewords
/// come out as the blocks hold.
pub proof fn lemma_interleaved_len(data: Seq<Seq<u8>>, correction: Seq<Seq<u8>>)
    ensures
        interleaved(data, correction).len() == total_len(data, data.len() as int) + total_len(
            correction,
            correction.len() as int,
        ),
{
    lemma_longest_not_negative(data, data.len() as int);
    lemma_longest_not_negative(correction, correction.len() as int);
    lemma_columns_len(data, longest(data, data.len() as int));
    lemma_columns_len(correction, longest(correction, correction.len() as int));
    lemma_all_within(data, data.len() as int, longest(data, data.len() as int));
    lemma_all_within(correction, correction.len() as int, longest(correction, correction.len() as int));
}

/// The longest part has no negative length.
proof fn lemma_longest_not_negative(parts: Seq<Seq<u8>>, count: int)
    ensures
        0 <= longest(parts, count),
    decreases count,
{
    if count > 0 {
        lemma_longest_not_negative(parts, count - 1);
    }
}

/// The offsets of the blocks do not fall.
pub proof fn lemma_offset_monotone(sizes: Seq<(u8, u8)>, earlier: int, later: int)
    requires
        0 <= earlier <= later,
    ensures
        0 <= data_offset(sizes, earlier) <= data_offset(sizes, later),
        data_offset(sizes, later) <= 255 * later,
    decreases later,
{
    if earlier < later {
        lemma_offset_monotone(sizes, earlier, later - 1);
    } else if later > 0 {
        lemma_offset_monotone(sizes, earlier - 1, later - 1);
    }
}

/// A group has at most 255 blocks.
proof fn lemma_block_sizes_len(groups: Seq<ErrorBlockInfo>)
    ensures
        block_sizes(groups).len() <= 255 * groups.len(),
    decreases groups.len(),
{
    if groups.len() > 0 {
        lemma_block_sizes_len(groups.drop_last());
    }
}

/// The message stream of `raw` in a buffer of `capacity` bytes; refused if
/// the stream is longer than the buffer.
pub fn message_buffer(raw: &Vec<u8>, capacity: u16) -> (buffer: Result<MyBitVector, QrError>)
    ensures
        match buffer {
            Ok(filled) => {
                &&& raw@.len() + 1 <= capacity
                &&& filled.wf()
                &&& filled.capacity == capacity
                &&& filled.curr_position == 8 * raw@.len() + 4
                &&& forall|j: int|
                    0 <= j < capacity ==> #[trigger] filled.data@[j] == if j <= raw@.len() {
                        message_stream(raw@)[j]
                    } else {
                        0
                    }
            },
            Err(error) => error == QrError::CapacityExceeded && raw@.len() + 1 > capacity,
        },
{
    let mut buffer = MyBitVector::new_with_capacity(capacity);
    match buffer.push(4, 4) {
        Ok(_) => {},
        Err(error) => {
            return Err(error);
        },
    }
    proof {
        assert forall|j: int| 0 <= j < capacity implies #[trigger] buffer.data@[j] == if j == 0 {
            64u8
        } else {
            0u8
        } by {
            lemma_window_mode(0);
        }
        lemma_window_mode(0);
    }
    let mut k: usize = 0;
    while k < raw.len()
        invariant
            k <= raw@.len(),
            buffer.wf(),
            buffer.capacity == capacity,
            buffer.curr_position == 8 * k + 4,
            buffer.data@[k as int] & 15 == 0,
            forall|j: int|
                0 <= j < capacity ==> #[trigger] buffer.data@[j] == if j < k {
                    message_stream(raw@)[j]
                } else if j == k {
                    upper_half(raw@, k as int) as u8
                } else {
                    0
                },
        decreases raw@.len() - k,
    {
        let value = raw[k];
        let ghost before = buffer.data@;
        match buffer.push(value, 8) {
            Ok(_) => {},
            Err(error) => {
                return Err(error);
            },
        }
        proof {
            lemma_window_half_byte(before[k as int], value);
            assert((8 * k + 4) / 8 == k);
            assert((8 * k + 4) % 8 == 4);
            assert(buffer.data@[k as int] == message_stream(raw@)[k as int]);
            assert(buffer.data@[k + 1] == upper_half(raw@, k + 1) as u8);
        }
        k += 1;
    }
    Ok(buffer)
}

/// A block of `capacity` bytes that holds the bytes of `stream` from
/// `offset` on, as far as they reach, and pad bytes behind them.
pub fn block_buffer(stream: &Vec<u8>, used: usize, offset: usize, capacity: u8) -> (block: MyBitVector)
    requires
        used <= stream@.len(),
        offset + capacity <= stream@.len(),
    ensures
        block.wf(),
        block.capacity == capacity,
        block.curr_position == 8 * used_bytes(used as int, offset as int, capacity as int),
        block.data@ == block_data(stream@.take(used as int), offset as int, capacity as int),
{
    let length = stream.len();
    let mut block = MyBitVector::new_with_capacity(capacity as u16);
    let count: usize = if used <= offset {
        0
    } else if used - offset >= capacity as usize {
        capacity as usize
    } else {
        used - offset
    };
    let mut i: usize = 0;
    while i < count
        invariant
            i <= count <= capacity,
            length == stream@.len(),
            offset + capacity <= length,
            block.wf(),
            block.capacity == capacity,
            block.curr_position == 8 * i,
            forall|j: int|
                0 <= j < capacity ==> #[trigger] block.data@[j] == if j < i {
                    stream@[offset + j]
                } else {
                    0
                },
        decreases count - i,
    {
        let value = stream[offset + i];
        let ghost before = block.data@;
        let written = block.push(value, 8);
        proof {
            assert(written is Ok);
            lemma_window_whole_byte(value, 0);
            assert((8 * i) / 8 == i);
            assert((8 * i) % 8 == 0);
        }
        i += 1;
    }
    block.pad_empty_rest();
    assert((8 * count + 7) / 8 == count);
    assert(block.data@ =~= block_data(stream@.take(used as int), offset as int, capacity as int));
    block
}

/// The error-correction bytes for the data bytes of one block.
pub fn error_correction_for(field: &GaloisFields, data: &Vec<u8>, count: u8) -> (correction: Vec<u8>)
    requires
        field.wf(),
        data@.len() + count <= 0x8000,
    ensures
        correction@ == block_error_correction(data@, count, field.spec_m() as int, field.spec_mask()),
        correction@.len() == count,
{
    let ghost m = field.spec_m() as int;
    let ghost mask = field.spec_mask();
    let mut extended: Vec<u8> = Vec::new();
    let mut i: usize = 0;
    while i < data.len()
        invariant
            i <= data@.len(),
            extended@ == data@.take(i as int),
        decreases data@.len() - i,
    {
        extended.push(data[i]);
        assert(extended@ =~= data@.take(i + 1));
        i += 1;
    }
    assert(data@.take(i as int) =~= data@);
    let mut z: u8 = 0;
    while z < count
        invariant
            z <= count,
            extended@ == data@ + zero_bytes(z as int),
        decreases count - z,
    {
        extended.push(0);
        assert(extended@ =~= data@ + zero_bytes(z + 1));
        z += 1;
    }
    proof {
        crate::galois_field::lemma_generator_shape(count as int, m, mask);
    }
    if data.len() == 0 {
        proof {
            assert(extended@ =~= zero_bytes(count as int));
            assert(block_error_correction(data@, count, m, mask) =~= extended@);
        }
        return extended;
    }
    let generator = match field.correction_polynomial(count) {
        Some(generator) => generator,
        None => vstd::pervasive::unreached(),
    };
    proof {
        lemma_terms_of_bytes_descending(extended@);
        lemma_terms_of_bytes_descending(generator_coefficients(count as int, m, mask));
    }
    let message = Polynomial::from(extended);
    let remainder = GaloisFields::calculate_error_correction(&message, generator, field);
    proof {
        let bytes = error_correction_bytes(
            data@ + zero_bytes(count as int),
            generator_coefficients(count as int, m, mask),
            m,
            mask,
        );
        assert(bytes.len() == count);
        lemma_terms_of_bytes_descending(bytes);
    }
    let correction = Vec::<u8>::from(remainder);
    correction
}

/// The bytes at place `column` of the parts, appended to `out`.
fn push_column(out: &mut Vec<u8>, parts: &Vec<Vec<u8>>, column: usize)
    ensures
        final(out)@ == old(out)@ + column_of(views(parts@), column as int, parts@.len() as int),
{
    let mut b: usize = 0;
    while b < parts.len()
        invariant
            b <= parts@.len(),
            out@ == old(out)@ + column_of(views(parts@), column as int, b as int),
        decreases parts@.len() - b,
    {
        if column < parts[b].len() {
            out.push(parts[b][column]);
        }
        assert(out@ =~= old(out)@ + column_of(views(parts@), column as int, b + 1));
        b += 1;
    }
}

/// Length of the longest part.
fn longest_part(parts: &Vec<Vec<u8>>) -> (length: usize)
    ensures
        length == longest(views(parts@), parts@.len() as int),
{
    let mut length: usize = 0;
    let mut b: usize = 0;
    while b < parts.len()
        invariant
            b <= parts@.len(),
            length == longest(views(parts@), b as int),
        decreases parts@.len() - b,
    {
        if parts[b].len() > length {
            length = parts[b].len();
        }
        b += 1;
    }
    length
}

/// The parts column by column, appended to `out`.
fn push_columns(out: &mut Vec<u8>, parts: &Vec<Vec<u8>>)
    ensures
        final(out)@ == old(out)@ + column_wise(
            views(parts@),
            longest(views(parts@), parts@.len() as int),
        ),
{
    let columns = longest_part(parts);
    let mut column: usize = 0;
    while column < columns
        invariant
            column <= columns,
            out@ == old(out)@ + column_wise(views(parts@), column as int),
        decreases columns - column,
    {
        push_column(out, parts, column);
        assert(out@ =~= old(out)@ + column_wise(views(parts@), column + 1));
        column += 1;
    }
}

impl QRData {
    /// The sizes of all the blocks of the symbol, for one or two groups of
    /// blocks; any other number of groups is refused.
    pub fn generate_error_blocks(&self) -> (sizes: Result<Vec<(u8, u8)>, QrError>)
        ensures
            match sizes {
                Ok(sizes) => 1 <= self.error_blocks@.len() <= 2 && sizes@ == block_sizes(
                    self.error_blocks@,
                ) && sizes@.len() <= 510,
                Err(error) => error == QrError::MalformedBlockLayout && !(1 <= self.error_blocks@.len()
                    <= 2),
            },
    {
        if self.error_blocks.len() != 1 && self.error_blocks.len() != 2 {
            return Err(QrError::MalformedBlockLayout);
        }
        let mut sizes: Vec<(u8, u8)> = Vec::new();
        let mut g: usize = 0;
        while g < self.error_blocks.len()
            invariant
                g <= self.error_blocks@.len(),
                sizes@ == block_sizes(self.error_blocks@.take(g as int)),
            decreases self.error_blocks@.len() - g,
        {
            let group = self.error_blocks[g];
            let ghost done = sizes@;
            let mut n: u8 = 0;
            while n < group.num_block
                invariant
                    n <= group.num_block,
                    sizes@ == done + Seq::new(
                        n as nat,
                        |i: int| (group.num_data_bytes, group.num_error_bytes),
                    ),
                decreases group.num_block - n,
            {
                sizes.push((group.num_data_bytes, group.num_error_bytes));
                assert(sizes@ =~= done + Seq::new(
                    (n + 1) as nat,
                    |i: int| (group.num_data_bytes, group.num_error_bytes),
                ));
                n += 1;
            }
            proof {
                assert(self.error_blocks@.take(g + 1).drop_last() =~= self.error_blocks@.take(g as int));
                assert(self.error_blocks@.take(g + 1).last() == group);
            }
            g += 1;
        }
        proof {
            assert(self.error_blocks@.take(g as int) =~= self.error_blocks@);
            lemma_block_sizes_len(self.error_blocks@);
        }
        Ok(sizes)
    }

    /// The bytes that follow the mode indicator: the character count and
    /// the text.
    pub fn raw_bytes(&self) -> (raw: Vec<u8>)
        ensures
            raw@ == raw_message(self.settings.text(), self.version as int),
    {
        let text = self.settings.information.as_str().as_bytes();
        let length = text.len();
        let mut raw: Vec<u8> = Vec::new();
        if self.version >= 10 {
            raw.push(((length / 256) % 256) as u8);
        }
        raw.push((length % 256) as u8);
        assert(raw@ =~= count_bytes(length as int, self.version as int));
        let mut i: usize = 0;
        while i < length
            invariant
                i <= length,
                length == text@.len(),
                text@ == self.settings.text(),
                raw@ == count_bytes(length as int, self.version as int) + text@.take(i as int),
            decreases length - i,
        {
            raw.push(text[i]);
            assert(raw@ =~= count_bytes(length as int, self.version as int) + text@.take(i + 1));
            i += 1;
        }
        assert(text@.take(i as int) =~= text@);
        raw
    }

    /// The data bytes of every block: the message stream cut into the blocks
    /// and each block filled up with pad bytes. A byte of the text whose
    /// halves fall into two blocks ends the one block with its upper half
    /// and begins the next with its lower half. Refused where the blocks
    /// hold more than a bit buffer can, and where the stream does not fit
    /// the blocks.
    pub fn write_data_into_vectors(&self, sizes: &Vec<(u8, u8)>) -> (vectors: Result<
        Vec<MyBitVector>,
        QrError,
    >)
        requires
            255 * sizes@.len() <= usize::MAX,
        ensures
            match vectors {
                Ok(vectors) => {
                    &&& data_offset(sizes@, sizes@.len() as int) <= 0xffff
                    &&& self.settings.text().len() + 1 + count_bytes(0, self.version as int).len()
                        <= data_offset(sizes@, sizes@.len() as int)
                    &&& vectors@.len() == sizes@.len()
                    &&& forall|b: int|
                        0 <= b < sizes@.len() ==> (#[trigger] vectors@[b]).wf() && vectors@[b].capacity
                            == sizes@[b].0 && vectors@[b].curr_position == 8 * used_bytes(
                            (raw_message(self.settings.text(), self.version as int).len() + 1) as int,
                            data_offset(sizes@, b),
                            sizes@[b].0 as int,
                        ) && vectors@[b].data@ == data_parts(
                            self.settings.text(),
                            self.version as int,
                            sizes@,
                        )[b]
                },
                Err(error) => if data_offset(sizes@, sizes@.len() as int) > 0xffff {
                    error == QrError::MalformedBlockLayout
                } else {
                    error == QrError::CapacityExceeded && self.settings.text().len() + 1 + count_bytes(
                        0,
                        self.version as int,
                    ).len() > data_offset(sizes@, sizes@.len() as int)
                },
            },
    {
        let mut total: usize = 0;
        let mut b: usize = 0;
        while b < sizes.len()
            invariant
                b <= sizes@.len(),
                255 * sizes@.len() <= usize::MAX,
                total == data_offset(sizes@, b as int),
                total <= 255 * b,
            decreases sizes@.len() - b,
        {
            total = total + sizes[b].0 as usize;
            b += 1;
        }
        if total > 0xffff {
            return Err(QrError::MalformedBlockLayout);
        }
        let raw = self.raw_bytes();
        let buffer = match message_buffer(&raw, total as u16) {
            Ok(buffer) => buffer,
            Err(error) => {
                return Err(error);
            },
        };
        let used: usize = raw.len() + 1;
        let ghost stream = message_stream(raw@);
        assert(buffer.data@.take(used as int) =~= stream);
        let mut vectors: Vec<MyBitVector> = Vec::new();
        let mut offset: usize = 0;
        let mut b: usize = 0;
        while b < sizes.len()
            invariant
                b <= sizes@.len(),
                offset == data_offset(sizes@, b as int),
                total == data_offset(sizes@, sizes@.len() as int),
                buffer.data@.len() == total,
                used <= total,
                buffer.data@.take(used as int) == stream,
                stream == message_stream(raw_message(self.settings.text(), self.version as int)),
                vectors@.len() == b,
                forall|c: int|
                    0 <= c < b ==> (#[trigger] vectors@[c]).wf() && vectors@[c].capacity == sizes@[c].0
                        && vectors@[c].curr_position == 8 * used_bytes(
                        stream.len() as int,
                        data_offset(sizes@, c),
                        sizes@[c].0 as int,
                    ) && vectors@[c].data@ == block_data(
                        stream,
                        data_offset(sizes@, c),
                        sizes@[c].0 as int,
                    ),
            decreases sizes@.len() - b,
        {
            proof {
                lemma_offset_monotone(sizes@, b + 1, sizes@.len() as int);
            }
            let capacity = sizes[b].0;
            let block = block_buffer(&buffer.data, used, offset, capacity);
            vectors.push(block);
            offset = offset + capacity as usize;
            b += 1;
        }
        Ok(vectors)
    }

    /// The error-correction bytes of every block, over the field of the
    /// symbol standard.
    pub fn generate_error_corrction(sizes: &Vec<(u8, u8)>, data_blocks: &Vec<Vec<u8>>) -> (blocks: Vec<
        Vec<u8>,
    >)
        requires
            data_blocks@.len() == sizes@.len(),
            forall|b: int|
                0 <= b < sizes@.len() ==> (#[trigger] data_blocks@[b])@.len() + sizes@[b].1 <= 0x8000,
        ensures
            blocks@.len() == sizes@.len(),
            forall|b: int|
                0 <= b < sizes@.len() ==> (#[trigger] blocks@[b])@ == block_error_correction(
                    data_blocks@[b]@,
                    sizes@[b].1,
                    8,
                    qr_mask(),
                ),
    {
        let field = symbol_field();
        let mut blocks: Vec<Vec<u8>> = Vec::new();
        let mut b: usize = 0;
        while b < sizes.len()
            invariant
                b <= sizes@.len(),
                data_blocks@.len() == sizes@.len(),
                forall|c: int|
                    0 <= c < sizes@.len() ==> (#[trigger] data_blocks@[c])@.len() + sizes@[c].1 <= 0x8000,
                field.wf(),
                field.spec_m() == 8,
                field.spec_mask() == qr_mask(),
                blocks@.len() == b,
                forall|c: int|
                    0 <= c < b ==> (#[trigger] blocks@[c])@ == block_error_correction(
                        data_blocks@[c]@,
                        sizes@[c].1,
                        8,
                        qr_mask(),
                    ),
            decreases sizes@.len() - b,
        {
            assert(data_blocks@[b as int]@.len() + sizes@[b as int].1 <= 0x8000);
            let correction = error_correction_for(&field, &data_blocks[b], sizes[b].1);
            blocks.push(correction);
            b += 1;
        }
        blocks
    }

    /// The final sequence of codewords: the data bytes of all blocks column
    /// by column, a block that is shorter than another giving no byte where
    /// it has none, then the error-correction bytes in the same way.
    pub fn shuffle_bit_vectors(data_blocks: &Vec<Vec<u8>>, correction_blocks: &Vec<Vec<u8>>) -> (codewords:
        Vec<u8>)
        ensures
            codewords@ == interleaved(views(data_blocks@), views(correction_blocks@)),
            codewords@.len() == total_len(views(data_blocks@), data_blocks@.len() as int) + total_len(
                views(correction_blocks@),
                correction_blocks@.len() as int,
            ),
    {
        let mut codewords: Vec<u8> = Vec::new();
        push_columns(&mut codewords, data_blocks);
        push_columns(&mut codewords, correction_blocks);
        assert(codewords@ =~= interleaved(views(data_blocks@), views(correction_blocks@)));
        proof {
            lemma_interleaved_len(views(data_blocks@), views(correction_blocks@));
        }
        codewords
    }
}

} // verus!
