//! A byte buffer of fixed size that is written bit by bit.

use vstd::prelude::*;
use crate::error::QrError;

verus! {

/// A buffer of `capacity` bytes, zero at first, with a cursor that counts the
/// bits written. Bit 0 of the buffer is the highest bit of byte 0.
#[derive(Clone, Debug)]
pub struct MyBitVector {
    /// number of bytes the buffer holds
    pub capacity: u16,
    /// the bit that is written next
    pub curr_position: u32,
    /// the bytes
    pub data: Vec<u8>,
}

/// The lowest `size` bits of `value`, moved to the place where they stand
/// in the two bytes that begin at the byte of the cursor, `offset` bits
/// behind its highest bit.
pub open spec fn bit_window(value: u8, size: u8, offset: u32) -> u16 {
    (((value as u16) << ((16 - size) as u16)) >> (offset as u16))
}

/// The bytes after `size` bits of `value` were written at bit `position`,
/// highest bit first: the bits are OR-ed into what the bytes held.
pub open spec fn packed(data: Seq<u8>, position: int, value: u8, size: u8) -> Seq<u8> {
    if size == 0 {
        data
    } else {
        let first = position / 8;
        let window = bit_window(value, size, (position % 8) as u32);
        Seq::new(
            data.len(),
            |i: int|
                if i == first {
                    data[i] | ((window >> 8) as u8)
                } else if i == first + 1 {
                    data[i] | ((window & 0xff) as u8)
                } else {
                    data[i]
                },
        )
    }
}

/// The pad byte at place `index` of a run of pad bytes: `0xEC` and `0x11`
/// in turn.
pub open spec fn pad_byte(index: int) -> u8 {
    if index % 2 == 0 {
        0xec
    } else {
        0x11
    }
}

/// The bytes after every byte that no bit was written to was replaced with
/// a pad byte.
pub open spec fn padded(data: Seq<u8>, position: int) -> Seq<u8> {
    let begin = (position + 7) / 8;
    Seq::new(
        data.len(),
        |i: int|
            if i < begin {
                data[i]
            } else {
                pad_byte(i - begin)
            },
    )
}

/// Bit `place` of the two bytes at the cursor, the highest bit of the first
/// byte being bit 0, as the window gives it: where the bits of the value are
/// written, these bits from the highest of them down; elsewhere zero.
pub proof fn lemma_window_bits(value: u8, size: u8, offset: u32, place: u32)
    by (bit_vector)
    requires
        1 <= size <= 8,
        offset < 8,
        place < 16,
    ensures
        (bit_window(value, size, offset) >> ((15 - place) as u16)) & 1 == if offset <= place < offset
            + size {
            ((value as u16) >> ((size - 1 - (place - offset)) as u16)) & 1
        } else {
            0u16
        },
{
}

impl MyBitVector {
    /// The buffer has the size it was made with, and the cursor is in it.
    pub open spec fn wf(&self) -> bool {
        &&& self.data@.len() == self.capacity
        &&& self.curr_position <= 8 * self.capacity
    }

    /// A buffer of `max_size` zero bytes with the cursor at its first bit.
    pub fn new_with_capacity(max_size: u16) -> (buffer: MyBitVector)
        ensures
            buffer.wf(),
            buffer.capacity == max_size,
            buffer.curr_position == 0,
            buffer.data@ == Seq::new(max_size as nat, |i: int| 0u8),
    {
        let mut zero_vec: Vec<u8> = Vec::with_capacity(max_size as usize);
        let mut index: u16 = 0;
        while index < max_size
            invariant
                index <= max_size,
                zero_vec@ == Seq::new(index as nat, |i: int| 0u8),
            decreases max_size - index,
        {
            zero_vec.push(0);
            assert(zero_vec@ =~= Seq::new((index + 1) as nat, |i: int| 0u8));
            index += 1;
        }
        MyBitVector { capacity: max_size, curr_position: 0, data: zero_vec }
    }

    /// Writes the lowest `size` bits of `value` at the cursor, highest bit
    /// first, and moves the cursor behind them. A write that would go beyond
    /// the end of the buffer is refused and changes nothing.
    pub fn push(&mut self, value: u8, size: u8) -> (written: Result<(), QrError>)
        requires
            old(self).wf(),
            size <= 8,
        ensures
            final(self).wf(),
            final(self).capacity == old(self).capacity,
            match written {
                Ok(_) => {
                    &&& old(self).curr_position + size <= 8 * old(self).capacity
                    &&& final(self).curr_position == old(self).curr_position + size
                    &&& final(self).data@ == packed(
                        old(self).data@,
                        old(self).curr_position as int,
                        value,
                        size,
                    )
                },
                Err(error) => {
                    &&& error == QrError::CapacityExceeded
                    &&& old(self).curr_position + size > 8 * old(self).capacity
                    &&& *final(self) == *old(self)
                },
            },
    {
        if (self.capacity as u32) * 8 < self.curr_position + size as u32 {
            return Err(QrError::CapacityExceeded);
        }
        if size == 0 {
            return Ok(());
        }
        let first: usize = (self.curr_position / 8) as usize;
        let offset: u32 = self.curr_position % 8;
        let window: u16 = ((value as u16) << ((16 - size) as u16)) >> (offset as u16);
        let high: u8 = #[verifier::truncate]
        ((window >> 8) as u8);
        let low: u8 = #[verifier::truncate]
        ((window & 0xff) as u8);
        let ghost before = self.data@;
        let merged_first = self.data[first] | high;
        self.data[first] = merged_first;
        if first + 1 < self.data.len() {
            let merged_second = self.data[first + 1] | low;
            self.data[first + 1] = merged_second;
        }
        self.curr_position = self.curr_position + size as u32;
        assert(self.data@ =~= packed(before, old(self).curr_position as int, value, size));
        Ok(())
    }

    /// Replaces every byte that no bit was written to with a pad byte,
    /// `0xEC` and `0x11` in turn. The cursor stays.
    pub fn pad_empty_rest(&mut self)
        requires
            old(self).wf(),
        ensures
            final(self).wf(),
            final(self).capacity == old(self).capacity,
            final(self).curr_position == old(self).curr_position,
            final(self).data@ == padded(old(self).data@, old(self).curr_position as int),
    {
        let begin: usize = ((self.curr_position + 7) / 8) as usize;
        let length = self.data.len();
        let mut byte_index: usize = begin;
        let mut is_value_1 = true;
        while byte_index < length
            invariant
                begin <= byte_index,
                begin == (old(self).curr_position + 7) / 8,
                length == old(self).data@.len(),
                self.data@.len() == length,
                self.capacity == old(self).capacity,
                self.curr_position == old(self).curr_position,
                is_value_1 == ((byte_index - begin) % 2 == 0),
                forall|i: int|
                    0 <= i < length ==> #[trigger] self.data@[i] == if begin <= i < byte_index {
                        pad_byte(i - begin)
                    } else {
                        old(self).data@[i]
                    },
            decreases length - byte_index,
        {
            if is_value_1 {
                self.data[byte_index] = 0xec;
            } else {
                self.data[byte_index] = 0x11;
            }
            is_value_1 = !is_value_1;
            byte_index += 1;
        }
        assert(self.data@ =~= padded(old(self).data@, old(self).curr_position as int));
    }

    /// A copy of the bytes.
    pub fn get_data(&self) -> (bytes: Vec<u8>)
        ensures
            bytes@ == self.data@,
    {
        let mut bytes: Vec<u8> = Vec::new();
        let mut i: usize = 0;
        while i < self.data.len()
            invariant
                i <= self.data.len(),
                bytes@ == self.data@.take(i as int),
            decreases self.data.len() - i,
        {
            bytes.push(self.data[i]);
            assert(bytes@ =~= self.data@.take(i + 1));
            i += 1;
        }
        assert(self.data@.take(i as int) =~= self.data@);
        bytes
    }
}

} // verus!
