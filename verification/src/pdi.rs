use std::ops::Range;
use vstd::prelude::*;

verus! {

/// A position in the logical process data address space.
#[derive(Clone, Copy, Debug, PartialEq, Eq, Structural)]
pub struct PdiOffset {
    /// Logical byte address.
    pub start_address: u32,
    /// Bit within that byte, 0 to 7.
    pub start_bit: u8,
}

/// Number of whole bytes needed to hold `bits` bits.
pub open spec fn bytes_for_bits(bits: int) -> int {
    (bits + 7) / 8
}

impl PdiOffset {
    /// A position is valid when its bit lies within a byte.
    pub open spec fn wf(self) -> bool {
        self.start_bit < 8
    }

    /// The position `bits` bits further on, rounded up to a whole byte.
    pub open spec fn spec_increment_byte_aligned(self, bits: u16) -> Option<PdiOffset> {
        if self.start_address + bytes_for_bits(bits as int) <= u32::MAX {
            Some(
                PdiOffset {
                    start_address: (self.start_address + bytes_for_bits(bits as int)) as u32,
                    start_bit: 0,
                },
            )
        } else {
            None
        }
    }

    /// The position `bits` bits further on, rounded up to a whole byte, or
    /// `None` where that address does not fit in 32 bits.
    pub fn increment_byte_aligned(self, bits: u16) -> (next: Option<PdiOffset>)
        ensures
            next == self.spec_increment_byte_aligned(bits),
    {
        let bytes: u32 = (bits as u32 + 7) / 8;
        match self.start_address.checked_add(bytes) {
            Some(start_address) => Some(PdiOffset { start_address, start_bit: 0 }),
            None => None,
        }
    }

    /// Bit position, within the last byte, of the last of `bits` bits mapped
    /// from this position.
    pub open spec fn spec_end_bit(self, bits: u16) -> int {
        self.start_bit + (if bits == 0 {
            0int
        } else {
            (bits - 1) % 8
        })
    }

    /// Bit position, within the last byte, of the last of `bits` bits mapped
    /// from this position.
    pub fn end_bit(self, bits: u16) -> (bit: u8)
        requires
            self.wf(),
        ensures
            bit == self.spec_end_bit(bits),
    {
        let last: u16 = if bits == 0 {
            0
        } else {
            (bits - 1) % 8
        };
        self.start_bit + last as u8
    }

    /// The segment of `bit_len` bits that runs from this position up to, and not
    /// including, `other`.
    pub fn up_to(self, other: PdiOffset, bit_len: usize) -> (segment: PdiSegment)
        ensures
            segment == (PdiSegment {
                bit_len,
                start: self.start_address as usize,
                end: other.start_address as usize,
            }),
    {
        PdiSegment {
            bit_len,
            start: self.start_address as usize,
            end: other.start_address as usize,
        }
    }
}

/// The part of the process data image that belongs to one direction of one
/// slave: the bytes from `start` up to, and not including, `end`.
#[derive(Clone, Copy, Debug, PartialEq, Eq, Structural)]
pub struct PdiSegment {
    /// Number of bits that carry data.
    pub bit_len: usize,
    /// First byte of the segment.
    pub start: usize,
    /// The byte after the last one of the segment.
    pub end: usize,
}

impl PdiSegment {
    /// Number of bytes in the segment.
    pub open spec fn spec_len(&self) -> usize {
        if self.start <= self.end {
            (self.end - self.start) as usize
        } else {
            0
        }
    }

    /// Number of bytes in the segment.
    #[verifier::when_used_as_spec(spec_len)]
    pub fn len(&self) -> (len: usize)
        ensures
            len == self.spec_len(),
    {
        if self.start <= self.end {
            self.end - self.start
        } else {
            0
        }
    }

    /// The bytes of the segment as a range of indices.
    pub fn bytes(&self) -> (bytes: Range<usize>)
        ensures
            bytes.start == self.start,
            bytes.end == self.end,
    {
        self.start..self.end
    }

    /// Whether the two segments have no byte in common.
    pub open spec fn disjoint(&self, other: &PdiSegment) -> bool {
        self.end <= other.start || other.end <= self.start || self.spec_len() == 0
            || other.spec_len() == 0
    }
}

} // verus!
