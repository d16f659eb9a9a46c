//! The two packed words of a ray tracing instance record.

use vstd::prelude::*;

verus! {

/// The low 24 bits of `low` below the low 8 bits of `high`.
pub open spec fn packed(low: u32, high: u32) -> u32 {
    (low & 0x00FF_FFFF) | (high << 24)
}

/// A packed word gives back the 24 bits and the 8 bits it was made of.
pub proof fn law_packed(low: u32, high: u32)
    ensures
        packed(low, high) & 0x00FF_FFFF == low & 0x00FF_FFFF,
        packed(low, high) >> 24 == high & 0xFF,
{
    assert(((low & 0x00FF_FFFF) | (high << 24)) & 0x00FF_FFFF == low & 0x00FF_FFFF)
        by (bit_vector);
    assert(((low & 0x00FF_FFFF) | (high << 24)) >> 24 == high & 0xFF) by (bit_vector);
}

/// The packed words of an instance record: the id of the instance with its
/// visibility mask, and the offset of its hit group with its flags.
#[derive(Clone, Copy, Debug, PartialEq, Eq, Structural)]
pub struct InstanceWords {
    pub id_and_mask: u32,
    pub offset_and_flags: u32,
}

impl InstanceWords {
    /// Packs 24 bits of `id` with `mask`, and 24 bits of `offset` with 8
    /// bits of `flags`.
    pub fn new(id: u32, mask: u8, offset: u32, flags: u32) -> (words: InstanceWords)
        ensures
            words.id_and_mask == packed(id, mask as u32),
            words.offset_and_flags == packed(offset, flags),
    {
        let mut id_and_mask: u32 = 0;
        id_and_mask |= id & 0x00FF_FFFF;
        id_and_mask |= (mask as u32) << 24;

        let mut offset_and_flags: u32 = 0;
        offset_and_flags |= offset & 0x00FF_FFFF;
        offset_and_flags |= flags << 24;

        proof {
            let a = id & 0x00FF_FFFF;
            let b = (mask as u32) << 24;
            assert((0u32 | a) | b == a | b) by (bit_vector);
            let c = offset & 0x00FF_FFFF;
            let d = flags << 24;
            assert((0u32 | c) | d == c | d) by (bit_vector);
        }
        InstanceWords { id_and_mask, offset_and_flags }
    }
}

} // verus!
