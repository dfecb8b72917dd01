//! The bucket hash shared by the table builder and the run-time lookup.

use vstd::prelude::*;

verus! {

/// The bucket that `w` falls into under `param`: the 16-bit sum of the two is
/// folded onto itself and its low seven bits are kept.
pub open spec fn spec_hash(w: u16, param: u16) -> u8 {
    let h = ((w as int + param as int) % 0x1_0000) as u16;
    ((h ^ (h >> 8u16)) & 0x7fu16) as u8
}

/// Every bucket index lies below 128.
pub proof fn lemma_hash_range(w: u16, param: u16)
    ensures
        spec_hash(w, param) < 128,
{
    let h = ((w as int + param as int) % 0x1_0000) as u16;
    assert((h ^ (h >> 8u16)) & 0x7fu16 < 128u16) by (bit_vector);
}

/// Bucket index of the 16-bit code `w` under the hash parameter `p`.
pub fn hash(w: u16, p: u16) -> (r: u8)
    ensures
        r == spec_hash(w, p),
        r < 128,
{
    let w = w.wrapping_add(p);
    let r = ((w ^ (w >> 8)) & 0x007F) as u8;
    assert((w ^ (w >> 8u16)) & 0x7fu16 < 128u16) by (bit_vector);
    r
}

} // verus!
