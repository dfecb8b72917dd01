//! The run-time code page: a 512-byte table answering lookups in both
//! directions with a handful of reads.
//!
//! Layout of the bytes:
//! - `0 .. 256`: for each upper-half byte `0x80 | i`, the big-endian 16-bit
//!   code point it maps to, or 0 where it has none;
//! - `256 .. 510`: 127 buckets of two slots; a slot holds an index `i < 128`
//!   whose forward entry hashes to that bucket, or a value with the high bit
//!   set when empty;
//! - `510 .. 512`: the hash parameter, little-endian.

use vstd::prelude::*;

use crate::hash::{hash, spec_hash};

verus! {

/// Whether `v` is a Unicode scalar value.
pub open spec fn is_scalar(v: int) -> bool {
    0 <= v <= 0x10FFFF && !(0xD800 <= v <= 0xDFFF)
}

/// The character whose scalar value is `v`.
pub open spec fn char_of(v: int) -> char {
    choose|c: char| #[trigger] (c as u32) == v
}

/// A character's value is a scalar, and `char_of` gives the character back.
pub proof fn lemma_char_of(c: char)
    ensures
        is_scalar(c as int),
        char_of(c as int) == c,
{
    assert(exists|x: char| #[trigger] (x as u32) == c as int) by {
        assert((c as u32) == c as int);
    }
}

/// The code stored in the forward slot `i` (`0 <= i < 128`).
pub open spec fn forward_value(bytes: Seq<u8>, i: int) -> int {
    bytes[2 * i] as int * 256 + bytes[2 * i + 1] as int
}

/// What forward slot `i` decodes to: nothing where it holds 0 or a value that
/// is no scalar.
pub open spec fn decode_slot(bytes: Seq<u8>, i: int) -> Option<char> {
    let v = forward_value(bytes, i);
    if v != 0 && is_scalar(v) {
        Some(char_of(v))
    } else {
        None
    }
}

/// The hash parameter kept in the trailer.
pub open spec fn hash_param(bytes: Seq<u8>) -> u16 {
    (bytes[510] as int + bytes[511] as int * 256) as u16
}

/// Offset of the first slot of `bucket` in the reverse region.
pub open spec fn bucket_offset(bucket: int) -> int {
    256 + 2 * bucket
}

/// Forward lookup: ASCII maps to itself, an upper-half byte to its slot.
pub open spec fn spec_to_char(bytes: Seq<u8>, c: u8) -> Option<char> {
    if c < 128 {
        Some(char_of(c as int))
    } else {
        decode_slot(bytes, c - 128)
    }
}

/// Whether reverse slot value `t` names an upper-half byte whose forward
/// entry decodes to `c`.
pub open spec fn slot_names(bytes: Seq<u8>, t: u8, c: char) -> bool {
    t < 128 && decode_slot(bytes, t as int) == Some(c)
}

/// Reverse lookup: ASCII maps to itself, a code above 16 bits to nothing;
/// any other code is looked for in each slot of its bucket that holds an
/// index, the first slot before the second.
pub open spec fn spec_from_char(bytes: Seq<u8>, c: char) -> Option<u8> {
    let v = c as int;
    if v < 128 {
        Some(v as u8)
    } else if v > 0xFFFF {
        None
    } else {
        let off = bucket_offset(spec_hash(v as u16, hash_param(bytes)) as int);
        let t1 = bytes[off];
        let t2 = bytes[off + 1];
        if slot_names(bytes, t1, c) {
            Some((t1 + 128) as u8)
        } else if slot_names(bytes, t2, c) {
            Some((t2 + 128) as u8)
        } else {
            None
        }
    }
}

/// Relies on `char::from_u32`: `Some` of the character with that value exactly
/// when the value is a Unicode scalar.
#[verifier::external_body]
fn char_from_u32(v: u32) -> (r: Option<char>)
    ensures
        r is Some <==> is_scalar(v as int),
        r matches Some(c) ==> c as u32 == v,
{
    char::from_u32(v)
}

/// The value of `c`.
pub fn scalar_value(c: char) -> (r: u32)
    ensures
        r == c as u32,
{
    c as u32
}

/// A code page as its 512 table bytes.
#[derive(Debug, Clone)]
pub struct CodePage(pub [u8; 512]);

impl CodePage {
    fn to_upper_half_char(&self, c: u8) -> (r: Option<char>)
        requires
            c < 128,
        ensures
            r == decode_slot(self.0@, c as int),
    {
        let offset = 2 * c as usize;
        let hb = self.0[offset] as u32;
        let lb = self.0[offset + 1] as u32;
        let v = (hb << 8) | lb;
        assert((hb << 8u32) | lb == hb * 256 + lb) by (bit_vector)
            requires
                hb < 256,
                lb < 256,
        ;
        if v == 0 {
            None
        } else {
            let r = char_from_u32(v);
            if let Some(x) = r {
                proof { lemma_char_of(x); }
            }
            r
        }
    }

    /// The character that byte `c` stands for, if any.
    pub fn to_char(&self, c: u8) -> (r: Option<char>)
        ensures
            r == spec_to_char(self.0@, c),
    {
        let half = c & 0x7F;
        assert(c & 0x7fu8 == (if c < 128 { c } else { (c - 128) as u8 })) by (bit_vector);
        if c == half {
            let r = c as char;
            assert(r as u32 == c as u32);
            proof { lemma_char_of(r); }
            Some(r)
        } else {
            self.to_upper_half_char(half)
        }
    }

    /// Whether reverse slot value `t` names a byte standing for `c`; a value
    /// with the high bit set is an empty slot.
    fn slot_names(&self, t: u8, c: char) -> (r: bool)
        ensures
            r == slot_names(self.0@, t, c),
            r ==> 0x80u8 | t == t + 128,
    {
        if t >> 7 != 0 {
            assert(t >> 7u8 != 0 <==> t >= 128) by (bit_vector);
            return false;
        }
        assert(t >> 7u8 == 0 <==> t < 128) by (bit_vector);
        assert(0x80u8 | t == t + 128) by (bit_vector)
            requires
                t < 128,
        ;
        match self.to_upper_half_char(t) {
            Some(x) => x == c,
            None => false,
        }
    }

    /// The byte that stands for character `c`, if any.
    pub fn from_char(&self, c: char) -> (r: Option<u8>)
        ensures
            r == spec_from_char(self.0@, c),
    {
        let v = c as u32;
        if v >> 7 == 0 {
            assert(v >> 7u32 == 0 <==> v < 128) by (bit_vector);
            Some(v as u8)
        } else if v >> 16 != 0 {
            assert(v >> 7u32 != 0 ==> v >= 128) by (bit_vector);
            assert(v >> 16u32 != 0 <==> v > 0xFFFF) by (bit_vector);
            None
        } else {
            assert(v >> 7u32 != 0 ==> v >= 128) by (bit_vector);
            assert(v >> 16u32 == 0 ==> v <= 0xFFFF) by (bit_vector);
            let w = v as u16;
            let lo = self.0[510] as u16;
            let hi = self.0[511] as u16;
            let hash_param = lo | (hi << 8);
            assert(lo | (hi << 8u16) == lo + hi * 256) by (bit_vector)
                requires
                    lo < 256,
                    hi < 256,
            ;
            let offset = 256 + 2 * hash(w, hash_param) as usize;
            let try_1 = self.0[offset];
            if self.slot_names(try_1, c) {
                return Some(0x80 | try_1);
            }
            let try_2 = self.0[offset + 1];
            if self.slot_names(try_2, c) {
                return Some(0x80 | try_2);
            }
            None
        }
    }
}

} // verus!
