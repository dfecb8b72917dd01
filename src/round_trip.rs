//! What holds of lookups on every code page, and on every code page built
//! from a table.

use vstd::prelude::*;

use crate::builder::{
    PLACEHOLDER,
    bucket_members,
    buildable,
    in_bucket,
    layout,
    layout_byte,
    reverse_byte,
    symbol_code,
};
use crate::code_page::{
    bucket_offset,
    char_of,
    decode_slot,
    forward_value,
    hash_param,
    lemma_char_of,
    scalar_value,
    spec_from_char,
    spec_to_char,
};
use crate::hash::{lemma_hash_range, spec_hash};

verus! {

/// A table whose real symbols all lie above ASCII and are pairwise distinct,
/// so that each of them names exactly one byte.
pub open spec fn one_to_one_table(table: Seq<char>) -> bool {
    &&& table.len() == 128
    &&& forall|i: int| 0 <= i < 128 ==> #[trigger] table[i] == PLACEHOLDER || table[i] as int >= 128
    &&& forall|i: int, j: int|
        0 <= i < 128 && 0 <= j < 128 && i != j && table[i] != PLACEHOLDER ==> #[trigger] table[i]
            != #[trigger] table[j]
}

/// Whether the table is one-to-one: every real symbol lies above ASCII and
/// no symbol appears twice.
pub fn is_one_to_one(table: &[char; 128]) -> (r: bool)
    ensures
        r == one_to_one_table(table@),
{
    let mut i: usize = 0;
    while i < 128
        invariant
            i <= 128,
            forall|k: int| 0 <= k < i ==> #[trigger] table@[k] == PLACEHOLDER || table@[k] as int >= 128,
            forall|k: int, l: int|
                0 <= k < i && 0 <= l < 128 && k != l && table@[k] != PLACEHOLDER ==> #[trigger] table@[k]
                    != #[trigger] table@[l],
        decreases 128 - i,
    {
        let c = table[i];
        proof {
            lemma_char_of(c);
        }
        if c != PLACEHOLDER {
            if scalar_value(c) < 128 {
                assert(!(table@[i as int] == PLACEHOLDER || table@[i as int] as int >= 128));
                return false;
            }
            let mut j: usize = 0;
            while j < 128
                invariant
                    i < 128,
                    j <= 128,
                    c == table@[i as int],
                    c != PLACEHOLDER,
                    forall|l: int| 0 <= l < j && l != i ==> table@[l] != c,
                decreases 128 - j,
            {
                if j != i && table[j] == c {
                    assert(table@[i as int] == table@[j as int]);
                    return false;
                }
                j += 1;
            }
        }
        i += 1;
    }
    true
}

/// Every ASCII byte maps to its own character, and that character maps back
/// to the byte, whatever the table bytes are.
pub proof fn lemma_ascii_round_trip(bytes: Seq<u8>, b: u8)
    requires
        bytes.len() == 512,
        b < 128,
    ensures
        spec_to_char(bytes, b) == Some(b as char),
        spec_from_char(bytes, b as char) == Some(b),
{
    assert((b as char) as u32 == b as u32);
    lemma_char_of(b as char);
}

/// Whatever a reverse lookup returns maps forward to the character looked
/// up, on any table bytes.
pub proof fn lemma_from_char_then_to_char(bytes: Seq<u8>, c: char)
    requires
        bytes.len() == 512,
    ensures
        spec_from_char(bytes, c) matches Some(b) ==> spec_to_char(bytes, b) == Some(c),
{
    lemma_char_of(c);
}

/// The members of a bucket are indices below `n` that fall into it, and every
/// such index is among them, each in its own position.
proof fn lemma_members(table: Seq<char>, param: u16, bucket: int, n: nat)
    requires
        n <= 128,
    ensures
        forall|k: int|
            0 <= k < bucket_members(table, param, bucket, n).len() ==> {
                let m = #[trigger] bucket_members(table, param, bucket, n)[k];
                m < n && in_bucket(table, param, m as int, bucket)
            },
        forall|t: int|
            0 <= t < n && in_bucket(table, param, t, bucket) ==> bucket_members(
                table,
                param,
                bucket,
                n,
            ).contains(t as u8),
    decreases n,
{
    if n > 0 {
        lemma_members(table, param, bucket, (n - 1) as nat);
        let rest = bucket_members(table, param, bucket, (n - 1) as nat);
        let all = bucket_members(table, param, bucket, n);
        assert forall|t: int|
            0 <= t < n && in_bucket(table, param, t, bucket) implies all.contains(t as u8) by {
            if t < n - 1 {
                let k = choose|k: int| 0 <= k < rest.len() && rest[k] == t as u8;
                assert(all[k] == t as u8);
            } else {
                assert(all[all.len() - 1] == t as u8);
            }
        }
    }
}

/// The forward region of a built table holds each symbol's code.
proof fn lemma_layout_forward(table: Seq<char>, param: u16, i: int)
    requires
        buildable(table, param),
        0 <= i < 128,
    ensures
        forward_value(layout(table, param), i) == symbol_code(table[i]),
{
    lemma_char_of(table[i]);
    assert(symbol_code(table[i]) <= 0xFFFF);
    assert(layout(table, param)[2 * i] == layout_byte(table, param, 2 * i));
    assert(layout(table, param)[2 * i + 1] == layout_byte(table, param, 2 * i + 1));
    assert((2 * i) / 2 == i && (2 * i + 1) / 2 == i);
}

/// A built table keeps its parameter in the trailer.
proof fn lemma_layout_param(table: Seq<char>, param: u16)
    ensures
        hash_param(layout(table, param)) == param,
{
    assert(layout(table, param)[510] == layout_byte(table, param, 510));
    assert(layout(table, param)[511] == layout_byte(table, param, 511));
}

/// Forward slot `i` of a built table decodes to the symbol it was built from,
/// or to nothing for the placeholder.
proof fn lemma_layout_decode(table: Seq<char>, param: u16, i: int)
    requires
        buildable(table, param),
        0 <= i < 128,
    ensures
        decode_slot(layout(table, param), i) == (if symbol_code(table[i]) == 0 {
            None
        } else {
            Some(table[i])
        }),
{
    lemma_layout_forward(table, param, i);
    lemma_char_of(table[i]);
}

/// The two slots of a bucket of a built table.
proof fn lemma_layout_slots(table: Seq<char>, param: u16, bucket: int)
    requires
        buildable(table, param),
        0 <= bucket < 127,
    ensures
        ({
            let m = bucket_members(table, param, bucket, 128);
            let bytes = layout(table, param);
            &&& bytes[bucket_offset(bucket)] == (if m.len() > 0 {
                m[0]
            } else {
                128u8
            })
            &&& bytes[bucket_offset(bucket) + 1] == (if m.len() > 1 {
                m[1]
            } else {
                128u8
            })
        }),
{
    let off = bucket_offset(bucket);
    assert(layout(table, param)[off] == reverse_byte(table, param, 128, off));
    assert(layout(table, param)[off + 1] == reverse_byte(table, param, 128, off + 1));
    assert((off - 256) / 2 == bucket && (off + 1 - 256) / 2 == bucket);
}

/// On a built table, every real symbol (neither the placeholder nor the
/// null character, both stored as 0) sits in one of the two slots of its
/// bucket, that bucket is never the reserved bucket 127, and every occupied
/// slot names a symbol that hashes to the slot's bucket.
pub proof fn lemma_reverse_region(table: Seq<char>, param: u16)
    requires
        buildable(table, param),
    ensures
        forall|i: int|
            0 <= i < 128 && symbol_code(#[trigger] table[i]) != 0 ==> {
                let h = spec_hash(symbol_code(table[i]) as u16, param) as int;
                let bytes = layout(table, param);
                &&& h < 127
                &&& bytes[bucket_offset(h)] == i as u8 || bytes[bucket_offset(h) + 1] == i as u8
            },
        forall|b: int, s: int|
            0 <= b < 127 && 0 <= s < 2 && #[trigger] layout(table, param)[bucket_offset(b) + s]
                < 128 ==> {
                let x = layout(table, param)[bucket_offset(b) + s] as int;
                &&& symbol_code(table[x]) != 0
                &&& spec_hash(symbol_code(table[x]) as u16, param) == b
            },
{
    assert forall|i: int| 0 <= i < 128 && symbol_code(#[trigger] table[i]) != 0 implies {
        let h = spec_hash(symbol_code(table[i]) as u16, param) as int;
        let bytes = layout(table, param);
        &&& h < 127
        &&& bytes[bucket_offset(h)] == i as u8 || bytes[bucket_offset(h) + 1] == i as u8
    } by {
        let h = spec_hash(symbol_code(table[i]) as u16, param) as int;
        lemma_hash_range(symbol_code(table[i]) as u16, param);
        assert(in_bucket(table, param, i, h));
        lemma_members(table, param, h, 128);
        lemma_layout_slots(table, param, h);
        let m = bucket_members(table, param, h, 128);
        assert(m.len() <= 2);
        let k = choose|k: int| 0 <= k < m.len() && m[k] == i as u8;
        assert(k == 0 || k == 1);
    }
    assert forall|b: int, s: int|
        0 <= b < 127 && 0 <= s < 2 && #[trigger] layout(table, param)[bucket_offset(b) + s]
            < 128 implies {
        let x = layout(table, param)[bucket_offset(b) + s] as int;
        &&& symbol_code(table[x]) != 0
        &&& spec_hash(symbol_code(table[x]) as u16, param) == b
    } by {
        lemma_members(table, param, b, 128);
        lemma_layout_slots(table, param, b);
        let m = bucket_members(table, param, b, 128);
        if s == 0 {
            assert(in_bucket(table, param, m[0] as int, b));
        } else {
            assert(in_bucket(table, param, m[1] as int, b));
        }
    }
}

/// On a built table whose symbols are one-to-one, every byte that maps to a
/// character is what that character maps back to.
pub proof fn lemma_to_char_then_from_char(table: Seq<char>, param: u16, b: u8)
    requires
        buildable(table, param),
        one_to_one_table(table),
    ensures
        spec_to_char(layout(table, param), b) matches Some(c) ==> spec_from_char(
            layout(table, param),
            c,
        ) == Some(b),
{
    let bytes = layout(table, param);
    if b < 128 {
        lemma_ascii_round_trip(bytes, b);
    } else {
        let t = b - 128;
        lemma_layout_decode(table, param, t);
        if table[t] != PLACEHOLDER {
            let c = table[t];
            lemma_char_of(c);
            lemma_layout_param(table, param);
            lemma_reverse_region(table, param);
            let h = spec_hash(symbol_code(c) as u16, param) as int;
            let off = bucket_offset(h);
            lemma_members(table, param, h, 128);
            lemma_layout_slots(table, param, h);
            let t1 = bytes[off];
            if t1 != t as u8 {
                assert(in_bucket(table, param, t1 as int, h));
                lemma_layout_decode(table, param, t1 as int);
                assert(table[t1 as int] != c);
                assert(bytes[off + 1] == t as u8);
            }
        }
    }
}

/// On a built table, a character above ASCII that is none of the table's
/// symbols maps to no byte.
pub proof fn lemma_no_false_positive(table: Seq<char>, param: u16, c: char)
    requires
        buildable(table, param),
        c as int >= 128,
        forall|i: int| 0 <= i < 128 ==> #[trigger] table[i] != c,
    ensures
        spec_from_char(layout(table, param), c) is None,
{
    let bytes = layout(table, param);
    if c as int <= 0xFFFF {
        let h = spec_hash(c as u16, hash_param(bytes)) as int;
        let off = bucket_offset(h);
        let t1 = bytes[off];
        let t2 = bytes[off + 1];
        if t1 < 128 {
            lemma_layout_decode(table, param, t1 as int);
        }
        if t2 < 128 {
            lemma_layout_decode(table, param, t2 as int);
        }
    }
}

/// On a built table, a byte whose entry is the placeholder maps to no
/// character.
pub proof fn lemma_placeholder_has_no_char(table: Seq<char>, param: u16, b: u8)
    requires
        buildable(table, param),
        b >= 128,
        table[b - 128] == PLACEHOLDER,
    ensures
        spec_to_char(layout(table, param), b) is None,
{
    lemma_layout_decode(table, param, b - 128);
}

/// A character above 16 bits maps to no byte, whatever the table bytes are.
pub proof fn lemma_above_sixteen_bits_not_found(bytes: Seq<u8>, c: char)
    requires
        bytes.len() == 512,
        c as u32 > 0xFFFF,
    ensures
        spec_from_char(bytes, c) is None,
{
}

/// Building is a function of the table and the parameter: two code pages
/// built from the same table and parameter hold the same bytes.
pub proof fn lemma_build_deterministic(
    table: Seq<char>,
    param: u16,
    first: Seq<u8>,
    second: Seq<u8>,
)
    requires
        first == layout(table, param),
        second == layout(table, param),
    ensures
        first == second,
{
}

} // verus!
