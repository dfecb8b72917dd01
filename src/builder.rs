//! Construction of a code page from its 128 upper-half symbols and a hash
//! parameter.

use vstd::prelude::*;

use crate::code_page::CodePage;
use crate::hash::{hash, spec_hash};
use crate::tables::{KNOWN_CODE_PAGES, base_table_and_hash_param, spec_base_table_and_hash_param};

verus! {

/// The symbol that marks an upper-half byte without a mapping.
pub const PLACEHOLDER: char = '?';

/// The 16-bit code a table symbol is stored as: 0 for the placeholder.
pub open spec fn symbol_code(c: char) -> int {
    if c == PLACEHOLDER {
        0
    } else {
        c as int
    }
}

/// Whether entry `i` of the table is a real symbol that hashes to `bucket`.
pub open spec fn in_bucket(table: Seq<char>, param: u16, i: int, bucket: int) -> bool {
    symbol_code(table[i]) != 0 && spec_hash(symbol_code(table[i]) as u16, param) == bucket
}

/// The indices below `n` whose symbols fall into `bucket`, in increasing
/// order.
pub open spec fn bucket_members(table: Seq<char>, param: u16, bucket: int, n: nat) -> Seq<u8>
    decreases n,
{
    if n == 0 {
        Seq::empty()
    } else {
        let rest = bucket_members(table, param, bucket, (n - 1) as nat);
        if in_bucket(table, param, n - 1, bucket) {
            rest.push((n - 1) as u8)
        } else {
            rest
        }
    }
}

/// Whether a table can be laid out with this parameter: every symbol fits in
/// 16 bits, none hashes to the reserved bucket 127, and no bucket receives
/// more than two symbols.
pub open spec fn buildable(table: Seq<char>, param: u16) -> bool {
    &&& table.len() == 128
    &&& forall|i: int| 0 <= i < 128 ==> symbol_code(#[trigger] table[i]) <= 0xFFFF
    &&& forall|i: int|
        0 <= i < 128 && symbol_code(#[trigger] table[i]) != 0 ==> spec_hash(
            symbol_code(table[i]) as u16,
            param,
        ) != 127
    &&& forall|b: int| 0 <= b < 127 ==> (#[trigger] bucket_members(table, param, b, 128)).len() <= 2
}

/// Reverse-region byte `k` (`256 <= k < 510`) once the first `n` table
/// entries have been placed.
pub open spec fn reverse_byte(table: Seq<char>, param: u16, n: nat, k: int) -> u8 {
    let members = bucket_members(table, param, (k - 256) / 2, n);
    let slot = (k - 256) % 2;
    if slot < members.len() {
        members[slot]
    } else {
        128u8
    }
}

/// Byte `k` of the code page built from `table` and `param`.
pub open spec fn layout_byte(table: Seq<char>, param: u16, k: int) -> u8 {
    if k < 256 {
        let v = symbol_code(table[k / 2]);
        if k % 2 == 0 {
            (v / 256) as u8
        } else {
            (v % 256) as u8
        }
    } else if k < 510 {
        reverse_byte(table, param, 128, k)
    } else if k == 510 {
        (param % 256) as u8
    } else {
        (param / 256) as u8
    }
}

/// The 512 bytes of the code page built from `table` and `param`.
pub open spec fn layout(table: Seq<char>, param: u16) -> Seq<u8> {
    Seq::new(512, |k: int| layout_byte(table, param, k))
}

/// A bucket only gains members as more of the table is taken in.
proof fn lemma_members_len_grows(table: Seq<char>, param: u16, bucket: int, n: nat, m: nat)
    requires
        n <= m,
    ensures
        bucket_members(table, param, bucket, n).len() <= bucket_members(
            table,
            param,
            bucket,
            m,
        ).len(),
    decreases m - n,
{
    if n < m {
        lemma_members_len_grows(table, param, bucket, n, (m - 1) as nat);
    }
}

/// The code `c` is stored as in the forward region.
fn symbol_value(c: char) -> (r: u32)
    ensures
        r as int == symbol_code(c),
{
    if c == PLACEHOLDER {
        0
    } else {
        c as u32
    }
}

/// Lays out the code page for `table` and `param`: `None` exactly when the
/// table cannot be laid out with that parameter.
pub fn build(table: &[char; 128], param: u16) -> (r: Option<CodePage>)
    ensures
        r is Some <==> buildable(table@, param),
        r matches Some(cp) ==> cp.0@ == layout(table@, param),
{
    let mut res = [0u8; 512];
    // The trailer: the parameter, low byte first.
    res[510] = (param % 256) as u8;
    res[511] = (param / 256) as u8;
    // The forward region: each symbol's code, high byte first.
    let mut codes = [0u16; 128];
    let mut i: usize = 0;
    while i < 128
        invariant
            i <= 128,
            forall|j: int| 0 <= j < i ==> codes[j] as int == symbol_code(#[trigger] table@[j]),
            forall|k: int| 0 <= k < 2 * i ==> res[k] == layout_byte(table@, param, k),
            res[510] == layout_byte(table@, param, 510),
            res[511] == layout_byte(table@, param, 511),
        decreases 128 - i,
    {
        let c = table[i];
        assert(c == table@[i as int]);
        let w = symbol_value(c);
        if w > 0xFFFF {
            assert(symbol_code(table@[i as int]) > 0xFFFF);
            return None;
        }
        codes[i] = w as u16;
        res[2 * i] = (w / 256) as u8;
        res[2 * i + 1] = (w % 256) as u8;
        i += 1;
    }
    // The reverse region starts out empty.
    let mut k: usize = 256;
    while k < 510
        invariant
            256 <= k <= 510,
            forall|j: int| 0 <= j < 128 ==> codes[j] as int == symbol_code(#[trigger] table@[j]),
            forall|j: int| 0 <= j < 256 ==> res[j] == layout_byte(table@, param, j),
            forall|j: int| 256 <= j < k ==> res[j] == 128u8,
            res[510] == layout_byte(table@, param, 510),
            res[511] == layout_byte(table@, param, 511),
        decreases 510 - k,
    {
        res[k] = 128;
        k += 1;
    }
    // Each symbol goes to the first free slot of its bucket; `filled` counts
    // the slots taken in each bucket.
    let mut filled = [0u8; 127];
    let mut i: usize = 0;
    while i < 128
        invariant
            i <= 128,
            forall|j: int| 0 <= j < 128 ==> codes[j] as int == symbol_code(#[trigger] table@[j]),
            forall|j: int| 0 <= j < 256 ==> res[j] == layout_byte(table@, param, j),
            res[510] == layout_byte(table@, param, 510),
            res[511] == layout_byte(table@, param, 511),
            forall|j: int|
                0 <= j < i && symbol_code(#[trigger] table@[j]) != 0 ==> spec_hash(
                    symbol_code(table@[j]) as u16,
                    param,
                ) != 127,
            forall|b: int|
                0 <= b < 127 ==> filled[b] as int == (#[trigger] bucket_members(
                    table@,
                    param,
                    b,
                    i as nat,
                )).len() && filled[b] <= 2,
            forall|j: int| 256 <= j < 510 ==> res[j] == reverse_byte(table@, param, i as nat, j),
        decreases 128 - i,
    {
        let ghost old_filled = filled;
        let w = codes[i];
        if w != 0 {
            let h = hash(w, param);
            assert(codes[i as int] as int == symbol_code(table@[i as int]));
            if h == 127 {
                assert(symbol_code(table@[i as int]) != 0 && spec_hash(
                    symbol_code(table@[i as int]) as u16,
                    param,
                ) == 127);
                return None;
            }
            let ghost hb: int = h as int;
            assert(0 <= hb < 127);
            assert(filled[hb] as int == bucket_members(table@, param, hb, i as nat).len());
            assert(filled[hb] <= 2);
            let f = filled[h as usize];
            if f == 2 {
                proof {
                    assert(in_bucket(table@, param, i as int, h as int));
                    assert(bucket_members(table@, param, h as int, (i + 1) as nat).len() == 3);
                    lemma_members_len_grows(table@, param, h as int, (i + 1) as nat, 128);
                }
                return None;
            }
            let k = 256 + 2 * (h as usize) + f as usize;
            res[k] = i as u8;
            filled[h as usize] = f + 1;
            assert forall|j: int| 256 <= j < 510 implies res[j] == reverse_byte(
                table@,
                param,
                (i + 1) as nat,
                j,
            ) by {
                assert(in_bucket(table@, param, i as int, (j - 256) / 2) <==> (j - 256) / 2 == h);
            }
        } else {
            assert forall|j: int| 256 <= j < 510 implies res[j] == reverse_byte(
                table@,
                param,
                (i + 1) as nat,
                j,
            ) by {
                assert(!in_bucket(table@, param, i as int, (j - 256) / 2));
            }
        }
        let ghost placed = i;
        i += 1;
        assert forall|b: int| 0 <= b < 127 implies filled[b] as int == (#[trigger] bucket_members(
            table@,
            param,
            b,
            i as nat,
        )).len() && filled[b] <= 2 by {
            assert(old_filled[b] as int == bucket_members(table@, param, b, placed as nat).len());
            if in_bucket(table@, param, placed as int, b) {
                assert(w != 0 && b == spec_hash(w, param));
            } else {
                assert(w == 0 || b != spec_hash(w, param));
            }
        }
    }
    assert(res@ =~= layout(table@, param));
    Some(CodePage(res))
}

/// Building a code page from one of the known tables.
pub trait CodePageGenExt: Sized {
    /// Whether there is a table for `code_page`.
    spec fn known(code_page: u16) -> bool;

    /// Whether `r` is what `generate` owes for `code_page`.
    spec fn generated(code_page: u16, r: Option<Self>) -> bool;

    /// The code page numbered `code_page`, or `None` where its table cannot
    /// be laid out.
    fn generate(code_page: u16) -> (r: Option<Self>)
        requires
            Self::known(code_page),
        ensures
            Self::generated(code_page, r),
    ;
}

impl CodePageGenExt for CodePage {
    open spec fn known(code_page: u16) -> bool {
        KNOWN_CODE_PAGES@.contains(code_page)
    }

    open spec fn generated(code_page: u16, r: Option<CodePage>) -> bool {
        match spec_base_table_and_hash_param(code_page) {
            None => r is None,
            Some((table, param)) => {
                &&& r is Some <==> table.len() == 128 && buildable(table, param)
                &&& r matches Some(cp) ==> cp.0@ == layout(table, param)
            },
        }
    }

    fn generate(code_page: u16) -> (r: Option<CodePage>) {
        match base_table_and_hash_param(code_page) {
            None => None,
            Some((base_table, hash_param)) => build(&base_table, hash_param),
        }
    }
}

} // verus!
