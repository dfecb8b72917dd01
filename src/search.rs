//! Offline search for hash parameters under which a table's symbols spread
//! over the buckets with few collisions.

use arrayvec::ArrayVec;
use vstd::prelude::*;

use crate::builder::{build, buildable};
use crate::code_page::{lemma_char_of, scalar_value};

verus! {

/// `arrayvec::ArrayVec`, a vector of bounded capacity held inline.
#[verifier::external_type_specification]
#[verifier::external_body]
#[verifier::reject_recursive_types(T)]
pub struct ExArrayVec<T, const CAP: usize>(ArrayVec<T, CAP>);

/// The bit positions held by a list of at most 32 positions.
pub uninterp spec fn bit_list(v: ArrayVec<u8, 32>) -> Seq<u8>;

/// Relies on `ArrayVec::new`: a new vector is empty.
#[verifier::external_body]
fn new_bit_list() -> (r: ArrayVec<u8, 32>)
    ensures
        bit_list(r) == Seq::<u8>::empty(),
{
    ArrayVec::new()
}

/// Relies on `ArrayVec::push`: the element goes to the end; it panics only
/// when the vector is full.
#[verifier::external_body]
fn push_bit(v: &mut ArrayVec<u8, 32>, x: u8)
    requires
        bit_list(*old(v)).len() < 32,
    ensures
        bit_list(*final(v)) == bit_list(*old(v)).push(x),
{
    v.push(x)
}

/// Relies on `ArrayVec::as_slice`: the elements, in order.
#[verifier::external_body]
fn bit_list_slice(v: &ArrayVec<u8, 32>) -> (r: &[u8])
    ensures
        r@ == bit_list(*v),
{
    v.as_slice()
}

/// Whether bit `p` of `a` and of `b` differ.
pub open spec fn bit_differs(a: char, b: char, p: u32) -> bool {
    (a as u32) & (1u32 << p) != (b as u32) & (1u32 << p)
}

/// Whether bit `p` is not the same in every symbol of the table.
pub open spec fn bit_varies(table: Seq<char>, p: u32) -> bool {
    exists|i: int| 0 <= i < table.len() && bit_differs(#[trigger] table[i], table[0], p)
}

/// The positions below `n` of the bits that vary over the table, in
/// increasing order.
pub open spec fn varying_bits_below(table: Seq<char>, n: nat) -> Seq<u8>
    decreases n,
{
    if n == 0 {
        Seq::empty()
    } else {
        let rest = varying_bits_below(table, (n - 1) as nat);
        if bit_varies(table, (n - 1) as u32) {
            rest.push((n - 1) as u8)
        } else {
            rest
        }
    }
}

/// There are no more varying bits below `n` than `n`, and each lies below
/// `n`.
proof fn lemma_varying_bits_len(table: Seq<char>, n: nat)
    ensures
        varying_bits_below(table, n).len() <= n,
        forall|k: int|
            0 <= k < varying_bits_below(table, n).len() ==> #[trigger] varying_bits_below(
                table,
                n,
            )[k] < n,
    decreases n,
{
    if n > 0 {
        lemma_varying_bits_len(table, (n - 1) as nat);
    }
}

/// The positions of the bits that are not the same in every symbol: the
/// only bits that tell symbols apart.
pub fn varying_bits(table: &[char]) -> (r: ArrayVec<u8, 32>)
    requires
        table@.len() >= 1,
    ensures
        bit_list(r) == varying_bits_below(table@, 32),
{
    let mut bits = new_bit_list();
    let first = scalar_value(table[0]);
    let mut bit: u32 = 0;
    while bit < 32
        invariant
            bit <= 32,
            table@.len() >= 1,
            first == table@[0] as u32,
            bit_list(bits) == varying_bits_below(table@, bit as nat),
        decreases 32 - bit,
    {
        let mask = 1u32 << bit;
        let value = first & mask;
        let mut varies = false;
        let mut i: usize = 0;
        while i < table.len()
            invariant
                i <= table@.len(),
                first == table@[0] as u32,
                mask == 1u32 << bit,
                value == first & mask,
                varies <==> exists|j: int|
                    0 <= j < i && bit_differs(#[trigger] table@[j], table@[0], bit),
            decreases table@.len() - i,
        {
            if scalar_value(table[i]) & mask != value {
                varies = true;
            }
            i += 1;
        }
        proof {
            lemma_varying_bits_len(table@, bit as nat);
        }
        if varies {
            push_bit(&mut bits, bit as u8);
        }
        bit += 1;
    }
    bits
}

/// The low 16 bits of a symbol's value, which the shifted hash reads.
pub open spec fn low_code(c: char) -> u16 {
    ((c as int) % 0x1_0000) as u16
}

/// The bucket of `u` under an additive constant and two shifts: the sum is
/// folded with a left-shifted copy of itself, shifted right, and cut to seven
/// bits.
pub open spec fn spec_shifted_hash(u: u16, add: u16, add_shift: u8, shift: u8) -> u8 {
    let v = ((u as int + add as int) % 0x1_0000) as u16;
    (((v ^ (v << add_shift as u16)) >> shift as u16) & 0x7fu16) as u8
}

/// The bucket of `u` under the shifted hash.
fn shifted_hash(u: u16, add: u16, add_shift: u8, shift: u8) -> (r: u8)
    requires
        add_shift < 16,
        shift < 16,
    ensures
        r == spec_shifted_hash(u, add, add_shift, shift),
        r < 128,
{
    let u = u.wrapping_add(add);
    let v = ((u ^ (u << add_shift as u16)) >> shift as u16) & 0x7F;
    assert(((u ^ (u << add_shift as u16)) >> shift as u16) & 0x7fu16 < 128u16) by (bit_vector);
    v as u8
}

/// How many of the first `n` symbols of the table fall into `bucket`.
pub open spec fn bucket_count(
    table: Seq<char>,
    add: u16,
    add_shift: u8,
    shift: u8,
    bucket: int,
    n: nat,
) -> nat
    decreases n,
{
    if n == 0 {
        0
    } else {
        bucket_count(table, add, add_shift, shift, bucket, (n - 1) as nat) + if spec_shifted_hash(
            low_code(table[n - 1]),
            add,
            add_shift,
            shift,
        ) == bucket {
            1nat
        } else {
            0nat
        }
    }
}

/// A bucket only gains symbols as more of the table is counted.
proof fn lemma_bucket_count_grows(
    table: Seq<char>,
    add: u16,
    add_shift: u8,
    shift: u8,
    bucket: int,
    n: nat,
    m: nat,
)
    requires
        n <= m,
    ensures
        bucket_count(table, add, add_shift, shift, bucket, n) <= bucket_count(
            table,
            add,
            add_shift,
            shift,
            bucket,
            m,
        ),
    decreases m - n,
{
    if n < m {
        lemma_bucket_count_grows(table, add, add_shift, shift, bucket, n, (m - 1) as nat);
    }
}

/// Whether no bucket receives more than two of the table's symbols and the
/// reserved bucket 127 receives none.
pub open spec fn spreads(table: Seq<char>, add: u16, add_shift: u8, shift: u8) -> bool {
    &&& forall|b: int|
        0 <= b < 128 ==> #[trigger] bucket_count(table, add, add_shift, shift, b, table.len())
            <= 2
    &&& bucket_count(table, add, add_shift, shift, 127, table.len()) == 0
}

/// The parameters tried in position `n` of the search: the additive
/// constant varies slowest, the right shift fastest.
pub open spec fn candidate(n: int) -> (u16, u8, u8) {
    ((n / 256) as u16, ((n / 16) % 16) as u8, (n % 16) as u8)
}

/// The number of parameter triples the search goes through.
pub open spec fn candidate_count() -> int {
    0x100_0000
}

/// Whether the parameters tried in position `n` spread the table.
pub open spec fn candidate_spreads(table: Seq<char>, n: int) -> bool {
    let (add, add_shift, shift) = candidate(n);
    spreads(table, add, add_shift, shift)
}

/// Whether the table's symbols fall at most two to a bucket, and none into
/// bucket 127, under the given parameters.
pub fn at_most_two_per_bucket(table: &[char], add: u16, add_shift: u8, shift: u8) -> (r: bool)
    requires
        add_shift < 16,
        shift < 16,
    ensures
        r == spreads(table@, add, add_shift, shift),
{
    let mut counts = [0u8; 128];
    let mut i: usize = 0;
    while i < table.len()
        invariant
            i <= table@.len(),
            add_shift < 16,
            shift < 16,
            forall|b: int|
                0 <= b < 128 ==> counts[b] as nat == #[trigger] bucket_count(
                    table@,
                    add,
                    add_shift,
                    shift,
                    b,
                    i as nat,
                ) && counts[b] <= 2,
            counts[127] == 0,
        decreases table@.len() - i,
    {
        let c = table[i];
        let code = (scalar_value(c) % 0x1_0000) as u16;
        assert(c == table@[i as int]);
        proof {
            lemma_char_of(c);
        }
        assert(code == low_code(table@[i as int]));
        let b = shifted_hash(code, add, add_shift, shift);
        let ghost bi: int = b as int;
        assert(counts[bi] as nat == bucket_count(table@, add, add_shift, shift, bi, i as nat));
        if b == 127 {
            proof {
                assert(bucket_count(table@, add, add_shift, shift, 127, (i + 1) as nat) >= 1);
                lemma_bucket_count_grows(
                    table@,
                    add,
                    add_shift,
                    shift,
                    127,
                    (i + 1) as nat,
                    table@.len(),
                );
            }
            return false;
        }
        if counts[b as usize] == 2 {
            proof {
                assert(bucket_count(table@, add, add_shift, shift, bi, (i + 1) as nat) == 3);
                lemma_bucket_count_grows(
                    table@,
                    add,
                    add_shift,
                    shift,
                    bi,
                    (i + 1) as nat,
                    table@.len(),
                );
            }
            return false;
        }
        let ghost old_counts = counts;
        counts[b as usize] = counts[b as usize] + 1;
        let ghost counted = i;
        i += 1;
        assert forall|x: int| 0 <= x < 128 implies counts[x] as nat == #[trigger] bucket_count(
            table@,
            add,
            add_shift,
            shift,
            x,
            i as nat,
        ) && counts[x] <= 2 by {
            assert(old_counts[x] as nat == bucket_count(
                table@,
                add,
                add_shift,
                shift,
                x,
                counted as nat,
            ));
        }
    }
    true
}

/// The first parameters, in the order of `candidate`, under which no bucket
/// receives more than two of the table's symbols and bucket 127 none;
/// `None` when there are none.
pub fn find_hash(table: &[char]) -> (r: Option<(u16, u8, u8)>)
    requires
        table@.len() <= 128,
    ensures
        r matches Some(p) ==> exists|n: int|
            0 <= n < candidate_count() && candidate(n) == p && candidate_spreads(table@, n)
                && forall|m: int| 0 <= m < n ==> !#[trigger] candidate_spreads(table@, m),
        r is None ==> forall|m: int|
            0 <= m < candidate_count() ==> !#[trigger] candidate_spreads(table@, m),
{
    let mut n: u32 = 0;
    while n < 0x100_0000
        invariant
            n <= 0x100_0000,
            forall|m: int| 0 <= m < n ==> !#[trigger] candidate_spreads(table@, m),
        decreases 0x100_0000 - n,
    {
        let add = (n / 256) as u16;
        let add_shift = ((n / 16) % 16) as u8;
        let shift = (n % 16) as u8;
        assert(candidate(n as int) == (add, add_shift, shift));
        if at_most_two_per_bucket(table, add, add_shift, shift) {
            return Some((add, add_shift, shift));
        }
        n += 1;
    }
    None
}

/// Whether bit `j` of `x` is set.
pub open spec fn bit_set(x: u32, j: int) -> bool {
    (x >> j as u32) & 1u32 == 1u32
}

/// How many of the low `n` bits of `sub` are set.
pub open spec fn chosen_below(sub: u32, n: nat) -> nat
    decreases n,
{
    if n == 0 {
        0
    } else {
        chosen_below(sub, (n - 1) as nat) + if bit_set(sub, n - 1) {
            1nat
        } else {
            0nat
        }
    }
}

/// The mask that sets the bit at `positions[j]` for each of the low `n` bits
/// `j` set in `sub`.
pub open spec fn mask_below(positions: Seq<u8>, sub: u32, n: nat) -> u32
    decreases n,
{
    if n == 0 {
        0
    } else {
        mask_below(positions, sub, (n - 1) as nat) | if bit_set(sub, n - 1) {
            1u32 << positions[n - 1] as u32
        } else {
            0u32
        }
    }
}

/// How many of the first `n` symbols agree with symbol `i` on the bits of
/// `mask`.
pub open spec fn group_size(table: Seq<char>, mask: u32, i: int, n: nat) -> nat
    decreases n,
{
    if n == 0 {
        0
    } else {
        group_size(table, mask, i, (n - 1) as nat) + if (table[n - 1] as u32) & mask == (
        table[i] as u32) & mask {
            1nat
        } else {
            0nat
        }
    }
}

/// The size of the largest group of symbols, among all of the table, that
/// agree with one of the first `n` symbols on the bits of `mask`.
pub open spec fn largest_group_below(table: Seq<char>, mask: u32, n: nat) -> nat
    decreases n,
{
    if n == 0 {
        0
    } else {
        let g = group_size(table, mask, n - 1, table.len());
        let rest = largest_group_below(table, mask, (n - 1) as nat);
        if g > rest {
            g
        } else {
            rest
        }
    }
}

/// The size of the largest group of symbols that agree on the bits of
/// `mask`.
pub open spec fn largest_group(table: Seq<char>, mask: u32) -> nat {
    largest_group_below(table, mask, table.len())
}

/// How many runs of consecutive set bits the low `n` bits of `mask` hold.
pub open spec fn runs_below(mask: u32, n: nat) -> nat
    decreases n,
{
    if n == 0 {
        0
    } else {
        runs_below(mask, (n - 1) as nat) + if bit_set(mask, n - 1) && (n == 1 || !bit_set(
            mask,
            n - 2,
        )) {
            1nat
        } else {
            0nat
        }
    }
}

/// What masks are ranked by: fewer runs first, then a smaller largest
/// group, then the smaller mask.
pub open spec fn mask_key(table: Seq<char>, mask: u32) -> (nat, nat, u32) {
    (runs_below(mask, 32), largest_group(table, mask), mask)
}

/// Whether key `a` ranks strictly before key `b`.
pub open spec fn key_before(a: (nat, nat, u32), b: (nat, nat, u32)) -> bool {
    a.0 < b.0 || (a.0 == b.0 && (a.1 < b.1 || (a.1 == b.1 && a.2 < b.2)))
}

/// Whether `sub` picks seven of the `n` varying bits.
pub open spec fn is_choice(sub: u32, n: nat) -> bool {
    sub < pow2(n) && chosen_below(sub, n) == 7
}

/// `2` to the power `n`.
pub open spec fn pow2(n: nat) -> nat
    decreases n,
{
    if n == 0 {
        1
    } else {
        2 * pow2((n - 1) as nat)
    }
}

/// Whether a mask keeps the table's symbols at most three to a group.
pub open spec fn acceptable(table: Seq<char>, mask: u32) -> bool {
    largest_group(table, mask) <= 3
}

/// The mask picked by choice `sub` of the table's varying bits.
pub open spec fn choice_mask(table: Seq<char>, sub: u32) -> u32 {
    let positions = varying_bits_below(table, 32);
    mask_below(positions, sub, positions.len())
}

/// Whether choice `sub` gives an acceptable mask.
pub open spec fn good_choice(table: Seq<char>, sub: u32) -> bool {
    is_choice(sub, varying_bits_below(table, 32).len()) && acceptable(
        table,
        choice_mask(table, sub),
    )
}

/// How many of the low `n` bits of `sub` are set.
fn chosen_count(sub: u32, n: usize) -> (r: usize)
    requires
        n <= 32,
    ensures
        r == chosen_below(sub, n as nat),
{
    let mut r: usize = 0;
    let mut j: usize = 0;
    while j < n
        invariant
            j <= n <= 32,
            r == chosen_below(sub, j as nat),
            r <= j,
        decreases n - j,
    {
        if (sub >> j as u32) & 1 == 1 {
            r += 1;
        }
        j += 1;
    }
    r
}

/// The mask of the positions that `sub` picks.
fn mask_of(positions: &[u8], sub: u32) -> (r: u32)
    requires
        positions@.len() <= 32,
        forall|k: int| 0 <= k < positions@.len() ==> #[trigger] positions@[k] < 32,
    ensures
        r == mask_below(positions@, sub, positions@.len()),
{
    let mut r: u32 = 0;
    let mut j: usize = 0;
    while j < positions.len()
        invariant
            j <= positions@.len() <= 32,
            forall|k: int| 0 <= k < positions@.len() ==> #[trigger] positions@[k] < 32,
            r == mask_below(positions@, sub, j as nat),
        decreases positions@.len() - j,
    {
        let ghost prev = r;
        assert(prev == mask_below(positions@, sub, j as nat));
        if (sub >> j as u32) & 1 == 1 {
            r = r | (1u32 << positions[j] as u32);
        } else {
            assert(prev | 0u32 == prev) by (bit_vector);
        }
        assert(r == mask_below(positions@, sub, (j + 1) as nat));
        j += 1;
    }
    r
}

/// How many symbols agree with symbol `i` on the bits of `mask`.
fn group_of(table: &[char], mask: u32, i: usize) -> (r: usize)
    requires
        i < table@.len(),
    ensures
        r == group_size(table@, mask, i as int, table@.len()),
{
    let key = scalar_value(table[i]) & mask;
    let mut r: usize = 0;
    let mut j: usize = 0;
    while j < table.len()
        invariant
            i < table@.len(),
            j <= table@.len(),
            key == (table@[i as int] as u32) & mask,
            r == group_size(table@, mask, i as int, j as nat),
            r <= j,
        decreases table@.len() - j,
    {
        if scalar_value(table[j]) & mask == key {
            r += 1;
        }
        j += 1;
    }
    r
}

/// The size of the largest group of symbols agreeing on the bits of `mask`.
fn largest_group_of(table: &[char], mask: u32) -> (r: usize)
    ensures
        r == largest_group(table@, mask),
{
    let mut r: usize = 0;
    let mut i: usize = 0;
    while i < table.len()
        invariant
            i <= table@.len(),
            r == largest_group_below(table@, mask, i as nat),
        decreases table@.len() - i,
    {
        let g = group_of(table, mask, i);
        if g > r {
            r = g;
        }
        i += 1;
    }
    r
}

/// How many runs of consecutive set bits `mask` holds.
fn run_count(mask: u32) -> (r: usize)
    ensures
        r == runs_below(mask, 32),
{
    let mut r: usize = 0;
    let mut j: u32 = 0;
    while j < 32
        invariant
            j <= 32,
            r == runs_below(mask, j as nat),
            r <= j,
        decreases 32 - j,
    {
        if (mask >> j) & 1 == 1 && (j == 0 || (mask >> (j - 1)) & 1 != 1) {
            r += 1;
        }
        assert(r == runs_below(mask, (j + 1) as nat));
        j += 1;
    }
    r
}

/// The mask of seven of the table's varying bits that keeps its symbols at
/// most three to a group, ranked by fewest runs of set bits, then smallest
/// largest group, then smallest value. The table must have between seven and
/// sixteen varying bits; `None` where no choice of seven is acceptable.
pub fn find_mask(table: &[char]) -> (r: Option<u32>)
    requires
        table@.len() >= 1,
        7 <= varying_bits_below(table@, 32).len() <= 16,
    ensures
        r is None <==> forall|sub: u32| !#[trigger] good_choice(table@, sub),
        r matches Some(m) ==> exists|sub: u32|
            #[trigger] good_choice(table@, sub) && choice_mask(table@, sub) == m && forall|
                other: u32,
            |
                #[trigger] good_choice(table@, other) ==> !key_before(
                    mask_key(table@, choice_mask(table@, other)),
                    mask_key(table@, m),
                ),
{
    let bits = varying_bits(table);
    let positions = bit_list_slice(&bits);
    let n = positions.len();
    proof {
        lemma_varying_bits_len(table@, 32);
    }
    let end: u32 = 1u32 << n as u32;
    assert(end == pow2(n as nat)) by {
        lemma_shift_is_pow2(n as nat);
    }
    let mut best: Option<(u32, usize, usize)> = None;
    let ghost mut best_sub: u32 = 0;
    let mut sub: u32 = 0;
    while sub < end
        invariant
            sub <= end,
            end == pow2(n as nat),
            n <= 16,
            n == positions@.len(),
            positions@ == varying_bits_below(table@, 32),
            forall|k: int| 0 <= k < positions@.len() ==> #[trigger] positions@[k] < 32,
            best is None ==> forall|other: u32| other < sub ==> !#[trigger] good_choice(table@, other),
            best matches Some((m, rn, g)) ==> {
                &&& good_choice(table@, best_sub)
                &&& choice_mask(table@, best_sub) == m
                &&& mask_key(table@, m) == (rn as nat, g as nat, m)
                &&& forall|other: u32|
                    other < sub && #[trigger] good_choice(table@, other) ==> !key_before(
                        mask_key(table@, choice_mask(table@, other)),
                        mask_key(table@, m),
                    )
            },
        decreases end - sub,
    {
        if chosen_count(sub, n) == 7 {
            let m = mask_of(positions, sub);
            let g = largest_group_of(table, m);
            if g <= 3 {
                let rn = run_count(m);
                let replace = match best {
                    None => true,
                    Some((bm, brn, bg)) => rn < brn || (rn == brn && (g < bg || (g == bg && m
                        < bm))),
                };
                if replace {
                    best = Some((m, rn, g));
                    proof {
                        best_sub = sub;
                    }
                }
            }
        }
        sub += 1;
    }
    match best {
        None => None,
        Some((m, _, _)) => Some(m),
    }
}

/// Shifting 1 left by `n` gives `2` to the power `n`.
proof fn lemma_shift_is_pow2(n: nat)
    requires
        n <= 16,
    ensures
        1u32 << n as u32 == pow2(n),
    decreases n,
{
    if n > 0 {
        lemma_shift_is_pow2((n - 1) as nat);
        let k = (n - 1) as u32;
        assert(1u32 << (k + 1) == 2 * (1u32 << k)) by (bit_vector)
            requires
                k < 16,
        ;
    } else {
        assert(1u32 << 0u32 == 1) by (bit_vector);
    }
}

/// The smallest parameter of the run-time hash under which the table can be
/// laid out; `None` when no 16-bit parameter will do.
pub fn find_hash_param(table: &[char; 128]) -> (r: Option<u16>)
    ensures
        r matches Some(p) ==> buildable(table@, p) && forall|q: u16|
            q < p ==> !#[trigger] buildable(table@, q),
        r is None ==> forall|q: u16| !#[trigger] buildable(table@, q),
{
    let mut p: u32 = 0;
    while p <= 0xFFFF
        invariant
            p <= 0x1_0000,
            forall|q: u16| q < p ==> !#[trigger] buildable(table@, q),
        decreases 0x1_0000 - p,
    {
        if build(table, p as u16).is_some() {
            return Some(p as u16);
        }
        p += 1;
    }
    None
}

} // verus!
