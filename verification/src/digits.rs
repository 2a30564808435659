//! Decimal digit strings of non-negative magnitudes, and their grouping
//! into three-digit runs (one run per power-of-1000 scale position).

use vstd::prelude::*;

verus! {

/// 10 raised to `k`.
pub open spec fn pow10(k: nat) -> nat
    decreases k,
{
    if k == 0 {
        1
    } else {
        10 * pow10((k - 1) as nat)
    }
}

/// The ASCII decimal digits of `n`, most significant first, with no
/// leading zeros; the value 0 is the single digit `"0"`.
pub open spec fn digits_ascii(n: nat) -> Seq<u8>
    decreases n,
{
    if n < 10 {
        seq![(n + 48) as u8]
    } else {
        digits_ascii(n / 10) + seq![(n % 10 + 48) as u8]
    }
}

/// How many zero digits the grouper prepends so that the digit count
/// becomes a multiple of three.
pub open spec fn pad_len(n: nat) -> nat {
    ((3 - digits_ascii(n).len() % 3) % 3) as nat
}

/// The digit string of `n` after left-zero-padding to a multiple of three.
pub open spec fn padded_digits(n: nat) -> Seq<u8> {
    Seq::new(pad_len(n), |i| 48u8) + digits_ascii(n)
}

/// How many three-digit groups the padded digit string of `n` holds.
pub open spec fn group_count(n: nat) -> nat {
    padded_digits(n).len() / 3
}

/// The three digits of `n` at scale position `p` (position 0 is the
/// units group, nearest the decimal point), most significant first.
pub open spec fn group_digits(n: nat, p: nat) -> Seq<u8> {
    padded_digits(n).subrange(
        padded_digits(n).len() - 3 * p - 3,
        padded_digits(n).len() - 3 * p,
    )
}

/// The concatenation of the groups of `n` at positions `k-1` down to `0`,
/// most significant group first.
pub open spec fn groups_concat(n: nat, k: nat) -> Seq<u8>
    decreases k,
{
    if k == 0 {
        Seq::empty()
    } else {
        group_digits(n, (k - 1) as nat) + groups_concat(n, (k - 1) as nat)
    }
}

/// Every digit that `digits_ascii` yields is an ASCII decimal digit.
pub proof fn lemma_digits_are_ascii(n: nat)
    ensures
        digits_ascii(n).len() >= 1,
        forall|i: int|
            0 <= i < digits_ascii(n).len() ==> 48 <= #[trigger] digits_ascii(n)[i] <= 57,
    decreases n,
{
    if n >= 10 {
        lemma_digits_are_ascii(n / 10);
    }
}

/// A magnitude below `pow10(k)` has at most `k` digits.
pub proof fn lemma_digits_len_bound(n: nat, k: nat)
    requires
        k >= 1,
        n < pow10(k),
    ensures
        digits_ascii(n).len() <= k,
    decreases k,
{
    if n >= 10 {
        assert(pow10(k) == 10 * pow10((k - 1) as nat));
        lemma_digits_len_bound(n / 10, (k - 1) as nat);
    }
}

/// The padded digit string has length `3 * group_count(n)`.
pub proof fn lemma_padded_len(n: nat)
    ensures
        padded_digits(n).len() % 3 == 0,
        padded_digits(n).len() == 3 * group_count(n),
        padded_digits(n).len() >= 3,
{
    lemma_digits_are_ascii(n);
}

/// Any value that fits in 128 bits has at most 39 decimal digits, so its
/// padded digit string has at most 13 groups (scale positions 0 to 12).
pub proof fn lemma_u128_digits_fit(n: nat)
    requires
        n < 0x100000000000000000000000000000000,
    ensures
        digits_ascii(n).len() <= 39,
        padded_digits(n).len() <= 39,
        group_count(n) <= 13,
{
    assert(pow10(39) == 1000000000000000000000000000000000000000) by {
        reveal_with_fuel(pow10, 40);
    }
    lemma_digits_len_bound(n, 39);
    lemma_padded_len(n);
}

proof fn lemma_groups_concat_subrange(n: nat, k: nat)
    requires
        k <= group_count(n),
    ensures
        groups_concat(n, k) =~= padded_digits(n).subrange(
            padded_digits(n).len() - 3 * k,
            padded_digits(n).len() as int,
        ),
    decreases k,
{
    lemma_padded_len(n);
    if k > 0 {
        lemma_groups_concat_subrange(n, (k - 1) as nat);
    }
}

/// Grouping round-trip: concatenating the groups of `n` from the most
/// significant down to position 0 restores the padded digit string, and
/// dropping the pad restores the canonical decimal representation of `n`.
pub proof fn lemma_grouping_round_trip(n: nat)
    ensures
        groups_concat(n, group_count(n)) == padded_digits(n),
        groups_concat(n, group_count(n)).skip(pad_len(n) as int) == digits_ascii(n),
{
    lemma_padded_len(n);
    lemma_groups_concat_subrange(n, group_count(n));
    assert(groups_concat(n, group_count(n)) =~= padded_digits(n));
    assert(padded_digits(n).skip(pad_len(n) as int) =~= digits_ascii(n));
}

/// The ASCII decimal digits of `n`, most significant first.
pub fn u128_digits(n: u128) -> (r: Vec<u8>)
    ensures
        r@ == digits_ascii(n as nat),
{
    let mut rev: Vec<u8> = Vec::new();
    let mut m: u128 = n;
    rev.push((m % 10) as u8 + 48);
    m = m / 10;
    while m > 0
        invariant
            m > 0 ==> digits_ascii(n as nat) == digits_ascii(m as nat) + rev@.reverse(),
            m == 0 ==> digits_ascii(n as nat) == rev@.reverse(),
            rev@.len() >= 1,
        decreases m,
    {
        let d: u8 = (m % 10) as u8 + 48;
        let ghost old_rev = rev@;
        let ghost old_m = m as nat;
        rev.push(d);
        m = m / 10;
        proof {
            assert(rev@.reverse() =~= seq![d] + old_rev.reverse());
            if old_m < 10 {
                assert(digits_ascii(old_m) == seq![d]);
            } else {
                assert(digits_ascii(old_m) == digits_ascii(old_m / 10) + seq![d]);
                assert(digits_ascii(old_m / 10) + rev@.reverse() =~= digits_ascii(
                    old_m / 10,
                ) + (seq![d] + old_rev.reverse()));
            }
        }
    }
    let mut r: Vec<u8> = Vec::new();
    let mut i: usize = rev.len();
    while i > 0
        invariant
            i <= rev.len(),
            digits_ascii(n as nat) == rev@.reverse(),
            r@ =~= rev@.reverse().subrange(0, r.len() as int),
            r.len() + i == rev.len(),
        decreases i,
    {
        i = i - 1;
        let d = rev[i];
        r.push(d);
        proof {
            assert(rev@.reverse()[r@.len() - 1] == rev@[i as int]);
            assert(r@ =~= rev@.reverse().subrange(0, r.len() as int));
        }
    }
    proof {
        assert(r@ =~= digits_ascii(n as nat));
    }
    r
}

/// The padded digit string of `n`: left-zero-padded to a multiple of three.
pub fn u128_padded_digits(n: u128) -> (r: Vec<u8>)
    ensures
        r@ == padded_digits(n as nat),
        r@.len() == 3 * group_count(n as nat),
        r@.len() <= 39,
{
    proof {
        lemma_u128_digits_fit(n as nat);
        lemma_padded_len(n as nat);
    }
    let ds = u128_digits(n);
    let mut r: Vec<u8> = Vec::new();
    let rem: usize = ds.len() % 3;
    if rem == 1 {
        r.push(48);
        r.push(48);
    } else if rem == 2 {
        r.push(48);
    }
    let mut i: usize = 0;
    while i < ds.len()
        invariant
            i <= ds.len(),
            ds@ == digits_ascii(n as nat),
            r@ =~= Seq::new(pad_len(n as nat), |j| 48u8) + ds@.subrange(0, i as int),
        decreases ds.len() - i,
    {
        let d = ds[i];
        r.push(d);
        i = i + 1;
        proof {
            assert(r@ =~= Seq::new(pad_len(n as nat), |j| 48u8) + ds@.subrange(0, i as int));
        }
    }
    proof {
        assert(ds@.subrange(0, ds@.len() as int) =~= ds@);
        assert(r@ =~= padded_digits(n as nat));
    }
    r
}

} // verus!
