//! Generation of the candidate space: every digit vector of a given length,
//! in ascending numeric order of its zero-padded decimal representation.

use vstd::arithmetic::div_mod::{
    lemma_div_basics, lemma_div_denominator, lemma_fundamental_div_mod_converse,
    lemma_mod_breakdown, lemma_small_mod,
};
use vstd::prelude::*;

verus! {

/// 10 to the `n`th power: the size of the candidate space for codes of
/// `n` digits.
pub open spec fn pow10(n: nat) -> nat
    decreases n,
{
    if n == 0 {
        1
    } else {
        10 * pow10((n - 1) as nat)
    }
}

/// The digits of `value` in base 10, most significant first, written into
/// exactly `len` slots (leading zeroes included, excess high digits cut off).
pub open spec fn spec_digits(value: nat, len: nat) -> Seq<u8>
    decreases len,
{
    if len == 0 {
        Seq::empty()
    } else {
        spec_digits(value / 10, (len - 1) as nat).push((value % 10) as u8)
    }
}

/// The numeric value of a digit vector, most significant digit first.
pub open spec fn spec_value(digits: Seq<u8>) -> nat
    decreases digits.len(),
{
    if digits.len() == 0 {
        0
    } else {
        spec_value(digits.drop_last()) * 10 + digits.last() as nat
    }
}

/// A digit vector of length `len`: one entry per code position, each a
/// decimal digit.
pub open spec fn is_digit_vector(s: Seq<u8>, len: nat) -> bool {
    s.len() == len && forall|k: int| 0 <= k < s.len() ==> s[k] < 10
}

pub proof fn lemma_pow10_increases(a: nat, b: nat)
    requires
        a <= b,
    ensures
        pow10(a) <= pow10(b),
    decreases b,
{
    if a < b {
        lemma_pow10_increases(a, (b - 1) as nat);
    }
}

/// Every slot that `spec_digits` writes is a decimal digit.
pub proof fn lemma_digits_are_digit_vector(value: nat, len: nat)
    ensures
        is_digit_vector(spec_digits(value, len), len),
    decreases len,
{
    if len > 0 {
        lemma_digits_are_digit_vector(value / 10, (len - 1) as nat);
    }
}

pub proof fn lemma_pow10_pos(n: nat)
    ensures
        pow10(n) >= 1,
    decreases n,
{
    if n > 0 {
        lemma_pow10_pos((n - 1) as nat);
    }
}

/// The digit that `spec_digits` writes into slot `k`: the `k`th digit of
/// `value` counted from the most significant of `len` slots.
pub proof fn lemma_digits_index(value: nat, len: nat, k: int)
    requires
        0 <= k < len,
    ensures
        spec_digits(value, len)[k] == ((value / pow10((len - 1 - k) as nat)) % 10) as u8,
    decreases len,
{
    lemma_digits_are_digit_vector(value / 10, (len - 1) as nat);
    if k == len - 1 {
        lemma_div_basics(value as int);
    } else {
        lemma_digits_index(value / 10, (len - 1) as nat, k);
        lemma_pow10_pos((len - 2 - k) as nat);
        lemma_div_denominator(value as int, 10, pow10((len - 2 - k) as nat) as int);
    }
}

/// Reading the digit vector of `value` back as a number recovers `value`,
/// cut down to the `len` slots that were written.
pub proof fn lemma_value_of_digits(value: nat, len: nat)
    ensures
        spec_value(spec_digits(value, len)) == value % pow10(len),
    decreases len,
{
    if len == 0 {
        assert(value % 1 == 0) by {
            lemma_small_mod(0, 1);
            lemma_mod_breakdown(value as int, 1, 1);
        }
    } else {
        let sub = spec_digits(value / 10, (len - 1) as nat);
        let digits = spec_digits(value, len);
        lemma_digits_are_digit_vector(value / 10, (len - 1) as nat);
        assert(digits.drop_last() =~= sub);
        lemma_value_of_digits(value / 10, (len - 1) as nat);
        lemma_pow10_pos((len - 1) as nat);
        lemma_mod_breakdown(value as int, 10, pow10((len - 1) as nat) as int);
    }
}

/// Within the candidate space, value and digit vector determine each other:
/// the digit vector of `value` reads back as exactly `value`.
pub proof fn lemma_digits_roundtrip(value: nat, len: nat)
    requires
        value < pow10(len),
    ensures
        spec_value(spec_digits(value, len)) == value,
{
    lemma_value_of_digits(value, len);
    lemma_small_mod(value, pow10(len));
}

/// Every digit vector is the digit vector of its own value, and that value
/// lies within the candidate space: nothing of the right shape is missed.
pub proof fn lemma_digits_of_value(s: Seq<u8>)
    requires
        forall|k: int| 0 <= k < s.len() ==> s[k] < 10,
    ensures
        spec_value(s) < pow10(s.len()),
        spec_digits(spec_value(s), s.len()) == s,
    decreases s.len(),
{
    if s.len() == 0 {
        assert(spec_digits(0, 0) =~= s);
    } else {
        let d = s.drop_last();
        lemma_digits_of_value(d);
        let v = spec_value(s);
        let vd = spec_value(d);
        assert(v == vd * 10 + s.last());
        lemma_fundamental_div_mod_converse(v as int, 10, vd as int, s.last() as int);
        assert(spec_digits(v, s.len()) =~= s);
    }
}

/// Law: the candidate space of length `len` — the digit vector of `i` at
/// position `i`, for `i` below `pow10(len)` — consists of digit vectors of
/// that length, in ascending numeric order (the vector at position `i` has
/// value `i`), without repetition, and covers every digit vector of the
/// length: each one occurs exactly at the position its value names.
pub proof fn lemma_candidate_space_exact(len: nat)
    ensures
        forall|i: nat| i < pow10(len) ==> is_digit_vector(#[trigger] spec_digits(i, len), len),
        forall|i: nat| i < pow10(len) ==> spec_value(#[trigger] spec_digits(i, len)) == i,
        forall|i: nat, j: nat|
            #![trigger spec_digits(i, len), spec_digits(j, len)]
            i < j < pow10(len) ==> spec_digits(i, len) != spec_digits(j, len),
        forall|s: Seq<u8>| #[trigger]
            is_digit_vector(s, len) ==> spec_value(s) < pow10(len) && spec_digits(
                spec_value(s),
                len,
            ) == s,
{
    assert forall|i: nat| i < pow10(len) implies is_digit_vector(
        #[trigger] spec_digits(i, len),
        len,
    ) by {
        lemma_digits_are_digit_vector(i, len);
    }
    assert forall|i: nat| i < pow10(len) implies spec_value(#[trigger] spec_digits(i, len))
        == i by {
        lemma_digits_roundtrip(i, len);
    }
    assert forall|i: nat, j: nat|
        #![trigger spec_digits(i, len), spec_digits(j, len)]
        i < j < pow10(len) implies spec_digits(i, len) != spec_digits(j, len) by {
        lemma_digits_roundtrip(i, len);
        lemma_digits_roundtrip(j, len);
    }
    assert forall|s: Seq<u8>| #[trigger]
        is_digit_vector(s, len) implies spec_value(s) < pow10(len) && spec_digits(
        spec_value(s),
        len,
    ) == s by {
        lemma_digits_of_value(s);
        assert(s.len() == len);
    }
}

/// Executable power of ten.
pub fn pow10_exec(n: usize) -> (r: usize)
    requires
        pow10(n as nat) <= usize::MAX,
    ensures
        r == pow10(n as nat),
{
    let mut p: usize = 1;
    let mut i: usize = 0;
    while i < n
        invariant
            i <= n,
            p == pow10(i as nat),
            pow10(n as nat) <= usize::MAX,
        decreases n - i,
    {
        proof {
            lemma_pow10_increases((i + 1) as nat, n as nat);
        }
        p = p * 10;
        i = i + 1;
    }
    p
}

/// A restartable generator of the candidate space: a counter runs from 0 up
/// to `10^length - 1` and each counter value is emitted as its digit vector.
pub struct CombinationGenerator {
    pub length: usize,
    pub count: usize,
}

impl CombinationGenerator {
    /// A fresh generator, starting at the all-zero candidate.
    pub fn new(length: usize) -> (r: CombinationGenerator)
        ensures
            r.length == length,
            r.count == 0,
    {
        CombinationGenerator { length: length, count: 0 }
    }

    /// The next candidate: the digit vector of the current counter value.
    /// Every slot is freshly written on every call, so no stale digit of an
    /// earlier, larger counter value can survive. `None` once the space is
    /// exhausted.
    pub fn next(&mut self) -> (r: Option<Vec<u8>>)
        requires
            pow10(old(self).length as nat) <= usize::MAX,
        ensures
            final(self).length == old(self).length,
            old(self).count < pow10(old(self).length as nat) ==> {
                &&& final(self).count == old(self).count + 1
                &&& r matches Some(v) && v@ == spec_digits(
                    old(self).count as nat,
                    old(self).length as nat,
                )
            },
            old(self).count >= pow10(old(self).length as nat) ==> r is None && final(self).count
                == old(self).count,
    {
        let limit = pow10_exec(self.length);
        if self.count >= limit {
            return None;
        }
        let mut ret_vec: Vec<u8> = Vec::new();
        let mut j: usize = 0;
        while j < self.length
            invariant
                j <= self.length,
                ret_vec@.len() == j,
            decreases self.length - j,
        {
            ret_vec.push(0);
            j = j + 1;
        }
        let ghost v = self.count as nat;
        let ghost len = self.length as nat;
        let mut count_copy: usize = self.count;
        let mut i: usize = self.length;
        proof {
            lemma_div_basics(v as int);
        }
        while i > 0
            invariant
                i <= self.length,
                ret_vec@.len() == self.length,
                len == self.length as nat,
                v == self.count as nat,
                count_copy as nat == v / pow10((len - i) as nat),
                forall|t: int| i <= t < self.length ==> ret_vec@[t] == spec_digits(v, len)[t],
            decreases i,
        {
            i = i - 1;
            let digit: u8 = (count_copy % 10) as u8;
            ret_vec.set(i, digit);
            proof {
                lemma_digits_index(v, len, i as int);
            }
            count_copy = count_copy / 10;
            proof {
                lemma_pow10_pos((len - 1 - i) as nat);
                lemma_div_denominator(v as int, pow10((len - 1 - i) as nat) as int, 10);
            }
        }
        self.count = self.count + 1;
        proof {
            lemma_digits_are_digit_vector(v, len);
            assert(ret_vec@ =~= spec_digits(v, len));
        }
        Some(ret_vec)
    }
}

} // verus!
