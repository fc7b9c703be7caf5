//! Exp-Golomb coding of unsigned and signed syntax elements, the
//! variable-length code used by H.264/H.265 parameter sets.
//!
//! An unsigned value `v` is coded as `k` zero bits followed by `v + 1` in
//! binary of width `k + 1`, where `k = floor(log2(v + 1))`.  A signed value
//! maps to an unsigned one first: `2v - 1` for positive `v`, `-2v` otherwise.

use vstd::prelude::*;

verus! {

use vstd::arithmetic::power2::pow2;
use vstd::arithmetic::power2::lemma_pow2_unfold;
use vstd::arithmetic::power2::lemma_pow2_pos;
use vstd::arithmetic::power2::lemma_pow2_strictly_increases;
use vstd::arithmetic::power2::lemma2_to64;
use vstd::arithmetic::div_mod::lemma_div_basics;
use vstd::arithmetic::div_mod::lemma_div_is_ordered;
use vstd::arithmetic::div_mod::lemma_div_denominator;
use vstd::arithmetic::div_mod::lemma_fundamental_div_mod_converse;
use crate::bitio::BitWriter;
use crate::bitio::bits_of_uint;
use crate::bitio::uint_of_bits;
use crate::bitio::lemma_bits_of_uint_len;
use crate::bitio::lemma_bits_of_uint_index;
use crate::bitio::lemma_uint_of_bits_of_uint;

/// Floor of the base-2 logarithm; 0 for inputs below 2.
pub open spec fn floor_log2(n: nat) -> nat
    decreases n,
{
    if n < 2 {
        0
    } else {
        1 + floor_log2(n / 2)
    }
}

/// `floor_log2` brackets its argument between two powers of two.
pub proof fn lemma_floor_log2(n: nat)
    requires
        n >= 1,
    ensures
        pow2(floor_log2(n)) <= n < pow2(floor_log2(n) + 1),
    decreases n,
{
    if n < 2 {
        lemma2_to64();
    } else {
        lemma_floor_log2(n / 2);
        let f = floor_log2(n / 2);
        lemma_pow2_unfold(f + 1);
        lemma_pow2_unfold(f + 2);
        assert(pow2(f + 1) == 2 * pow2(f));
        assert(2 * (n / 2) <= n < 2 * (n / 2) + 2);
    }
}

/// A string of `k` zero bits.
pub open spec fn zero_bits(k: nat) -> Seq<bool> {
    Seq::new(k, |i: int| false)
}

/// The exp-Golomb code word of an unsigned value.
pub open spec fn ue_bits(v: nat) -> Seq<bool> {
    let k = floor_log2(v + 1);
    zero_bits(k) + bits_of_uint(v + 1, k + 1)
}

/// The unsigned value that a signed exp-Golomb value is coded as.
pub open spec fn se_to_ue(v: int) -> nat {
    if v > 0 {
        (2 * v - 1) as nat
    } else {
        (-2 * v) as nat
    }
}

/// The signed value denoted by an unsigned exp-Golomb value.
pub open spec fn ue_to_se(u: nat) -> int {
    if u % 2 == 1 {
        ((u + 1) / 2) as int
    } else {
        -((u / 2) as int)
    }
}

/// The exp-Golomb code word of a signed value.
pub open spec fn se_bits(v: int) -> Seq<bool> {
    ue_bits(se_to_ue(v))
}

/// The signed-to-unsigned mapping is inverted by the unsigned-to-signed one.
pub proof fn lemma_se_to_ue_inverse(v: int)
    ensures
        ue_to_se(se_to_ue(v)) == v,
{
}

/// Zeros have all-false fixed-width bits.
pub proof fn lemma_bits_of_zero(k: nat)
    ensures
        bits_of_uint(0, k) == zero_bits(k),
    decreases k,
{
    broadcast use lemma_bits_of_uint_len;

    if k > 0 {
        lemma_bits_of_zero((k - 1) as nat);
        assert(bits_of_uint(0, k) =~= zero_bits(k));
    } else {
        assert(bits_of_uint(0, k) =~= zero_bits(k));
    }
}

/// Number of `false` bits at the front of a bit string.
pub open spec fn leading_zeros(s: Seq<bool>) -> nat
    decreases s.len(),
{
    if s.len() == 0 || s[0] {
        0
    } else {
        1 + leading_zeros(s.drop_first())
    }
}

/// `leading_zeros` is pinned by a true bit after `k` false ones.
pub proof fn lemma_leading_zeros_at(s: Seq<bool>, k: nat)
    requires
        k < s.len(),
        forall|i: int| 0 <= i < k ==> !s[i],
        s[k as int],
    ensures
        leading_zeros(s) == k,
    decreases k,
{
    if k > 0 {
        assert(forall|i: int| 0 <= i < k - 1 ==> !s.drop_first()[i]);
        assert(s.drop_first()[k - 1]);
        lemma_leading_zeros_at(s.drop_first(), (k - 1) as nat);
    }
}

/// An all-false string has only leading zeros.
pub proof fn lemma_leading_zeros_all(s: Seq<bool>)
    requires
        forall|i: int| 0 <= i < s.len() ==> !s[i],
    ensures
        leading_zeros(s) == s.len(),
    decreases s.len(),
{
    if s.len() > 0 {
        assert(forall|i: int| 0 <= i < s.drop_first().len() ==> !s.drop_first()[i]);
        lemma_leading_zeros_all(s.drop_first());
    }
}

/// A bit string begins with a decodable unsigned exp-Golomb code word.
pub open spec fn ue_decodable(s: Seq<bool>) -> bool {
    s.len() >= 2 * leading_zeros(s) + 1
}

/// Width of the unsigned exp-Golomb code word at the front of `s`.
pub open spec fn ue_width(s: Seq<bool>) -> nat {
    2 * leading_zeros(s) + 1
}

/// Value of the unsigned exp-Golomb code word at the front of `s`.
pub open spec fn ue_value(s: Seq<bool>) -> nat {
    let k = leading_zeros(s);
    (uint_of_bits(s.subrange(k as int, 2 * (k as int) + 1)) - 1) as nat
}

/// Append the unsigned exp-Golomb code of `data`.
pub fn ue(w: &mut BitWriter, data: u64)
    requires
        data < u64::MAX,
    ensures
        final(w)@ == old(w)@ + ue_bits(data as nat),
{
    broadcast use lemma_bits_of_uint_len;

    let x = data + 1;
    let mut k: u32 = 0;
    let mut t: u64 = x;
    proof {
        lemma2_to64();
        lemma_div_basics(x as int);
    }
    while t >= 2
        invariant
            1 <= t <= x,
            k <= 63,
            t as nat == (x as nat) / pow2(k as nat),
            floor_log2(x as nat) == k + floor_log2(t as nat),
        decreases t,
    {
        proof {
            lemma_pow2_pos(k as nat);
            lemma_pow2_unfold((k + 1) as nat);
            vstd::arithmetic::div_mod::lemma_fundamental_div_mod(x as int, pow2(k as nat) as int);
            vstd::arithmetic::mul::lemma_mul_inequality(2, t as int, pow2(k as nat) as int);
            assert(x as int >= 2 * pow2(k as nat));
            if k + 1 > 63 {
                lemma2_to64();
                lemma_pow2_unfold(65);
                if (k + 1) as nat > 65 {
                    lemma_pow2_strictly_increases(65, (k + 1) as nat);
                }
                assert(false);
            }
            lemma_div_denominator(x as int, pow2(k as nat) as int, 2);
            lemma_div_is_ordered(2, t as int, 2);
        }
        t = t / 2;
        k = k + 1;
    }
    proof {
        assert(t == 1);
        assert(floor_log2(x as nat) == k as nat);
        lemma_floor_log2(x as nat);
        lemma_pow2_pos(k as nat);
        lemma_bits_of_zero(k as nat);
    }
    w.write_bits(k, 0);
    w.write_bits(k + 1, x);
    proof {
        assert(final(w)@ =~= old(w)@ + ue_bits(data as nat));
    }
}

/// Append the signed exp-Golomb code of `data`.
pub fn se(w: &mut BitWriter, data: i64)
    requires
        i64::MIN < data,
    ensures
        final(w)@ == old(w)@ + se_bits(data as int),
{
    let mapped: u64 = if data > 0 {
        2 * (data as u64) - 1
    } else {
        2 * ((-data) as u64)
    };
    proof {
        assert(mapped as nat == se_to_ue(data as int));
    }
    ue(w, mapped);
}

/// The code word of an unsigned value decodes back to it; nothing read past
/// the code word, whatever follows.
pub proof fn lemma_ue_round_trip(v: nat, rest: Seq<bool>)
    requires
        v < 0x1_0000_0000,
    ensures
        ue_decodable(ue_bits(v) + rest),
        leading_zeros(ue_bits(v) + rest) == floor_log2(v + 1),
        ue_width(ue_bits(v) + rest) == ue_bits(v).len(),
        ue_value(ue_bits(v) + rest) == v,
{
    lemma_ue_round_trip_general(v, rest);
}

proof fn lemma_ue_round_trip_general(v: nat, rest: Seq<bool>)
    ensures
        ue_decodable(ue_bits(v) + rest),
        leading_zeros(ue_bits(v) + rest) == floor_log2(v + 1),
        ue_width(ue_bits(v) + rest) == ue_bits(v).len(),
        ue_value(ue_bits(v) + rest) == v,
{
    broadcast use lemma_bits_of_uint_len;

    let k = floor_log2(v + 1);
    let s = ue_bits(v) + rest;
    lemma_floor_log2(v + 1);
    lemma_pow2_pos(k);
    // the first value bit is the most significant bit of v + 1, which is set
    lemma_bits_of_uint_index(v + 1, k + 1, 0);
    lemma_pow2_unfold(k + 1);
    lemma_div_is_ordered(pow2(k) as int, (v + 1) as int, pow2(k) as int);
    lemma_div_basics(pow2(k) as int);
    lemma_div_is_ordered((v + 1) as int, 2 * pow2(k) - 1, pow2(k) as int);
    lemma_fundamental_div_mod_converse(2 * (pow2(k) as int) - 1, pow2(k) as int, 1, (pow2(k)
        - 1) as int);
    assert((v + 1) / pow2(k) == 1);
    assert(s[k as int]);
    assert(forall|i: int| 0 <= i < k ==> !s[i]);
    lemma_leading_zeros_at(s, k);
    assert(s.subrange(k as int, 2 * (k as int) + 1) =~= bits_of_uint(v + 1, k + 1));
    lemma_uint_of_bits_of_uint(v + 1, k + 1);
}

/// The code word of a signed value decodes back to it.
pub proof fn lemma_se_round_trip(v: int, rest: Seq<bool>)
    requires
        -0x8000_0000 <= v < 0x8000_0000,
    ensures
        ue_decodable(se_bits(v) + rest),
        ue_to_se(ue_value(se_bits(v) + rest)) == v,
{
    lemma_ue_round_trip_general(se_to_ue(v), rest);
    lemma_se_to_ue_inverse(v);
}

/// Decode the unsigned exp-Golomb code word at `pos`; yields the value and
/// the position just past the code word.  `None` when the bits at `pos` do
/// not hold a whole code word, or its width exceeds 64 value bits.
pub fn decode_ue(bits: &Vec<bool>, pos: usize) -> (r: Option<(u64, usize)>)
    requires
        pos <= bits@.len(),
    ensures
        ({
            let s = bits@.skip(pos as int);
            match r {
                Some(p) => ue_decodable(s) && leading_zeros(s) < 64 && p.0 == ue_value(s) && p.1
                    == pos + ue_width(s),
                None => !(ue_decodable(s) && leading_zeros(s) < 64),
            }
        }),
{
    broadcast use lemma_bits_of_uint_len;

    let ghost s = bits@.skip(pos as int);
    proof {
        assert(s.len() == bits@.len() - pos);
        assert(forall|i: int| 0 <= i < s.len() ==> s[i] == bits@[pos + i]);
    }
    let n = bits.len();
    let mut k: usize = 0;
    while pos + k < n && !bits[pos + k]
        invariant
            pos + k <= n,
            n == bits@.len(),
            pos <= n,
            s == bits@.skip(pos as int),
            s.len() == n - pos,
            forall|i: int| 0 <= i < s.len() ==> s[i] == bits@[pos + i],
            forall|i: int| 0 <= i < k ==> !s[i],
        decreases n - pos - k,
    {
        proof {
            assert(s[k as int] == bits@[pos + k as int]);
        }
        k = k + 1;
    }
    if pos + k == n {
        proof {
            lemma_leading_zeros_all(s);
        }
        return None;
    }
    proof {
        assert(s[k as int] == bits@[pos + k as int]);
        lemma_leading_zeros_at(s, k as nat);
    }
    if k >= 64 {
        return None;
    }
    if n - pos - k < k + 1 {
        return None;
    }
    let mut value: u64 = 0;
    let mut j: usize = 0;
    proof {
        lemma2_to64();
        assert(uint_of_bits(s.subrange(k as int, k as int)) == 0);
    }
    while j < k + 1
        invariant
            j <= k + 1,
            k < 64,
            pos + 2 * k + 1 <= n,
            n == bits@.len(),
            s == bits@.skip(pos as int),
            s.len() == n - pos,
            forall|i: int| 0 <= i < s.len() ==> s[i] == bits@[pos + i],
            value as nat == uint_of_bits(s.subrange(k as int, (k + j) as int)),
            (value as nat) < pow2(j as nat),
        decreases k + 1 - j,
    {
        proof {
            assert(s[(k + j) as int] == bits@[(pos + k + j) as int]);
            lemma_pow2_unfold((j + 1) as nat);
            let chunk = s.subrange(k as int, (k + j + 1) as int);
            assert(chunk.drop_last() =~= s.subrange(k as int, (k + j) as int));
            assert(uint_of_bits(chunk) == 2 * (value as nat) + (if s[(k + j) as int] {
                1nat
            } else {
                0nat
            }));
            lemma2_to64();
            if j + 1 < 64 {
                lemma_pow2_strictly_increases((j + 1) as nat, 64);
            }
        }
        let b = bits[pos + k + j];
        value = value * 2 + (if b {
            1
        } else {
            0
        });
        j = j + 1;
    }
    proof {
        let chunk = s.subrange(k as int, (2 * k + 1) as int);
        assert(chunk[0] == s[k as int]);
        assert(value as nat == uint_of_bits(chunk));
        if value == 0 {
            lemma_uint_zero_all_false(chunk);
            assert(!s[k as int]);
            assert(false);
        }
    }
    Some((value - 1, pos + 2 * k + 1))
}

/// A bit string of value zero has no set bit.
proof fn lemma_uint_zero_all_false(s: Seq<bool>)
    requires
        uint_of_bits(s) == 0,
    ensures
        forall|i: int| 0 <= i < s.len() ==> !s[i],
    decreases s.len(),
{
    if s.len() > 0 {
        assert(uint_of_bits(s.drop_last()) == 0);
        lemma_uint_zero_all_false(s.drop_last());
        assert(!s.last());
        assert(forall|i: int|
            0 <= i < s.len() ==> s[i] == (if i < s.len() - 1 {
                s.drop_last()[i]
            } else {
                s.last()
            }));
    }
}

/// Decode the signed exp-Golomb code word at `pos`.  `None` when no whole
/// code word is present or the decoded value leaves the `i64` range.
pub fn decode_se(bits: &Vec<bool>, pos: usize) -> (r: Option<(i64, usize)>)
    requires
        pos <= bits@.len(),
    ensures
        ({
            let s = bits@.skip(pos as int);
            match r {
                Some(p) => ue_decodable(s) && leading_zeros(s) < 64 && p.0 == ue_to_se(
                    ue_value(s),
                ) && p.1 == pos + ue_width(s),
                None => !(ue_decodable(s) && leading_zeros(s) < 64 && i64::MIN <= ue_to_se(
                    ue_value(s),
                ) <= i64::MAX),
            }
        }),
{
    match decode_ue(bits, pos) {
        None => None,
        Some(p) => {
            let u = p.0;
            if u % 2 == 1 {
                if u / 2 >= 0x7FFF_FFFF_FFFF_FFFF {
                    return None;
                }
                Some(((u / 2 + 1) as i64, p.1))
            } else {
                Some((-((u / 2) as i64), p.1))
            }
        },
    }
}

} // verus!
