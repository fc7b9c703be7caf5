//! Bit-granular output buffer for NAL-unit emission.
//!
//! A `BitWriter` collects single bits most-significant-bit first and packs
//! them into bytes once the stream is byte-aligned.  Its view is the sequence
//! of bits written so far.

use vstd::prelude::*;

verus! {

use vstd::arithmetic::power2::pow2;
use vstd::arithmetic::power2::lemma_pow2_unfold;
use vstd::arithmetic::power2::lemma_pow2_pos;
use vstd::arithmetic::power2::lemma2_to64;
use vstd::arithmetic::div_mod::lemma_div_denominator;
use vstd::bits::lemma_u64_shr_is_div;

/// The bits of `v` in `w`-bit fixed-width binary, most-significant bit first.
pub open spec fn bits_of_uint(v: nat, w: nat) -> Seq<bool>
    decreases w,
{
    if w == 0 {
        Seq::empty()
    } else {
        bits_of_uint(v / 2, (w - 1) as nat).push(v % 2 == 1)
    }
}

/// The unsigned value of a bit string read most-significant bit first.
pub open spec fn uint_of_bits(s: Seq<bool>) -> nat
    decreases s.len(),
{
    if s.len() == 0 {
        0
    } else {
        2 * uint_of_bits(s.drop_last()) + (if s.last() {
            1nat
        } else {
            0nat
        })
    }
}

/// The bit stream denoted by a byte string, each byte most-significant bit
/// first.
pub open spec fn bytes_to_bits(s: Seq<u8>) -> Seq<bool>
    decreases s.len(),
{
    if s.len() == 0 {
        Seq::empty()
    } else {
        bytes_to_bits(s.drop_last()) + bits_of_uint(s.last() as nat, 8)
    }
}

/// Fixed-width bit strings have their width.
pub broadcast proof fn lemma_bits_of_uint_len(v: nat, w: nat)
    ensures
        (#[trigger] bits_of_uint(v, w)).len() == w,
    decreases w,
{
    if w > 0 {
        lemma_bits_of_uint_len(v / 2, (w - 1) as nat);
    }
}

/// A byte string's bit stream has eight bits per byte.
pub broadcast proof fn lemma_bytes_to_bits_len(s: Seq<u8>)
    ensures
        (#[trigger] bytes_to_bits(s)).len() == 8 * s.len(),
    decreases s.len(),
{
    broadcast use lemma_bits_of_uint_len;

    if s.len() > 0 {
        lemma_bytes_to_bits_len(s.drop_last());
    }
}

/// Reading back the fixed-width bits of a value yields the value.
pub proof fn lemma_uint_of_bits_of_uint(v: nat, w: nat)
    requires
        v < pow2(w),
    ensures
        uint_of_bits(bits_of_uint(v, w)) == v,
    decreases w,
{
    broadcast use lemma_bits_of_uint_len;

    if w == 0 {
        lemma2_to64();
    } else {
        lemma_pow2_unfold(w);
        assert(v / 2 < pow2((w - 1) as nat));
        lemma_uint_of_bits_of_uint(v / 2, (w - 1) as nat);
        let s = bits_of_uint(v, w);
        assert(s.drop_last() =~= bits_of_uint(v / 2, (w - 1) as nat));
        assert(uint_of_bits(s) == 2 * (v / 2) + (if v % 2 == 1 {
            1nat
        } else {
            0nat
        }));
    }
}

/// A bit string is recovered from its value and its length.
pub proof fn lemma_bits_of_uint_of_bits(s: Seq<bool>)
    ensures
        bits_of_uint(uint_of_bits(s), s.len()) == s,
    decreases s.len(),
{
    broadcast use lemma_bits_of_uint_len;

    if s.len() > 0 {
        lemma_bits_of_uint_of_bits(s.drop_last());
        let v = uint_of_bits(s);
        let b: nat = if s.last() {
            1
        } else {
            0
        };
        assert(v == 2 * uint_of_bits(s.drop_last()) + b);
        assert(v / 2 == uint_of_bits(s.drop_last()) && v % 2 == b);
        assert(bits_of_uint(v, s.len()) =~= s);
    }
}

/// The value of a bit string fits in its width.
pub proof fn lemma_uint_of_bits_bound(s: Seq<bool>)
    ensures
        uint_of_bits(s) < pow2(s.len()),
    decreases s.len(),
{
    if s.len() == 0 {
        lemma2_to64();
    } else {
        lemma_uint_of_bits_bound(s.drop_last());
        lemma_pow2_unfold(s.len());
    }
}

/// Appending one byte appends its eight bits.
pub proof fn lemma_bytes_to_bits_push(s: Seq<u8>, b: u8)
    ensures
        bytes_to_bits(s.push(b)) == bytes_to_bits(s) + bits_of_uint(b as nat, 8),
{
    assert(s.push(b).drop_last() =~= s);
}

/// Byte `k` of a packed byte string carries exactly bits `8k..8k+8` of its
/// bit stream.
pub proof fn lemma_bytes_to_bits_index(s: Seq<u8>, k: int)
    requires
        0 <= k < s.len(),
    ensures
        bits_of_uint(s[k] as nat, 8) == bytes_to_bits(s).subrange(8 * k, 8 * k + 8),
        s[k] as nat == uint_of_bits(bytes_to_bits(s).subrange(8 * k, 8 * k + 8)),
    decreases s.len(),
{
    broadcast use lemma_bits_of_uint_len;
    broadcast use lemma_bytes_to_bits_len;

    if k == s.len() - 1 {
        assert(bytes_to_bits(s).subrange(8 * k, 8 * k + 8) =~= bits_of_uint(s[k] as nat, 8));
    } else {
        lemma_bytes_to_bits_index(s.drop_last(), k);
        assert(bytes_to_bits(s).subrange(8 * k, 8 * k + 8) =~= bytes_to_bits(
            s.drop_last(),
        ).subrange(8 * k, 8 * k + 8));
    }
    lemma2_to64();
    lemma_uint_of_bits_of_uint(s[k] as nat, 8);
}

/// Bit `i` of a fixed-width bit string, as a quotient of the value.
pub proof fn lemma_bits_of_uint_index(v: nat, w: nat, i: int)
    requires
        0 <= i < w,
    ensures
        bits_of_uint(v, w)[i] == (v / pow2((w - 1 - i) as nat) % 2 == 1),
    decreases w,
{
    broadcast use lemma_bits_of_uint_len;

    if i == w - 1 {
        lemma2_to64();
        assert(pow2(0) == 1);
        vstd::arithmetic::div_mod::lemma_div_basics(v as int);
        assert(v / 1 == v);
        assert(bits_of_uint(v, w)[i] == (v % 2 == 1));
    } else {
        lemma_bits_of_uint_index(v / 2, (w - 1) as nat, i);
        lemma_pow2_unfold((w - 1 - i) as nat);
        lemma_pow2_pos((w - 2 - i) as nat);
        lemma_div_denominator(v as int, 2, pow2((w - 2 - i) as nat) as int);
        assert(v / 2 / pow2((w - 2 - i) as nat) == v / pow2((w - 1 - i) as nat));
    }
}

/// Number of zero bits that byte alignment appends after `n` bits.
pub open spec fn pad_len(n: nat) -> nat {
    ((8 - n % 8) % 8) as nat
}

/// The bytes that a byte-aligned bit stream packs into.
pub open spec fn bytes_of_bits(s: Seq<bool>) -> Seq<u8>
    decreases s.len(),
{
    if s.len() < 8 {
        Seq::empty()
    } else {
        seq![uint_of_bits(s.take(8)) as u8] + bytes_of_bits(s.skip(8))
    }
}

/// Byte strings with the same bit stream are the same.
pub proof fn lemma_bytes_to_bits_injective(a: Seq<u8>, b: Seq<u8>)
    requires
        a.len() == b.len(),
        bytes_to_bits(a) == bytes_to_bits(b),
    ensures
        a == b,
{
    assert forall|k: int| 0 <= k < a.len() implies a[k] == b[k] by {
        lemma_bytes_to_bits_index(a, k);
        lemma_bytes_to_bits_index(b, k);
    }
    assert(a =~= b);
}

/// Packing a byte-aligned bit stream and reading it back is the identity.
pub proof fn lemma_bytes_of_bits_to_bits(s: Seq<bool>)
    requires
        s.len() % 8 == 0,
    ensures
        bytes_to_bits(bytes_of_bits(s)) == s,
        8 * bytes_of_bits(s).len() == s.len(),
    decreases s.len(),
{
    broadcast use lemma_bits_of_uint_len;
    broadcast use lemma_bytes_to_bits_len;

    if s.len() == 0 {
        assert(bytes_to_bits(bytes_of_bits(s)) =~= s);
    } else {
        assert(s.len() >= 8);
        let head = s.take(8);
        let tail = s.skip(8);
        assert(tail.len() % 8 == 0);
        lemma_bytes_of_bits_to_bits(tail);
        let hb = uint_of_bits(head) as u8;
        lemma_uint_of_bits_bound(head);
        lemma2_to64();
        lemma_bits_of_uint_of_bits(head);
        assert(bits_of_uint(hb as nat, 8) == head);
        let packed = bytes_of_bits(s);
        assert(packed == seq![hb] + bytes_of_bits(tail));
        lemma_bytes_to_bits_concat(seq![hb], bytes_of_bits(tail));
        assert(bytes_to_bits(seq![hb]) =~= bits_of_uint(hb as nat, 8));
        assert(bytes_to_bits(packed) =~= s);
    }
}

/// The bit stream of concatenated byte strings is the concatenation of their
/// bit streams.
pub proof fn lemma_bytes_to_bits_concat(a: Seq<u8>, b: Seq<u8>)
    ensures
        bytes_to_bits(a + b) == bytes_to_bits(a) + bytes_to_bits(b),
    decreases b.len(),
{
    if b.len() == 0 {
        assert(a + b =~= a);
        assert(bytes_to_bits(a) + bytes_to_bits(b) =~= bytes_to_bits(a));
    } else {
        lemma_bytes_to_bits_concat(a, b.drop_last());
        assert((a + b).drop_last() =~= a + b.drop_last());
        assert((a + b).last() == b.last());
        assert(bytes_to_bits(a) + bytes_to_bits(b) =~= bytes_to_bits(a) + (bytes_to_bits(
            b.drop_last(),
        ) + bits_of_uint(b.last() as nat, 8)));
    }
}

/// Collects bits most-significant-bit first; `finish` packs them into bytes.
pub struct BitWriter {
    bits: Vec<bool>,
}

impl View for BitWriter {
    type V = Seq<bool>;

    closed spec fn view(&self) -> Seq<bool> {
        self.bits@
    }
}

impl BitWriter {
    pub fn new() -> (r: BitWriter)
        ensures
            r@ == Seq::<bool>::empty(),
    {
        BitWriter { bits: Vec::new() }
    }

    pub fn len(&self) -> (r: usize)
        ensures
            r == self@.len(),
    {
        self.bits.len()
    }

    pub fn write_bit(&mut self, b: bool)
        ensures
            final(self)@ == old(self)@.push(b),
    {
        self.bits.push(b);
    }

    /// Append `value` as `width` bits, most-significant bit first.
    pub fn write_bits(&mut self, width: u32, value: u64)
        requires
            width <= 64,
            value < pow2(width as nat),
        ensures
            final(self)@ == old(self)@ + bits_of_uint(value as nat, width as nat),
    {
        broadcast use lemma_bits_of_uint_len;

        let mut i: u32 = 0;
        proof {
            lemma2_to64();
            assert(old(self)@ + bits_of_uint((value as nat) / pow2((width - i) as nat), i as nat)
                =~= old(self)@);
        }
        while i < width
            invariant
                i <= width <= 64,
                value < pow2(width as nat),
                self@ == old(self)@ + bits_of_uint(
                    (value as nat) / pow2((width - i) as nat),
                    i as nat,
                ),
            decreases width - i,
        {
            let shift: u32 = width - 1 - i;
            let bit = ((value >> (shift as u64)) & 1) == 1;
            proof {
                lemma_u64_shr_is_div(value, shift as u64);
                let q = (value as nat) / pow2(shift as nat);
                assert((value >> (shift as u64)) & 1 == (value >> (shift as u64)) % 2)
                    by (bit_vector);
                assert(bit == (q % 2 == 1));
                lemma_pow2_unfold((width - i) as nat);
                lemma_pow2_pos(shift as nat);
                lemma_div_denominator(value as int, pow2(shift as nat) as int, 2);
                assert(q / 2 == (value as nat) / pow2((width - i) as nat));
                assert(bits_of_uint(q, (i + 1) as nat) == bits_of_uint(q / 2, i as nat).push(
                    q % 2 == 1,
                ));
                assert((old(self)@ + bits_of_uint(q / 2, i as nat)).push(bit) =~= old(self)@
                    + bits_of_uint(q, (i + 1) as nat));
            }
            self.write_bit(bit);
            i = i + 1;
        }
        proof {
            lemma2_to64();
            vstd::arithmetic::div_mod::lemma_div_basics(value as int);
            assert((value as nat) / 1 == value as nat);
            assert(self@ =~= old(self)@ + bits_of_uint(value as nat, width as nat));
        }
    }

    /// Pad with zero bits to the next byte boundary.
    pub fn byte_align(&mut self)
        ensures
            final(self)@.len() % 8 == 0,
            final(self)@ == old(self)@ + Seq::new(pad_len(old(self)@.len()), |i: int| false),
    {
        let n = self.bits.len();
        let pad = (8 - n % 8) % 8;
        let mut k: usize = 0;
        while k < pad
            invariant
                pad < 8,
                k <= pad,
                self@.len() == n + k,
                old(self)@.is_prefix_of(self@),
                n == old(self)@.len(),
                pad == (8 - n % 8) % 8,
                forall|i: int| n <= i < self@.len() ==> self@[i] == false,
            decreases pad - k,
        {
            self.bits.push(false);
            k = k + 1;
        }
        proof {
            vstd::arithmetic::div_mod::lemma_fundamental_div_mod(n as int, 8);
            vstd::arithmetic::mul::lemma_mul_is_distributive_add(8, (n as int) / 8, 1);
            if n % 8 == 0 {
                assert((n + pad) % 8 == 0);
            } else {
                assert(n + pad == 8 * ((n as int) / 8 + 1));
                vstd::arithmetic::div_mod::lemma_mod_multiples_basic((n as int) / 8 + 1, 8);
            }
            assert(self@ =~= old(self)@ + Seq::new(pad_len(old(self)@.len()), |i: int| false));
        }
    }

    /// Pack the aligned bit stream into bytes, most-significant bit first.
    pub fn finish(&self) -> (r: Vec<u8>)
        requires
            self@.len() % 8 == 0,
        ensures
            bytes_to_bits(r@) == self@,
            r@ == bytes_of_bits(self@),
            8 * r@.len() == self@.len(),
    {
        broadcast use lemma_bits_of_uint_len;
        broadcast use lemma_bytes_to_bits_len;

        let n = self.bits.len();
        let nb = n / 8;
        proof {
            vstd::arithmetic::div_mod::lemma_fundamental_div_mod(n as int, 8);
            assert(n == 8 * nb);
            assert(bytes_to_bits(Seq::<u8>::empty()) =~= self@.subrange(0, 0));
        }
        let mut out: Vec<u8> = Vec::new();
        let mut bi: usize = 0;
        while bi < nb
            invariant
                n == self@.len(),
                n == 8 * nb,
                bi <= nb,
                bytes_to_bits(out@) == self@.subrange(0, 8 * bi),
                out@.len() == bi,
            decreases nb - bi,
        {
            let base = bi * 8;
            assert(base + 8 <= n);
            let mut byte: u8 = 0;
            let mut j: usize = 0;
            proof {
                lemma2_to64();
                assert(uint_of_bits(self@.subrange(base as int, base as int)) == 0);
            }
            while j < 8
                invariant
                    j <= 8,
                    base + 8 <= n,
                    base == 8 * bi,
                    n == self@.len(),
                    byte as nat == uint_of_bits(self@.subrange(base as int, (base + j) as int)),
                    (byte as nat) < pow2(j as nat),
                decreases 8 - j,
            {
                proof {
                    lemma_pow2_unfold((j + 1) as nat);
                    let chunk = self@.subrange(base as int, (base + j + 1) as int);
                    assert(chunk.drop_last() =~= self@.subrange(base as int, (base + j) as int));
                    assert(uint_of_bits(chunk) == 2 * (byte as nat) + (if self@[(base + j) as int] {
                        1nat
                    } else {
                        0nat
                    }));
                    lemma2_to64();
                    if j + 1 < 8 {
                        vstd::arithmetic::power2::lemma_pow2_strictly_increases((j + 1) as nat, 8);
                    }
                }
                let b = self.bits[base + j];
                byte = byte * 2 + (if b {
                    1
                } else {
                    0
                });
                j = j + 1;
            }
            proof {
                let chunk = self@.subrange(base as int, (base + 8) as int);
                lemma_bits_of_uint_len(byte as nat, 8);
                lemma_bits_of_uint_of_bits(chunk);
                lemma_bytes_to_bits_push(out@, byte as u8);
                assert(self@.subrange(0, base as int) + chunk =~= self@.subrange(
                    0,
                    (base + 8) as int,
                ));
            }
            out.push(byte);
            bi = bi + 1;
        }
        proof {
            assert(self@.subrange(0, 8 * nb) =~= self@);
            lemma_bytes_of_bits_to_bits(self@);
            lemma_bytes_to_bits_injective(out@, bytes_of_bits(self@));
        }
        out
    }
}

/// Unpack a byte string into its bit stream, most-significant bit first.
pub fn bytes_to_bit_vec(bytes: &Vec<u8>) -> (r: Vec<bool>)
    ensures
        r@ == bytes_to_bits(bytes@),
{
    broadcast use lemma_bits_of_uint_len;
    broadcast use lemma_bytes_to_bits_len;

    let mut r: Vec<bool> = Vec::new();
    let mut i: usize = 0;
    proof {
        assert(bytes_to_bits(bytes@.subrange(0, 0)) =~= Seq::<bool>::empty());
    }
    while i < bytes.len()
        invariant
            i <= bytes@.len(),
            r@ == bytes_to_bits(bytes@.subrange(0, i as int)),
        decreases bytes@.len() - i,
    {
        let byte = bytes[i];
        let mut j: u32 = 0;
        while j < 8
            invariant
                j <= 8,
                i < bytes@.len(),
                byte == bytes@[i as int],
                r@ == bytes_to_bits(bytes@.subrange(0, i as int)) + bits_of_uint(
                    byte as nat,
                    8,
                ).subrange(0, j as int),
            decreases 8 - j,
        {
            let shift: u8 = (7 - j) as u8;
            let bit = ((byte >> shift) & 1) == 1;
            proof {
                lemma_bits_of_uint_len(byte as nat, 8);
                vstd::bits::lemma_u8_shr_is_div(byte, shift);
                let sh = byte >> shift;
                assert(sh & 1 == sh % 2) by (bit_vector);
                assert(bit == ((byte as nat) / pow2(shift as nat) % 2 == 1));
                lemma_bits_of_uint_index(byte as nat, 8, j as int);
                assert(bits_of_uint(byte as nat, 8)[j as int] == bit);
                assert(bits_of_uint(byte as nat, 8).subrange(0, j as int).push(bit)
                    =~= bits_of_uint(byte as nat, 8).subrange(0, (j + 1) as int));
            }
            r.push(bit);
            j = j + 1;
        }
        proof {
            lemma_bits_of_uint_len(byte as nat, 8);
            assert(bits_of_uint(byte as nat, 8).subrange(0, 8) =~= bits_of_uint(byte as nat, 8));
            assert(bytes@.subrange(0, (i + 1) as int).drop_last() =~= bytes@.subrange(
                0,
                i as int,
            ));
            assert(bytes_to_bits(bytes@.subrange(0, (i + 1) as int)) == bytes_to_bits(
                bytes@.subrange(0, i as int),
            ) + bits_of_uint(byte as nat, 8));
        }
        i = i + 1;
    }
    proof {
        assert(bytes@.subrange(0, bytes@.len() as int) =~= bytes@);
    }
    r
}

} // verus!
