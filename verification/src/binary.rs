//! A 256-bit little-endian bit container used to commit a 100-cell board
//! placement. Bit `i` of the container corresponds to board cell `i`
//! (row-major). The merge (`zip`) operation combines two placements and is
//! only defined when no cell is set in both: ships may not overlap.

use vstd::prelude::*;

use vstd::arithmetic::power2::pow2;

verus! {

/// True when bit `i` (0-based, little-endian) of `limb` is set. Meaningful
/// for `0 <= i < 64`.
pub open spec fn u64_bit(limb: u64, i: int) -> bool {
    (limb >> (i as u64)) & 1u64 == 1u64
}

/// Little-endian weighted value of a bit sequence: bit `i` contributes
/// `2^i`.
pub open spec fn bits_value(s: Seq<bool>) -> int
    decreases s.len(),
{
    if s.len() == 0 {
        0
    } else {
        bits_value(s.drop_last()) + (if s.last() {
            pow2((s.len() - 1) as nat) as int
        } else {
            0
        })
    }
}

/// The 64 bits of one limb, least significant first.
pub open spec fn limb_bits(limb: u64) -> Seq<bool> {
    Seq::new(64, |i: int| u64_bit(limb, i))
}

#[verifier::rlimit(100)]
proof fn lemma_limb_prefix_value(limb: u64, n: int)
    requires
        0 <= n <= 64,
    ensures
        bits_value(limb_bits(limb).take(n)) == (limb as int) % (pow2(n as nat) as int),
    decreases n,
{
    vstd::arithmetic::power2::lemma2_to64();
    if n == 0 {
        assert((limb as int) % 1 == 0) by (nonlinear_arith);
        assert(bits_value(limb_bits(limb).take(0)) == 0);
    } else if n <= 63 {
        lemma_limb_prefix_value(limb, n - 1);
        assert(limb_bits(limb).take(n).drop_last() =~= limb_bits(limb).take(n - 1));
        let m = (n - 1) as u64;
        let half = pow2((n - 1) as nat) as int;
        vstd::bits::lemma_u64_shr_is_div(limb, m);
        assert((limb >> m) & 1u64 == (limb >> m) % 2u64) by (bit_vector);
        vstd::arithmetic::power2::lemma_pow2_pos((n - 1) as nat);
        vstd::arithmetic::power2::lemma_pow2_unfold(n as nat);
        vstd::arithmetic::div_mod::lemma_mod_breakdown(limb as int, half, 2);
        vstd::arithmetic::div_mod::lemma_mod_bound((limb as int) / half, 2);
        assert((limb as int) % (half * 2) == half * (((limb as int) / half) % 2) + (limb as int)
            % half);
        assert(pow2(n as nat) as int == half * 2);
        assert(limb_bits(limb).take(n).last() == u64_bit(limb, n - 1));
        assert(limb >> m == (limb as int) / half);
        assert(((limb >> m) & 1u64) as int == ((limb as int) / half) % 2);
        vstd::arithmetic::mul::lemma_mul_basics(half);
        if u64_bit(limb, n - 1) {
            assert(((limb as int) / half) % 2 == 1);
            assert(half * (((limb as int) / half) % 2) == half);
        } else {
            assert(((limb as int) / half) % 2 != 1);
            assert(((limb as int) / half) % 2 == 0);
            assert(half * (((limb as int) / half) % 2) == 0);
        }
        assert(bits_value(limb_bits(limb).take(n)) == (limb as int) % half + (if u64_bit(
            limb,
            n - 1,
        ) {
            half
        } else {
            0
        }));
        assert((limb as int) % (pow2(n as nat) as int) == half * (((limb as int) / half) % 2) + (
        limb as int) % half);
    } else {
        lemma_limb_prefix_value(limb, 63);
        assert(limb_bits(limb).take(64).drop_last() =~= limb_bits(limb).take(63));
        assert(limb_bits(limb).take(64).last() == u64_bit(limb, 63));
        assert(limb as int == (limb % 0x8000000000000000u64) + ((limb >> 63u64) & 1u64)
            * 0x8000000000000000) by (bit_vector);
        assert(((limb >> 63u64) & 1u64) == 0 || ((limb >> 63u64) & 1u64) == 1) by (bit_vector);
        vstd::arithmetic::power2::lemma2_to64_rest();
        vstd::arithmetic::div_mod::lemma_small_mod(limb as nat, pow2(64));
    }
}

/// A limb's 64 bits compose back to the limb's own value.
pub proof fn lemma_limb_bits_value(limb: u64)
    ensures
        bits_value(limb_bits(limb)) == limb,
{
    lemma_limb_prefix_value(limb, 64);
    assert(limb_bits(limb).take(64) =~= limb_bits(limb));
    vstd::arithmetic::power2::lemma2_to64();
    vstd::arithmetic::power2::lemma2_to64_rest();
    vstd::arithmetic::div_mod::lemma_small_mod(limb as nat, pow2(64));
}

/// Concatenation weights the second sequence by `2^(first length)`.
pub proof fn lemma_bits_value_concat(a: Seq<bool>, b: Seq<bool>)
    ensures
        bits_value(a + b) == bits_value(a) + pow2(a.len()) * bits_value(b),
    decreases b.len(),
{
    if b.len() == 0 {
        assert(a + b =~= a);
    } else {
        lemma_bits_value_concat(a, b.drop_last());
        assert((a + b).drop_last() =~= a + b.drop_last());
        let tail: int = if b.last() {
            pow2((b.len() - 1) as nat) as int
        } else {
            0
        };
        if b.last() {
            vstd::arithmetic::power2::lemma_pow2_adds(a.len(), (b.len() - 1) as nat);
        }
        vstd::arithmetic::mul::lemma_mul_is_distributive_add(
            pow2(a.len()) as int,
            bits_value(b.drop_last()),
            tail,
        );
    }
}

/// A 256-bit value stored as four little-endian 64-bit limbs.
#[derive(Clone, Copy, Eq, PartialEq, Debug)]
pub struct BinaryValue {
    pub value: [u64; 4],
}

impl View for BinaryValue {
    type V = Seq<bool>;

    open spec fn view(&self) -> Seq<bool> {
        Seq::new(256, |i: int| u64_bit(self.value@[i / 64], i % 64))
    }
}

proof fn lemma_or_bit(limb: u64, n: u64, m: u64)
    by (bit_vector)
    requires
        n < 64,
        m < 64,
    ensures
        ((limb | (1u64 << n)) >> n) & 1u64 == 1u64,
        m != n ==> ((limb | (1u64 << n)) >> m) & 1u64 == (limb >> m) & 1u64,
{
}

proof fn lemma_and_not_bit(limb: u64, n: u64, m: u64)
    by (bit_vector)
    requires
        n < 64,
        m < 64,
    ensures
        ((limb & !(1u64 << n)) >> n) & 1u64 == 0u64,
        m != n ==> ((limb & !(1u64 << n)) >> m) & 1u64 == (limb >> m) & 1u64,
{
}

proof fn lemma_zero_bits(m: u64)
    by (bit_vector)
    ensures
        (0u64 >> m) & 1u64 == 0u64,
{
}

proof fn lemma_low_byte_bits(limb: u64, m: u64)
    by (bit_vector)
    requires
        limb < 256,
        8 <= m < 64,
    ensures
        (limb >> m) & 1u64 == 0u64,
{
}

impl BinaryValue {
    /// Wrap four little-endian limbs.
    pub fn new(value: [u64; 4]) -> (r: BinaryValue)
        ensures
            r.value == value,
            forall|i: int|
                0 <= i < 256 ==> (r@[i] <==> u64_bit(value@[i / 64], i % 64)),
    {
        BinaryValue { value }
    }

    /// The all-zero value: no cell is set.
    pub fn empty() -> (r: BinaryValue)
        ensures
            forall|i: int| 0 <= i < 256 ==> !r@[i],
    {
        let r = BinaryValue { value: [0u64, 0u64, 0u64, 0u64] };
        proof {
            assert forall|i: int| 0 <= i < 256 implies !r@[i] by {
                lemma_zero_bits((i % 64) as u64);
            }
        }
        r
    }

    /// Widen an 8-bit value: bits 0..8 come from `value`, all others are 0.
    pub fn from_u8(value: u8) -> (r: BinaryValue)
        ensures
            forall|i: int|
                0 <= i < 256 ==> (r@[i] <==> (i < 8 && u64_bit(value as u64, i))),
    {
        let r = BinaryValue { value: [value as u64, 0u64, 0u64, 0u64] };
        proof {
            assert forall|i: int|
                0 <= i < 256 implies (r@[i] <==> (i < 8 && u64_bit(value as u64, i))) by {
                if i < 8 {
                } else if i < 64 {
                    lemma_low_byte_bits(value as u64, i as u64);
                } else {
                    lemma_zero_bits((i % 64) as u64);
                }
            }
        }
        r
    }

    /// Read bit `i`.
    pub fn bit(&self, i: usize) -> (r: bool)
        requires
            i < 256,
        ensures
            r == self@[i as int],
    {
        (self.value[i / 64] >> ((i % 64) as u64)) & 1u64 == 1u64
    }

    /// Write bit `i`, leaving every other bit unchanged.
    pub fn set_bit(&mut self, i: usize, bit: bool)
        requires
            i < 256,
        ensures
            final(self)@ == old(self)@.update(i as int, bit),
    {
        let q = i / 64;
        let mask: u64 = 1u64 << ((i % 64) as u64);
        let limb = self.value[q];
        let updated: u64 = if bit {
            limb | mask
        } else {
            limb & !mask
        };
        self.value = [
            if q == 0 { updated } else { self.value[0] },
            if q == 1 { updated } else { self.value[1] },
            if q == 2 { updated } else { self.value[2] },
            if q == 3 { updated } else { self.value[3] },
        ];
        proof {
            let n = (i % 64) as u64;
            assert forall|j: int|
                0 <= j < 256 implies self@[j] == old(self)@.update(i as int, bit)[j] by {
                if j == i {
                    if bit {
                        lemma_or_bit(limb, n, n);
                    } else {
                        lemma_and_not_bit(limb, n, n);
                    }
                } else if j / 64 == q {
                    if bit {
                        lemma_or_bit(limb, n, (j % 64) as u64);
                    } else {
                        lemma_and_not_bit(limb, n, (j % 64) as u64);
                    }
                }
            }
            assert(self@ =~= old(self)@.update(i as int, bit));
        }
    }

    /// The value of the low 128 bits: limb 0 plus limb 1 shifted by 64,
    /// which is exactly the weighted sum of the first 128 bits of the view.
    pub fn lower_u128(self) -> (r: u128)
        ensures
            r == self.value@[0] + self.value@[1] * 0x1_0000_0000_0000_0000,
            r == bits_value(self@.take(128)),
    {
        let r = (self.value[0] as u128) | ((self.value[1] as u128) << 64u128);
        proof {
            let a = self.value@[0];
            let b = self.value@[1];
            assert((a as u128) | ((b as u128) << 64u128) == a + (b as u128)
                * 0x1_0000_0000_0000_0000) by (bit_vector);
            assert(self@.take(128) =~= limb_bits(a) + limb_bits(b));
            lemma_bits_value_concat(limb_bits(a), limb_bits(b));
            lemma_limb_bits_value(a);
            lemma_limb_bits_value(b);
            vstd::arithmetic::power2::lemma2_to64();
            vstd::arithmetic::power2::lemma2_to64_rest();
        }
        r
    }

    /// The first `n` bits as field values: 1 for a set bit, 0 for a clear bit.
    pub fn bitfield(self, n: usize) -> (r: Vec<u64>)
        requires
            n <= 256,
        ensures
            r@.len() == n,
            forall|i: int| 0 <= i < n ==> r@[i] == (if self@[i] { 1u64 } else { 0u64 }),
    {
        let mut r: Vec<u64> = Vec::new();
        for k in 0..n
            invariant
                n <= 256,
                r@.len() == k,
                forall|i: int| 0 <= i < k ==> r@[i] == (if self@[i] { 1u64 } else { 0u64 }),
        {
            r.push(if self.bit(k) { 1u64 } else { 0u64 });
        }
        r
    }

    /// Merge two placements over the 100 board cells. The caller guarantees
    /// that no cell is set in both: overlapping ships may not be merged.
    /// Bits at or above the board size are cleared in the result.
    pub fn zip(self, to: BinaryValue) -> (r: BinaryValue)
        requires
            forall|i: int| 0 <= i < 100 ==> !(self@[i] && to@[i]),
        ensures
            forall|i: int| 0 <= i < 100 ==> (r@[i] <==> (self@[i] || to@[i])),
            forall|i: int| 100 <= i < 256 ==> !r@[i],
    {
        let mut zipped = BinaryValue::empty();
        for k in 0..100usize
            invariant
                forall|i: int| 0 <= i < k ==> (zipped@[i] <==> (self@[i] || to@[i])),
                forall|i: int| k <= i < 256 ==> !zipped@[i],
        {
            let bit = self.bit(k) || to.bit(k);
            zipped.set_bit(k, bit);
        }
        zipped
    }
}

} // verus!
