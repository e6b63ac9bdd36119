//! Shared helpers of the hash kernels: extraction of the top bits of an
//! accumulator and the mapping between bucket counts and output bit widths.

use vstd::prelude::*;

verus! {

use vstd::arithmetic::power2::{pow2, lemma_pow2_adds, lemma_pow2_pos, lemma2_to64};
use vstd::arithmetic::div_mod::lemma_multiply_divide_lt;
use vstd::bits::{lemma_u64_shr_is_div, lemma_u32_shl_is_mul};

/// The top `num_bits` bits of a 64-bit accumulator, as a 32-bit value.
pub open spec fn spec_extract_bits_64(value: u64, num_bits: u32) -> u32
    recommends
        1 <= num_bits <= 32,
{
    (value >> ((64 - num_bits) as u64)) as u32
}

pub proof fn lemma_extract_bits_64(value: u64, num_bits: u32)
    requires
        1 <= num_bits <= 32,
    ensures
        spec_extract_bits_64(value, num_bits) == value as nat / pow2((64 - num_bits) as nat),
        spec_extract_bits_64(value, num_bits) < pow2(num_bits as nat),
{
    let sh = (64 - num_bits) as u64;
    lemma_u64_shr_is_div(value, sh);
    lemma_pow2_adds(sh as nat, num_bits as nat);
    lemma_pow2_pos(sh as nat);
    lemma_pow2_pos(num_bits as nat);
    lemma2_to64();
    vstd::arithmetic::power2::lemma2_to64_rest();
    assert(value < pow2(64));
    lemma_multiply_divide_lt(value as int, pow2(sh as nat) as int, pow2(num_bits as nat) as int);
}

/// Extract the top `num_bits` bits from a 64-bit value.
///
/// Useful as a faster alternative to a modulo by a power of two when the top
/// bits of the accumulator are the best-mixed ones.
#[inline]
pub fn extract_bits_64<const SOURCE_BITS: u32>(value: u64, num_bits: u32) -> (r: u32)
    requires
        SOURCE_BITS == 64,
        1 <= num_bits <= 32,
    ensures
        r == spec_extract_bits_64(value, num_bits),
        r < pow2(num_bits as nat),
{
    proof {
        lemma_extract_bits_64(value, num_bits);
    }
    (value >> ((SOURCE_BITS - num_bits) as u64)) as u32
}

/// The top `num_bits` bits of a `SOURCE_BITS`-wide accumulator held in a u128.
pub open spec fn spec_extract_bits_128(value: u128, source_bits: u32, num_bits: u32) -> u32
    recommends
        1 <= num_bits <= 32,
        num_bits <= source_bits <= 128,
{
    (value >> ((source_bits - num_bits) as u128)) as u32
}

pub proof fn lemma_extract_bits_128(value: u128, source_bits: u32, num_bits: u32)
    requires
        1 <= num_bits <= 32,
        num_bits <= source_bits <= 128,
        value < pow2(source_bits as nat),
    ensures
        spec_extract_bits_128(value, source_bits, num_bits) == value as nat / pow2(
            (source_bits - num_bits) as nat,
        ),
        spec_extract_bits_128(value, source_bits, num_bits) < pow2(num_bits as nat),
{
    let sh = (source_bits - num_bits) as u128;
    vstd::bits::lemma_u128_shr_is_div(value, sh);
    lemma_pow2_adds(sh as nat, num_bits as nat);
    lemma_pow2_pos(sh as nat);
    lemma_pow2_pos(num_bits as nat);
    lemma2_to64();
    lemma_multiply_divide_lt(value as int, pow2(sh as nat) as int, pow2(num_bits as nat) as int);
}

/// Extract the top `num_bits` bits from the low `SOURCE_BITS` bits of a
/// 128-bit value; the bits above `SOURCE_BITS` must be clear.
#[inline]
pub fn extract_bits_128<const SOURCE_BITS: u32>(value: u128, num_bits: u32) -> (r: u32)
    requires
        1 <= num_bits <= 32,
        num_bits <= SOURCE_BITS <= 128,
        value < pow2(SOURCE_BITS as nat),
    ensures
        r == spec_extract_bits_128(value, SOURCE_BITS, num_bits),
        r < pow2(num_bits as nat),
{
    proof {
        lemma_extract_bits_128(value, SOURCE_BITS, num_bits);
    }
    (value >> ((SOURCE_BITS - num_bits) as u128)) as u32
}

/// Ceiling of the base-two logarithm.
pub open spec fn clog2(n: nat) -> nat
    decreases n,
{
    if n <= 1 {
        0
    } else {
        1 + clog2((n + 1) / 2)
    }
}

/// For `n >= 2`, `clog2(n)` is the unique `b` with `2^(b-1) < n <= 2^b`.
pub proof fn lemma_clog2_bounds(n: nat)
    requires
        n >= 2,
    ensures
        1 <= clog2(n),
        pow2((clog2(n) - 1) as nat) < n <= pow2(clog2(n)),
    decreases n,
{
    let m = (n + 1) / 2;
    if n <= 3 {
        assert(clog2(1) == 0);
        assert(clog2(2) == 1 + clog2(1));
        assert(clog2(3) == 1 + clog2(2));
        lemma2_to64();
    } else {
        lemma_clog2_bounds(m);
        assert(clog2(n) == 1 + clog2(m));
        lemma_pow2_adds((clog2(m) - 1) as nat, 1);
        lemma_pow2_adds(clog2(m), 1);
        lemma2_to64();
        assert(pow2((clog2(n) - 1) as nat) == 2 * pow2((clog2(m) - 1) as nat));
        assert(pow2(clog2(n)) == 2 * pow2(clog2(m)));
    }
}

/// The number of output bits the hasher family uses for a requested bucket
/// count: zero buckets need no bits, one bucket is still given one bit, and
/// any other count gets the ceiling of its base-two logarithm.
pub open spec fn spec_num_bits_for_buckets(num_buckets: u32) -> u32 {
    if num_buckets == 0 {
        0
    } else if num_buckets == 1 {
        1
    } else {
        clog2(num_buckets as nat) as u32
    }
}

pub proof fn lemma_num_bits_for_buckets(num_buckets: u32)
    requires
        num_buckets >= 1,
    ensures
        1 <= spec_num_bits_for_buckets(num_buckets) <= 32,
        num_buckets <= pow2(spec_num_bits_for_buckets(num_buckets) as nat),
        num_buckets <= 0x8000_0000 ==> spec_num_bits_for_buckets(num_buckets) <= 31,
{
    if num_buckets == 1 {
        lemma2_to64();
    } else {
        lemma_clog2_bounds(num_buckets as nat);
        let b = clog2(num_buckets as nat);
        if b > 32 {
            lemma2_to64();
            vstd::arithmetic::power2::lemma_pow2_strictly_increases(32, (b - 1) as nat);
        }
        if num_buckets <= 0x8000_0000 && b > 31 {
            lemma2_to64();
            if b - 1 > 31 {
                vstd::arithmetic::power2::lemma_pow2_strictly_increases(31, (b - 1) as nat);
            }
        }
    }
}

/// Calculate the number of bits required to cover a given number of buckets.
pub fn num_bits_for_buckets(num_buckets: u32) -> (r: u32)
    ensures
        r == spec_num_bits_for_buckets(num_buckets),
{
    if num_buckets == 0 {
        0
    } else if num_buckets == 1 {
        1
    } else {
        let ghost target = clog2(num_buckets as nat);
        proof {
            lemma_clog2_bounds(num_buckets as nat);
            lemma2_to64();
            if target > 32 {
                if target - 1 > 32 {
                    vstd::arithmetic::power2::lemma_pow2_strictly_increases(
                        32,
                        (target - 1) as nat,
                    );
                }
            }
        }
        let mut bits: u32 = 0;
        let mut cap: u64 = 1;
        while cap < num_buckets as u64
            invariant
                num_buckets >= 2,
                bits <= target,
                cap == pow2(bits as nat),
                target == clog2(num_buckets as nat),
                pow2((target - 1) as nat) < num_buckets <= pow2(target),
                1 <= target <= 32,
            decreases 2 * num_buckets as int - cap,
        {
            proof {
                lemma_pow2_pos(bits as nat);
                vstd::arithmetic::power2::lemma_pow2_unfold((bits + 1) as nat);
                if bits >= target {
                    if bits > target {
                        vstd::arithmetic::power2::lemma_pow2_strictly_increases(
                            target as nat,
                            bits as nat,
                        );
                    }
                    assert(false);
                }
            }
            cap = cap * 2;
            bits = bits + 1;
        }
        proof {
            if bits < target {
                if bits < target - 1 {
                    vstd::arithmetic::power2::lemma_pow2_strictly_increases(
                        bits as nat,
                        (target - 1) as nat,
                    );
                }
                assert(false);
            }
        }
        bits
    }
}

/// One left shift of a u128 equals the matching power of two.
pub proof fn lemma_u128_shl_pow2(e: u32)
    requires
        e < 128,
    ensures
        (1u128 << e) == pow2(e as nat),
    decreases e,
{
    if e == 0 {
        assert(1u128 << 0u32 == 1) by (bit_vector);
        lemma2_to64();
    } else {
        lemma_u128_shl_pow2((e - 1) as u32);
        vstd::arithmetic::power2::lemma_pow2_unfold(e as nat);
        assert((1u128 << e) == 2 * (1u128 << ((e - 1) as u32))) by (bit_vector)
            requires
                1 <= e < 128,
        ;
    }
}

/// A left shift of a u128 that does not overflow is a multiplication by the
/// matching power of two.
pub proof fn lemma_u128_shl_is_mul(x: u128, shift: u32)
    requires
        shift < 128,
        x < pow2((128 - shift) as nat),
    ensures
        (x << shift) == x * pow2(shift as nat),
    decreases shift,
{
    if shift == 0 {
        assert(x << 0u32 == x) by (bit_vector);
        lemma2_to64();
    } else {
        vstd::arithmetic::power2::lemma_pow2_strictly_increases(
            (128 - shift) as nat,
            (129 - shift) as nat,
        );
        lemma_u128_shl_is_mul(x, (shift - 1) as u32);
        lemma_u128_shl_pow2((128 - shift) as u32);
        assert((x << shift) == 2 * (x << ((shift - 1) as u32))) by (bit_vector)
            requires
                1 <= shift < 128,
                x < (1u128 << ((128 - shift) as u32)),
        ;
        vstd::arithmetic::power2::lemma_pow2_unfold(shift as nat);
        vstd::arithmetic::mul::lemma_mul_is_associative(2, x as int, pow2(
            (shift - 1) as nat,
        ) as int);
        vstd::arithmetic::mul::lemma_mul_is_associative(x as int, 2, pow2(
            (shift - 1) as nat,
        ) as int);
    }
}

/// Splitting a u128 at bit `e`: the masked low part and the shifted high
/// part recombine to the value, with the high part scaled by `2^e`.
pub proof fn lemma_u128_mask_split(x: u128, e: u32, p: u128)
    requires
        e < 128,
        p == (1u128 << e) - 1,
    ensures
        (x & p) <= p,
        x == (x >> e) * pow2(e as nat) + (x & p),
{
    if e == 0 {
        assert(x >> 0u32 == x && x & 0 == 0 && (1u128 << 0u32) == 1) by (bit_vector);
        lemma2_to64();
    } else {
        assert(((x >> e) << e) + (x & p) == x && (x & p) <= p) by (bit_vector)
            requires
                1 <= e < 128 && p == (1u128 << e) - 1,
        ;
        assert((x >> e) < (1u128 << ((128 - e) as u32))) by (bit_vector)
            requires
                1 <= e < 128,
        ;
        lemma_u128_shl_pow2((128 - e) as u32);
        lemma_u128_shl_is_mul(x >> e, e);
    }
}

/// Performs a modulo operation by a Mersenne prime.
///
/// Faster equivalent of the operation `x % p` where `p == 2^P_E - 1`: the low
/// bits plus the high bits, then one conditional subtraction.  An exponent of
/// at least 64 guarantees that one subtraction is enough for any 128-bit
/// input.
#[inline]
pub fn mod_mersenne_prime<const P_E: u32, const P: u128>(x: u128) -> (r: u128)
    requires
        65 <= P_E <= 127,
        P == pow2(P_E as nat) - 1,
    ensures
        r == x as nat % P as nat,
        r < P,
{
    proof {
        lemma_u128_shl_pow2(P_E);
        lemma_pow2_pos(P_E as nat);
        lemma2_to64();
        vstd::arithmetic::power2::lemma2_to64_rest();
        lemma_pow2_adds(P_E as nat, (128 - P_E) as nat);
        lemma_pow2_adds(64, (P_E - 64) as nat);
        lemma_pow2_adds(64, 64);
        lemma_u128_mask_split(x, P_E, P);
        vstd::bits::lemma_u128_shr_is_div(x, P_E as u128);
        // x = (x >> P_E) * 2^P_E + (x & P), and 2^P_E is 1 more than P.
        vstd::arithmetic::mul::lemma_mul_is_distributive_add((x >> (P_E as u128)) as int, P as int, 1);
        vstd::arithmetic::mul::lemma_mul_is_commutative((x >> (P_E as u128)) as int, P as int);
        assert(x as int == P as int * ((x >> (P_E as u128)) as int) + ((x >> (P_E as u128))
            + (x & P)) as int);
        vstd::arithmetic::div_mod::lemma_mod_multiples_vanish(
            (x >> (P_E as u128)) as int,
            ((x >> (P_E as u128)) + (x & P)) as int,
            P as int,
        );
        assert(x as int % P as int == ((x >> (P_E as u128)) + (x & P)) as int % P as int);
        // The high part is below 2^(128 - P_E) <= 2^P_E, so the sum is below 2 * P.
        lemma_multiply_divide_lt(
            x as int,
            pow2(P_E as nat) as int,
            pow2((128 - P_E) as nat) as int,
        );
        vstd::arithmetic::power2::lemma_pow2_strictly_increases((128 - P_E) as nat, P_E as nat);
        vstd::arithmetic::power2::lemma_pow2_strictly_increases(
            (128 - P_E) as nat,
            (P_E - 1) as nat,
        );
        vstd::arithmetic::power2::lemma_pow2_unfold(P_E as nat);
    }
    let result = (x & P) + (x >> (P_E as u128));
    if result >= P {
        proof {
            vstd::arithmetic::div_mod::lemma_mod_sub_multiples_vanish(result as int, P as int);
            vstd::arithmetic::div_mod::lemma_small_mod((result - P) as nat, P as nat);
        }
        result - P
    } else {
        proof {
            vstd::arithmetic::div_mod::lemma_small_mod(result as nat, P as nat);
        }
        result
    }
}

/// The realized bucket count at most doubles the requested one.
pub proof fn lemma_num_buckets_bound(num_buckets: u32)
    requires
        num_buckets >= 1,
    ensures
        pow2(spec_num_bits_for_buckets(num_buckets) as nat) <= 2 * num_buckets,
        num_buckets <= pow2(spec_num_bits_for_buckets(num_buckets) as nat),
{
    lemma_num_bits_for_buckets(num_buckets);
    if num_buckets == 1 {
        lemma2_to64();
    } else {
        lemma_clog2_bounds(num_buckets as nat);
        let b = clog2(num_buckets as nat);
        if b > 32 {
            lemma2_to64();
            vstd::arithmetic::power2::lemma_pow2_strictly_increases(32, (b - 1) as nat);
        }
        assert(b <= 32);
        vstd::arithmetic::power2::lemma_pow2_unfold(b);
    }
}

/// The realized output range for a bit width: `2^num_bits`.
pub open spec fn spec_num_buckets_for_bits(num_bits: u32) -> u32
    recommends
        num_bits <= 31,
{
    pow2(num_bits as nat) as u32
}

/// Calculate the number of buckets covered by a given number of bits.
pub fn num_buckets_for_bits(num_bits: u32) -> (r: u32)
    requires
        num_bits <= 31,
    ensures
        r == spec_num_buckets_for_bits(num_bits),
        r == pow2(num_bits as nat),
        r >= 1,
{
    proof {
        lemma2_to64();
        lemma_u32_shl_is_mul(1u32, num_bits);
        lemma_pow2_pos(num_bits as nat);
    }
    1u32 << num_bits
}

} // verus!
