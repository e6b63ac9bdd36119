//! The multiply-shift hashing scheme (more precisely multiply-add-shift),
//! after Dietzfelbinger's and Thorup's constructions.
//!
//! The scheme avoids modulo and division entirely: it mixes the input with
//! wrapping integer multiply-adds and extracts the top bits of the
//! accumulator.  Each kernel has a twin whose body is written in the style
//! that a constant-expression evaluator accepts (plain index loops instead of
//! iterator adapters); both twins are proved to return the same value, stated
//! by giving them one specification function.

use vstd::prelude::*;

verus! {

use vstd::arithmetic::power2::pow2;
use crate::hashing::common::{spec_extract_bits_64, extract_bits_64, lemma_extract_bits_64};

/// `seed0 * value + seed1` over wrapping 64-bit arithmetic, top bits kept.
pub open spec fn spec_multiply_shift(value: u32, num_bits: u32, seed: Seq<u64>) -> u32
    recommends
        1 <= num_bits <= 32,
        seed.len() >= 2,
{
    spec_extract_bits_64(seed[0].wrapping_mul(value as u64).wrapping_add(seed[1]), num_bits)
}

/// Hashes a 32-bit unsigned integer using the multiply-shift hashing scheme.
///
/// The first seed word must be non-zero for the strong-universality guarantee
/// of the scheme to hold.
#[inline]
pub fn multiply_shift(value: u32, num_bits: u32, seed: &[u64; 2]) -> (r: u32)
    requires
        1 <= num_bits <= 32,
        seed[0] > 0,
    ensures
        r == spec_multiply_shift(value, num_bits, seed@),
        r < pow2(num_bits as nat),
{
    let hash = seed[0].wrapping_mul(value as u64).wrapping_add(seed[1]);
    extract_bits_64::<64>(hash, num_bits)
}

/// `(s0 + lo(v)) * (s1 + hi(v)) + s2` over wrapping 64-bit arithmetic,
/// top bits kept.  The low half is taken as the full word, as the scheme
/// permits.
pub open spec fn spec_pair_multiply_shift(value: u64, num_bits: u32, seed: Seq<u64>) -> u32
    recommends
        1 <= num_bits <= 32,
        seed.len() >= 3,
{
    spec_extract_bits_64(
        seed[0].wrapping_add(value).wrapping_mul(seed[1].wrapping_add(value >> 32u64))
            .wrapping_add(seed[2]),
        num_bits,
    )
}

/// Hashes a 64-bit unsigned integer using the pair-multiply-shift hashing
/// scheme.
#[inline]
pub fn pair_multiply_shift(value: u64, num_bits: u32, seed: &[u64; 3]) -> (r: u32)
    requires
        1 <= num_bits <= 32,
    ensures
        r == spec_pair_multiply_shift(value, num_bits, seed@),
        r < pow2(num_bits as nat),
{
    let hash_value = seed[0].wrapping_add(value).wrapping_mul(
        seed[1].wrapping_add(value >> 32u64),
    ).wrapping_add(seed[2]);
    extract_bits_64::<64>(hash_value, num_bits)
}

/// The pair-multiply-shift mixing of one 128-bit value, seen as four 32-bit
/// limbs `(a, b, c, d)`: `(s0+a)(s1+b) + ((s2+c)(s3+d) + s4)`.
pub open spec fn spec_pair_multiply_shift_u128(value: u128, num_bits: u32, seed: Seq<u64>) -> u32
    recommends
        1 <= num_bits <= 32,
        seed.len() >= 5,
{
    let first = value as u64;
    let second = (value >> 32u128) as u64;
    let third = (value >> 64u128) as u64;
    let fourth = (value >> 96u128) as u64;
    spec_extract_bits_64(
        seed[0].wrapping_add(first).wrapping_mul(seed[1].wrapping_add(second)).wrapping_add(
            seed[2].wrapping_add(third).wrapping_mul(seed[3].wrapping_add(fourth)).wrapping_add(
                seed[4],
            ),
        ),
        num_bits,
    )
}

/// Hashes a 128-bit unsigned integer using the pair-multiply-shift hashing
/// scheme over its four 32-bit limbs.
#[inline]
pub fn pair_multiply_shift_u128(value: u128, num_bits: u32, seed: &[u64; 5]) -> (r: u32)
    requires
        1 <= num_bits <= 32,
    ensures
        r == spec_pair_multiply_shift_u128(value, num_bits, seed@),
        r < pow2(num_bits as nat),
{
    let first = value as u64;
    let second = (value >> 32u128) as u64;
    let third = (value >> 64u128) as u64;
    let fourth = (value >> 96u128) as u64;

    let hash_value = seed[0].wrapping_add(first).wrapping_mul(
        seed[1].wrapping_add(second),
    ).wrapping_add(
        seed[2].wrapping_add(third).wrapping_mul(seed[3].wrapping_add(fourth)).wrapping_add(
            seed[4],
        ),
    );

    extract_bits_64::<64>(hash_value, num_bits)
}

/// One term of the vectored pair-multiply-shift sum: element `i` mixed with
/// its two table seeds at `seed[1 + 2i]` and `seed[2 + 2i]`.
pub open spec fn spec_pms_u64_term(v: u64, seed: Seq<u64>, i: int) -> u64
    recommends
        0 <= i,
        2 * i + 2 < seed.len(),
{
    seed[1 + 2 * i].wrapping_add(v >> 32u64).wrapping_mul(seed[2 + 2 * i].wrapping_add(v))
}

/// The accumulator of the vectored pair-multiply-shift after the first `n`
/// elements: `seed[0] + sum of the per-element terms`, wrapping.
pub open spec fn spec_pms_u64_sum(value: Seq<u64>, seed: Seq<u64>, n: int) -> u64
    recommends
        0 <= n <= value.len(),
        2 * value.len() + 1 <= seed.len(),
    decreases n,
{
    if n <= 0 {
        seed[0]
    } else {
        spec_pms_u64_sum(value, seed, n - 1).wrapping_add(
            spec_pms_u64_term(value[n - 1], seed, n - 1),
        )
    }
}

/// The vectored pair-multiply-shift over 64-bit words: accumulator summed
/// over all elements, top bits kept.
pub open spec fn spec_pair_multiply_shift_vector_u64(
    value: Seq<u64>,
    num_bits: u32,
    seed: Seq<u64>,
) -> u32
    recommends
        1 <= num_bits <= 32,
        2 * value.len() + 1 <= seed.len(),
{
    spec_extract_bits_64(spec_pms_u64_sum(value, seed, value.len() as int), num_bits)
}

/// Hashes a vector of 64-bit unsigned integers to a 32-bit hash value.
///
/// The seed slice holds one header word and two table words per element.
#[inline]
pub fn pair_multiply_shift_vector_u64(value: &[u64], num_bits: u32, seed: &[u64]) -> (r: u32)
    requires
        1 <= num_bits <= 32,
        2 * value@.len() + 1 <= seed@.len(),
    ensures
        r == spec_pair_multiply_shift_vector_u64(value@, num_bits, seed@),
        r < pow2(num_bits as nat),
{
    let mut sum: u64 = seed[0];
    let n = value.len();
    let m = seed.len();

    let mut i: usize = 0;
    while i < n
        invariant
            n == value@.len(),
            m == seed@.len(),
            0 <= i <= n,
            2 * n + 1 <= m,
            sum == spec_pms_u64_sum(value@, seed@, i as int),
        decreases n - i,
    {
        let v = value[i];
        let high = v >> 32u64;
        sum = sum.wrapping_add(seed[1 + 2 * i].wrapping_add(high).wrapping_mul(
            seed[2 + 2 * i].wrapping_add(v),
        ));
        i = i + 1;
    }

    extract_bits_64::<64>(sum, num_bits)
}

/// Hashes a vector of 64-bit unsigned integers to a 32-bit hash value.
///
/// Twin of [`pair_multiply_shift_vector_u64`] written with the plain index
/// loop that a constant evaluator accepts; it returns the same value, as the
/// shared specification states.
#[inline]
pub fn pair_multiply_shift_vector_u64_const(value: &[u64], num_bits: u32, seed: &[u64]) -> (r: u32)
    requires
        1 <= num_bits <= 32,
        2 * value@.len() + 1 <= seed@.len(),
    ensures
        r == spec_pair_multiply_shift_vector_u64(value@, num_bits, seed@),
        r < pow2(num_bits as nat),
{
    let mut sum: u64 = seed[0];
    let m = seed.len();

    let mut i: usize = 0;
    while i < value.len()
        invariant
            0 <= i <= value@.len(),
            m == seed@.len(),
            2 * value@.len() + 1 <= m,
            sum == spec_pms_u64_sum(value@, seed@, i as int),
        decreases value@.len() - i,
    {
        let v = value[i];
        let s_idx = 1 + i * 2;
        let low = v;
        let high = v >> 32u64;
        sum = sum.wrapping_add(seed[s_idx].wrapping_add(high).wrapping_mul(
            seed[s_idx + 1].wrapping_add(low),
        ));
        i = i + 1;
    }

    extract_bits_64::<64>(sum, num_bits)
}

/// One term of the vectored pair-multiply-shift over 128-bit elements:
/// element `i` split into four 32-bit limbs, mixed with its four table seeds.
pub open spec fn spec_pms_u128_term(v: u128, value_seed: Seq<u64>, i: int) -> u64
    recommends
        0 <= i,
        4 * i + 4 <= value_seed.len(),
{
    let first = v as u64;
    let second = (v >> 32u128) as u64;
    let third = (v >> 64u128) as u64;
    let fourth = (v >> 96u128) as u64;
    value_seed[4 * i].wrapping_add(first).wrapping_mul(
        value_seed[4 * i + 1].wrapping_add(second),
    ).wrapping_add(
        value_seed[4 * i + 2].wrapping_add(third).wrapping_mul(
            value_seed[4 * i + 3].wrapping_add(fourth),
        ),
    )
}

/// The accumulator of the vectored 128-bit pair-multiply-shift after the
/// first `n` elements.
pub open spec fn spec_pms_u128_sum(value: Seq<u128>, seed: u64, value_seed: Seq<u64>, n: int) -> u64
    recommends
        0 <= n <= value.len(),
        4 * value.len() <= value_seed.len(),
    decreases n,
{
    if n <= 0 {
        seed
    } else {
        spec_pms_u128_sum(value, seed, value_seed, n - 1).wrapping_add(
            spec_pms_u128_term(value[n - 1], value_seed, n - 1),
        )
    }
}

/// The vectored pair-multiply-shift over 128-bit elements.
pub open spec fn spec_pair_multiply_shift_vector_u128(
    value: Seq<u128>,
    num_bits: u32,
    seed: u64,
    value_seed: Seq<u64>,
) -> u32
    recommends
        1 <= num_bits <= 32,
        4 * value.len() <= value_seed.len(),
{
    spec_extract_bits_64(
        spec_pms_u128_sum(value, seed, value_seed, value.len() as int),
        num_bits,
    )
}

/// Hashes a vector of 128-bit unsigned integers to a 32-bit hash value.
///
/// The header seed is passed apart; the table seed holds four words per
/// element.
#[inline]
pub fn pair_multiply_shift_vector_u128(
    value: &[u128],
    num_bits: u32,
    seed: u64,
    value_seed: &[u64],
) -> (r: u32)
    requires
        1 <= num_bits <= 32,
        4 * value@.len() <= value_seed@.len(),
    ensures
        r == spec_pair_multiply_shift_vector_u128(value@, num_bits, seed, value_seed@),
        r < pow2(num_bits as nat),
{
    let mut sum: u64 = seed;
    let n = value.len();
    let m = value_seed.len();

    let mut i: usize = 0;
    while i < n
        invariant
            n == value@.len(),
            m == value_seed@.len(),
            0 <= i <= n,
            4 * n <= m,
            sum == spec_pms_u128_sum(value@, seed, value_seed@, i as int),
        decreases n - i,
    {
        let v = value[i];
        let first = v as u64;
        let second = (v >> 32u128) as u64;
        let third = (v >> 64u128) as u64;
        let fourth = (v >> 96u128) as u64;

        sum = sum.wrapping_add(value_seed[i * 4].wrapping_add(first).wrapping_mul(
            value_seed[i * 4 + 1].wrapping_add(second),
        ).wrapping_add(
            value_seed[i * 4 + 2].wrapping_add(third).wrapping_mul(
                value_seed[i * 4 + 3].wrapping_add(fourth),
            ),
        ));
        i = i + 1;
    }

    extract_bits_64::<64>(sum, num_bits)
}

/// Hashes a vector of 128-bit unsigned integers to a 32-bit hash value.
///
/// Twin of [`pair_multiply_shift_vector_u128`] in the constant-evaluator
/// style; the shared specification states that the outputs agree.
#[inline]
pub fn pair_multiply_shift_vector_u128_const(
    value: &[u128],
    num_bits: u32,
    seed: u64,
    value_seed: &[u64],
) -> (r: u32)
    requires
        1 <= num_bits <= 32,
        4 * value@.len() <= value_seed@.len(),
    ensures
        r == spec_pair_multiply_shift_vector_u128(value@, num_bits, seed, value_seed@),
        r < pow2(num_bits as nat),
{
    let mut sum: u64 = seed;
    let m = value_seed.len();

    let mut i: usize = 0;
    while i < value.len()
        invariant
            0 <= i <= value@.len(),
            m == value_seed@.len(),
            4 * value@.len() <= m,
            sum == spec_pms_u128_sum(value@, seed, value_seed@, i as int),
        decreases value@.len() - i,
    {
        let v = value[i];
        let first = v as u64;
        let second = (v >> 32u128) as u64;
        let third = (v >> 64u128) as u64;
        let fourth = (v >> 96u128) as u64;

        sum = sum.wrapping_add(value_seed[i * 4].wrapping_add(first).wrapping_mul(
            value_seed[i * 4 + 1].wrapping_add(second),
        ).wrapping_add(
            value_seed[i * 4 + 2].wrapping_add(third).wrapping_mul(
                value_seed[i * 4 + 3].wrapping_add(fourth),
            ),
        ));
        i = i + 1;
    }

    extract_bits_64::<64>(sum, num_bits)
}

/// The little-endian value of a byte string of at most eight bytes.
pub open spec fn spec_le_bytes(bytes: Seq<u8>) -> nat
    decreases bytes.len(),
{
    if bytes.len() == 0 {
        0
    } else {
        (bytes[0] + 256 * spec_le_bytes(bytes.skip(1))) as nat
    }
}

pub proof fn lemma_le_bytes_bound(bytes: Seq<u8>)
    ensures
        spec_le_bytes(bytes) < pow2(8 * bytes.len()),
    decreases bytes.len(),
{
    vstd::arithmetic::power2::lemma_pow2_pos(8 * bytes.len());
    if bytes.len() == 0 {
        vstd::arithmetic::power2::lemma2_to64();
    } else {
        lemma_le_bytes_bound(bytes.skip(1));
        vstd::arithmetic::power2::lemma_pow2_adds(8, 8 * (bytes.len() - 1) as nat);
        vstd::arithmetic::power2::lemma2_to64();
    }
}

/// Zero bytes appended on the high end do not change the value.
pub proof fn lemma_le_bytes_zero_extend(s: Seq<u8>, t: Seq<u8>)
    requires
        s.len() <= t.len(),
        forall|k: int| 0 <= k < s.len() ==> t[k] == s[k],
        forall|k: int| s.len() <= k < t.len() ==> t[k] == 0,
    ensures
        spec_le_bytes(t) == spec_le_bytes(s),
    decreases t.len(),
{
    if t.len() == 0 {
    } else if s.len() == 0 {
        assert(t[0] == 0);
        lemma_le_bytes_zero_extend(s, t.skip(1));
    } else {
        lemma_le_bytes_zero_extend(s.skip(1), t.skip(1));
    }
}

/// Reads `count` bytes starting at `start` as one little-endian word.
pub(crate) fn le_word(bytes: &[u8], start: usize, count: usize) -> (r: u64)
    requires
        start + count <= bytes@.len(),
        count <= 8,
    ensures
        r == spec_le_bytes(bytes@.subrange(start as int, (start + count) as int)),
        r < pow2(8 * count as nat),
{
    proof {
        lemma_le_bytes_bound(bytes@.subrange(start as int, (start + count) as int));
        vstd::arithmetic::power2::lemma2_to64();
    }
    let nb = bytes.len();
    let mut x: u64 = 0;
    let mut k: usize = count;
    while k > 0
        invariant
            nb == bytes@.len(),
            start + count <= nb,
            count <= 8,
            0 <= k <= count,
            x == spec_le_bytes(bytes@.subrange((start + k) as int, (start + count) as int)),
            x < pow2(8 * (count - k) as nat),
        decreases k,
    {
        proof {
            vstd::arithmetic::power2::lemma_pow2_adds(8, 8 * (count - k) as nat);
            vstd::arithmetic::power2::lemma2_to64();
            vstd::arithmetic::power2::lemma2_to64_rest();
            if 8 * (count - k) < 56 {
                vstd::arithmetic::power2::lemma_pow2_strictly_increases(
                    8 * (count - k) as nat,
                    56,
                );
            }
            assert(bytes@.subrange((start + k - 1) as int, (start + count) as int).skip(1)
                =~= bytes@.subrange((start + k) as int, (start + count) as int));
        }
        x = x * 256 + (bytes[start + k - 1] as u64);
        k = k - 1;
    }
    x
}

/// The byte string regrouped as little-endian 64-bit words, the last word
/// zero-padded.
pub open spec fn spec_le_words(bytes: Seq<u8>) -> Seq<u64> {
    Seq::new(
        (bytes.len() + 7) / 8,
        |j: int|
            (spec_le_bytes(
                bytes.subrange(
                    8 * j,
                    if 8 * j + 8 <= bytes.len() {
                        8 * j + 8
                    } else {
                        bytes.len() as int
                    },
                ),
            ) as u64),
    )
}

/// How many seed words the byte-string kernel needs for an input length:
/// one header word, plus two table words per 64-bit word of input once the
/// input spills past a single word.
pub open spec fn spec_u8_seed_need(n: nat) -> nat {
    if n == 0 {
        1
    } else if n <= 4 {
        2
    } else if n <= 8 {
        3
    } else {
        2 * ((n + 7) / 8) + 1
    }
}

/// The byte-string pair-multiply-shift: short strings are packed into one
/// 32- or 64-bit word and sent to the scalar kernels; longer strings are
/// regrouped into 64-bit words and sent to the vector kernel.
pub open spec fn spec_pair_multiply_shift_vector_u8(
    bytes: Seq<u8>,
    num_bits: u32,
    seed: Seq<u64>,
) -> u32
    recommends
        1 <= num_bits <= 32,
        spec_u8_seed_need(bytes.len()) <= seed.len(),
{
    let n = bytes.len();
    if n == 0 {
        spec_extract_bits_64(seed[0], num_bits)
    } else if n <= 4 {
        spec_multiply_shift(spec_le_bytes(bytes) as u32, num_bits, seed)
    } else if n <= 8 {
        spec_pair_multiply_shift(spec_le_bytes(bytes) as u64, num_bits, seed)
    } else {
        spec_pair_multiply_shift_vector_u64(spec_le_words(bytes), num_bits, seed)
    }
}

/// Hashes a byte string to a 32-bit hash value.
///
/// For strings of one to four bytes the 32-bit kernel is used, so its
/// non-zero first seed word is required here as well.
#[inline]
pub fn pair_multiply_shift_vector_u8(value: &[u8], num_bits: u32, seed: &[u64]) -> (r: u32)
    requires
        1 <= num_bits <= 32,
        spec_u8_seed_need(value@.len()) <= seed@.len(),
        1 <= value@.len() <= 4 ==> seed[0] > 0,
    ensures
        r == spec_pair_multiply_shift_vector_u8(value@, num_bits, seed@),
        r < pow2(num_bits as nat),
{
    let n = value.len();
    if n == 0 {
        extract_bits_64::<64>(seed[0], num_bits)
    } else if n <= 4 {
        proof {
            lemma_le_bytes_bound(value@.subrange(0, n as int));
            vstd::arithmetic::power2::lemma2_to64();
            assert(value@.subrange(0, n as int) =~= value@);
        }
        let w = le_word(value, 0, n) as u32;
        let s2 = [seed[0], seed[1]];
        let r = multiply_shift(w, num_bits, &s2);
        proof {
            assert(spec_multiply_shift(w, num_bits, s2@) == spec_multiply_shift(
                w,
                num_bits,
                seed@,
            ));
        }
        r
    } else if n <= 8 {
        proof {
            assert(value@.subrange(0, n as int) =~= value@);
        }
        let w = le_word(value, 0, n);
        let s3 = [seed[0], seed[1], seed[2]];
        let r = pair_multiply_shift(w, num_bits, &s3);
        proof {
            assert(spec_pair_multiply_shift(w, num_bits, s3@) == spec_pair_multiply_shift(
                w,
                num_bits,
                seed@,
            ));
        }
        r
    } else {
        let d = (n - 1) / 8 + 1;
        proof {
            assert(d == (value@.len() + 7) / 8);
        }
        let mut words: Vec<u64> = Vec::new();
        let mut j: usize = 0;
        while j < d
            invariant
                n == value@.len(),
                n >= 9,
                d == (n + 7) / 8,
                0 <= j <= d,
                words@.len() == j,
                forall|t: int| 0 <= t < j ==> words@[t] == spec_le_words(value@)[t],
            decreases d - j,
        {
            let cnt = if n - 8 * j >= 8 {
                8
            } else {
                n - 8 * j
            };
            let w = le_word(value, 8 * j, cnt);
            words.push(w);
            j = j + 1;
        }
        proof {
            assert(words@ =~= spec_le_words(value@));
        }
        pair_multiply_shift_vector_u64(words.as_slice(), num_bits, seed)
    }
}

/// Hashes a byte string to a 32-bit hash value.
///
/// Twin of [`pair_multiply_shift_vector_u8`] in the constant-evaluator
/// style: padding buffers are filled by index loops and long strings are
/// accumulated chunk by chunk without an intermediate word vector.  The
/// shared specification states that the outputs agree.
#[inline]
pub fn pair_multiply_shift_vector_u8_const(value: &[u8], num_bits: u32, seed: &[u64]) -> (r: u32)
    requires
        1 <= num_bits <= 32,
        spec_u8_seed_need(value@.len()) <= seed@.len(),
        1 <= value@.len() <= 4 ==> seed[0] > 0,
    ensures
        r == spec_pair_multiply_shift_vector_u8(value@, num_bits, seed@),
        r < pow2(num_bits as nat),
{
    let n = value.len();
    if n == 0 {
        extract_bits_64::<64>(seed[0], num_bits)
    } else if n <= 4 {
        let mut padded = [0u8; 4];
        let mut i: usize = 0;
        while i < n
            invariant
                n == value@.len(),
                1 <= n <= 4,
                0 <= i <= n,
                padded@.len() == 4,
                forall|k: int| 0 <= k < i ==> padded@[k] == value@[k],
                forall|k: int| i <= k < 4 ==> padded@[k] == 0,
            decreases n - i,
        {
            padded[i] = value[i];
            i = i + 1;
        }
        proof {
            lemma_le_bytes_zero_extend(value@, padded@);
            lemma_le_bytes_bound(padded@);
            vstd::arithmetic::power2::lemma2_to64();
            assert(padded@.subrange(0, 4) =~= padded@);
        }
        let w = le_word(padded.as_slice(), 0, 4) as u32;
        let s2 = [seed[0], seed[1]];
        let r = multiply_shift(w, num_bits, &s2);
        proof {
            assert(spec_multiply_shift(w, num_bits, s2@) == spec_multiply_shift(
                w,
                num_bits,
                seed@,
            ));
        }
        r
    } else if n <= 8 {
        let mut padded = [0u8; 8];
        let mut i: usize = 0;
        while i < n
            invariant
                n == value@.len(),
                5 <= n <= 8,
                0 <= i <= n,
                padded@.len() == 8,
                forall|k: int| 0 <= k < i ==> padded@[k] == value@[k],
                forall|k: int| i <= k < 8 ==> padded@[k] == 0,
            decreases n - i,
        {
            padded[i] = value[i];
            i = i + 1;
        }
        proof {
            lemma_le_bytes_zero_extend(value@, padded@);
            assert(padded@.subrange(0, 8) =~= padded@);
        }
        let w = le_word(padded.as_slice(), 0, 8);
        let s3 = [seed[0], seed[1], seed[2]];
        let r = pair_multiply_shift(w, num_bits, &s3);
        proof {
            assert(spec_pair_multiply_shift(w, num_bits, s3@) == spec_pair_multiply_shift(
                w,
                num_bits,
                seed@,
            ));
        }
        r
    } else {
        let ghost words = spec_le_words(value@);
        let m = seed.len();
        let num_chunks = (n - 1) / 8 + 1;
        proof {
            assert(num_chunks == (value@.len() + 7) / 8);
        }
        let mut sum: u64 = seed[0];
        let mut chunk_idx: usize = 0;
        while chunk_idx < num_chunks
            invariant
                n == value@.len(),
                n >= 9,
                m == seed@.len(),
                num_chunks == (n + 7) / 8,
                2 * num_chunks + 1 <= m,
                words == spec_le_words(value@),
                0 <= chunk_idx <= num_chunks,
                sum == spec_pms_u64_sum(words, seed@, chunk_idx as int),
            decreases num_chunks - chunk_idx,
        {
            let byte_idx = chunk_idx * 8;
            let remaining = n - byte_idx;
            let bytes_to_copy = if remaining < 8 {
                remaining
            } else {
                8
            };
            let v = le_word(value, byte_idx, bytes_to_copy);
            proof {
                assert(v == words[chunk_idx as int]);
            }
            let s_idx = 1 + chunk_idx * 2;
            let low = v;
            let high = v >> 32u64;
            sum = sum.wrapping_add(seed[s_idx].wrapping_add(high).wrapping_mul(
                seed[s_idx + 1].wrapping_add(low),
            ));
            chunk_idx = chunk_idx + 1;
        }
        extract_bits_64::<64>(sum, num_bits)
    }
}

/// All branches of the byte-string kernel clip to the output range, also
/// at the specification level.
pub proof fn lemma_pms_vector_u8_range(bytes: Seq<u8>, num_bits: u32, seed: Seq<u64>)
    requires
        1 <= num_bits <= 32,
        spec_u8_seed_need(bytes.len()) <= seed.len(),
    ensures
        spec_pair_multiply_shift_vector_u8(bytes, num_bits, seed) < pow2(num_bits as nat),
{
    let n = bytes.len();
    if n == 0 {
        lemma_extract_bits_64(seed[0], num_bits);
    } else if n <= 4 {
        lemma_extract_bits_64(
            seed[0].wrapping_mul(spec_le_bytes(bytes) as u32 as u64).wrapping_add(seed[1]),
            num_bits,
        );
    } else if n <= 8 {
        let v = spec_le_bytes(bytes) as u64;
        lemma_extract_bits_64(
            seed[0].wrapping_add(v).wrapping_mul(seed[1].wrapping_add(v >> 32u64)).wrapping_add(
                seed[2],
            ),
            num_bits,
        );
    } else {
        let ws = spec_le_words(bytes);
        lemma_extract_bits_64(spec_pms_u64_sum(ws, seed, ws.len() as int), num_bits);
    }
}

} // verus!
