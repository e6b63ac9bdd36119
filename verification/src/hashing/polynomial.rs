//! Polynomial hashing for strings of unbounded length, after the
//! carry-less Horner construction of Dietzfelbinger and Thorup.
//!
//! The input is cut into 256-byte chunks.  Each chunk is compressed to a
//! 64-bit value by concatenating two independent 32-bit vectored
//! multiply-shift hashes, and the chunk hashes are combined by Horner's rule
//! over the Mersenne prime `2^89 - 1`, using the fast Mersenne reduction
//! after every step.

use vstd::prelude::*;

verus! {

use vstd::arithmetic::power2::{pow2, lemma_pow2_adds, lemma2_to64, lemma2_to64_rest};
use crate::hashing::common::{
    spec_extract_bits_64, extract_bits_64, spec_extract_bits_128, extract_bits_128,
    mod_mersenne_prime,
};
use crate::hashing::multiply_shift::{
    spec_pair_multiply_shift_vector_u64, pair_multiply_shift_vector_u64,
    pair_multiply_shift_vector_u64_const, spec_le_bytes, le_word,
};

/// The exponent of the Mersenne prime the reduction works over.
pub const P_E: u32 = 89;

/// The Mersenne prime `2^89 - 1`.
pub const P: u128 = 0x1FFFFFFFFFFFFFFFFFFFFFF;

pub proof fn lemma_p_is_mersenne()
    ensures
        P == pow2(P_E as nat) - 1,
{
    lemma2_to64();
    lemma2_to64_rest();
    lemma_pow2_adds(64, 25);
}

/// The words of the seed of the polynomial hasher: the Horner multiplier,
/// the absolute term, and two 65-word seeds for the chunk compressor.
pub type PolynomialSeedValue = [u64; 132];

/// The seed of the polynomial hasher.
#[derive(Debug, Clone, Copy)]
pub struct PolynomialSeed {
    value: PolynomialSeedValue,
}

impl View for PolynomialSeed {
    type V = Seq<u64>;

    closed spec fn view(&self) -> Seq<u64> {
        self.value@
    }
}

impl PolynomialSeed {
    /// Lays the parts of the seed out in their order: multiplier, absolute
    /// term, first compressor seed (table then trailing word), second
    /// compressor seed (likewise).
    pub fn new(
        a: u64,
        b: u64,
        h1_a: [u64; 64],
        h1_a_d: u64,
        h2_a: [u64; 64],
        h2_a_d: u64,
    ) -> (r: Self)
        ensures
            r@.len() == 132,
            r@[0] == a,
            r@[1] == b,
            forall|k: int| 0 <= k < 64 ==> r@[2 + k] == h1_a@[k],
            r@[66] == h1_a_d,
            forall|k: int| 0 <= k < 64 ==> r@[67 + k] == h2_a@[k],
            r@[131] == h2_a_d,
    {
        let mut seed: [u64; 132] = [0; 132];
        seed[0] = a;
        seed[1] = b;
        let mut k: usize = 0;
        while k < 64
            invariant
                0 <= k <= 64,
                seed@.len() == 132,
                seed@[0] == a,
                seed@[1] == b,
                forall|t: int| 0 <= t < k ==> seed@[2 + t] == h1_a@[t],
            decreases 64 - k,
        {
            seed[2 + k] = h1_a[k];
            k = k + 1;
        }
        seed[66] = h1_a_d;
        let mut k2: usize = 0;
        while k2 < 64
            invariant
                0 <= k2 <= 64,
                seed@.len() == 132,
                seed@[0] == a,
                seed@[1] == b,
                seed@[66] == h1_a_d,
                forall|t: int| 0 <= t < 64 ==> seed@[2 + t] == h1_a@[t],
                forall|t: int| 0 <= t < k2 ==> seed@[67 + t] == h2_a@[t],
            decreases 64 - k2,
        {
            seed[67 + k2] = h2_a[k2];
            k2 = k2 + 1;
        }
        seed[131] = h2_a_d;
        PolynomialSeed { value: seed }
    }

    /// Takes a full seed as one slice of 132 words.
    pub fn from_slice(slice: &[u64]) -> (r: Self)
        requires
            slice@.len() == 132,
        ensures
            r@ == slice@,
    {
        let mut seed: [u64; 132] = [0; 132];
        let mut k: usize = 0;
        while k < 132
            invariant
                0 <= k <= 132,
                slice@.len() == 132,
                seed@.len() == 132,
                forall|t: int| 0 <= t < k ==> seed@[t] == slice@[t],
            decreases 132 - k,
        {
            seed[k] = slice[k];
            k = k + 1;
        }
        proof {
            assert(seed@ =~= slice@);
        }
        PolynomialSeed { value: seed }
    }
}

impl Default for PolynomialSeed {
    /// An all-zero seed apart from a multiplier of one.
    fn default() -> (r: Self)
        ensures
            r@.len() == 132,
            r@[0] == 1,
            forall|k: int| 1 <= k < 132 ==> r@[k] == 0,
    {
        let mut seed: [u64; 132] = [0; 132];
        seed[0] = 1;
        PolynomialSeed { value: seed }
    }
}

/// Reduction modulo the Mersenne prime.
pub open spec fn spec_mod_p(x: u128) -> u128 {
    (x as nat % P as nat) as u128
}

/// Word `j` of chunk `i` of the byte string: the eight bytes starting at
/// `256 i + 8 j` read little-endian, the range clipped to the string and
/// padded with zeros.
pub open spec fn spec_chunk_word(bytes: Seq<u8>, i: int, j: int) -> u64 {
    let start = 256 * i + 8 * j;
    let lo = if start > bytes.len() {
        bytes.len() as int
    } else {
        start
    };
    let hi = if start + 8 > bytes.len() {
        bytes.len() as int
    } else {
        start + 8
    };
    spec_le_bytes(bytes.subrange(lo, hi)) as u64
}

/// Chunk `i` of the byte string as 32 little-endian words.
pub open spec fn spec_chunk_words(bytes: Seq<u8>, i: int) -> Seq<u64> {
    Seq::new(32, |j: int| spec_chunk_word(bytes, i, j))
}

/// A chunk compressed to 64 bits: two independent 32-bit vectored
/// multiply-shift hashes, concatenated.
pub open spec fn spec_hash_chunk(chunk: Seq<u64>, h1_seed: Seq<u64>, h2_seed: Seq<u64>) -> u64 {
    let high = spec_pair_multiply_shift_vector_u64(chunk, 32, h1_seed) as u64;
    let low = spec_pair_multiply_shift_vector_u64(chunk, 32, h2_seed) as u64;
    (high << 32u64) | low
}

/// The number of 256-byte chunks the string is cut into, the last one
/// possibly partial.
pub open spec fn spec_num_chunks(n: nat) -> int {
    (n + 255) as int / 256
}

/// The Horner accumulator over the first `t` chunk hashes, starting from
/// the absolute term and reduced modulo the prime after every step.
pub open spec fn spec_poly_acc(bytes: Seq<u8>, seed: Seq<u64>, t: int) -> u128
    decreases t,
{
    if t <= 0 {
        seed[1] as u128
    } else {
        spec_mod_p(
            spec_poly_acc(bytes, seed, t - 1).wrapping_mul(seed[0] as u128).wrapping_add(
                spec_hash_chunk(
                    spec_chunk_words(bytes, t - 1),
                    seed.subrange(2, 67),
                    seed.subrange(67, 132),
                ) as u128,
            ),
        )
    }
}

/// The polynomial hash: the Horner accumulator over all chunks, multiplied
/// once more by the multiplier and reduced, then clipped to the top
/// `num_bits` of its 89 bits.  An empty string takes the top bits of the
/// absolute term directly.
pub open spec fn spec_polynomial(bytes: Seq<u8>, num_bits: u32, seed: Seq<u64>) -> u32
    recommends
        1 <= num_bits <= 32,
        seed.len() == 132,
{
    if bytes.len() == 0 {
        spec_extract_bits_64(seed[1], num_bits)
    } else {
        spec_extract_bits_128(
            spec_mod_p(
                spec_poly_acc(bytes, seed, spec_num_chunks(bytes.len())).wrapping_mul(
                    seed[0] as u128,
                ),
            ),
            89,
            num_bits,
        )
    }
}

/// The polynomial hash clips to the output range, also at the
/// specification level.
pub proof fn lemma_polynomial_range(bytes: Seq<u8>, num_bits: u32, seed: Seq<u64>)
    requires
        1 <= num_bits <= 32,
    ensures
        spec_polynomial(bytes, num_bits, seed) < pow2(num_bits as nat),
{
    lemma_p_is_mersenne();
    vstd::arithmetic::power2::lemma_pow2_pos(89);
    if bytes.len() == 0 {
        crate::hashing::common::lemma_extract_bits_64(seed[1], num_bits);
    } else {
        let acc = spec_poly_acc(bytes, seed, spec_num_chunks(bytes.len())).wrapping_mul(
            seed[0] as u128,
        );
        assert(spec_mod_p(acc) < P);
        crate::hashing::common::lemma_extract_bits_128(spec_mod_p(acc), 89, num_bits);
    }
}

/// Compresses one chunk of at most 32 words to 64 bits.
fn hash_chunk(chunk: &[u64], h1_seed: &[u64], h2_seed: &[u64]) -> (r: u64)
    requires
        2 * chunk@.len() + 1 <= h1_seed@.len(),
        2 * chunk@.len() + 1 <= h2_seed@.len(),
    ensures
        r == spec_hash_chunk(chunk@, h1_seed@, h2_seed@),
{
    let chunk_hash_high = pair_multiply_shift_vector_u64(chunk, 32, h1_seed);
    let chunk_hash_low = pair_multiply_shift_vector_u64(chunk, 32, h2_seed);
    ((chunk_hash_high as u64) << 32u64) | (chunk_hash_low as u64)
}

/// Compresses one chunk of at most 32 words to 64 bits.
///
/// Twin of [`hash_chunk`] built on the constant-evaluator style kernel; the
/// shared specification states that the outputs agree.
fn hash_chunk_const(chunk: &[u64], h1_seed: &[u64], h2_seed: &[u64]) -> (r: u64)
    requires
        2 * chunk@.len() + 1 <= h1_seed@.len(),
        2 * chunk@.len() + 1 <= h2_seed@.len(),
    ensures
        r == spec_hash_chunk(chunk@, h1_seed@, h2_seed@),
{
    let chunk_hash_high = pair_multiply_shift_vector_u64_const(chunk, 32, h1_seed);
    let chunk_hash_low = pair_multiply_shift_vector_u64_const(chunk, 32, h2_seed);
    ((chunk_hash_high as u64) << 32u64) | (chunk_hash_low as u64)
}

/// Hashes a byte string of any length to a 32-bit hash value.
///
/// The seed's first word is the Horner multiplier and must be non-zero.
#[inline]
pub fn polynomial(value: &[u8], num_bits: u32, seed: &PolynomialSeed) -> (r: u32)
    requires
        1 <= num_bits <= 32,
        seed@[0] > 0,
    ensures
        r == spec_polynomial(value@, num_bits, seed@),
        r < pow2(num_bits as nat),
{
    proof {
        lemma_p_is_mersenne();
        vstd::arithmetic::power2::lemma_pow2_pos(89);
    }
    let n = value.len();
    let a = seed.value[0];
    let b = seed.value[1];
    let h1_seed: &[u64] = &seed.value[2..67];
    let h2_seed: &[u64] = &seed.value[67..132];

    if n == 0 {
        return extract_bits_64::<64>(b, num_bits);
    }
    let num_chunks = (n - 1) / 256 + 1;
    proof {
        assert(num_chunks == spec_num_chunks(value@.len()));
    }

    let mut hash_value: u128 = b as u128;
    let mut i: usize = 0;
    while i < num_chunks
        invariant
            n == value@.len(),
            1 <= n,
            num_chunks == spec_num_chunks(n as nat),
            0 <= i <= num_chunks,
            a == seed@[0],
            b == seed@[1],
            h1_seed@ == seed@.subrange(2, 67),
            h2_seed@ == seed@.subrange(67, 132),
            hash_value == spec_poly_acc(value@, seed@, i as int),
            i >= 1 ==> hash_value < P,
        decreases num_chunks - i,
    {
        proof {
            if i >= 1 {
                assert(i <= (n - 1) / 256);
                assert(256 * ((n - 1) / 256) <= n - 1) by {
                    vstd::arithmetic::div_mod::lemma_fundamental_div_mod((n - 1) as int, 256);
                    vstd::arithmetic::div_mod::lemma_mod_bound((n - 1) as int, 256);
                };
                vstd::arithmetic::mul::lemma_mul_inequality(i as int, ((n - 1) / 256) as int, 256);
            }
        }
        let words = chunk_words(value, i);
        let chunk_hash = hash_chunk(words.as_slice(), h1_seed, h2_seed);
        proof {
            lemma_p_is_mersenne();
        }
        hash_value = mod_mersenne_prime::<89, P>(
            hash_value.wrapping_mul(a as u128).wrapping_add(chunk_hash as u128),
        );
        i = i + 1;
    }

    proof {
        lemma_p_is_mersenne();
    }
    let final_value = mod_mersenne_prime::<89, P>(hash_value.wrapping_mul(a as u128));
    proof {
        lemma_p_is_mersenne();
        assert(final_value < pow2(89));
    }
    extract_bits_128::<89>(final_value, num_bits)
}

/// Hashes a byte string of any length to a 32-bit hash value.
///
/// Twin of [`polynomial`] in the constant-evaluator style: the chunk words
/// are assembled into a fixed buffer by an index loop and compressed with
/// the constant-style kernels.  The shared specification states that the
/// outputs agree.
#[inline]
pub fn polynomial_const(value: &[u8], num_bits: u32, seed: &PolynomialSeed) -> (r: u32)
    requires
        1 <= num_bits <= 32,
        seed@[0] > 0,
    ensures
        r == spec_polynomial(value@, num_bits, seed@),
        r < pow2(num_bits as nat),
{
    proof {
        lemma_p_is_mersenne();
        vstd::arithmetic::power2::lemma_pow2_pos(89);
    }
    let n = value.len();
    let a = seed.value[0];
    let b = seed.value[1];
    let h1_seed: &[u64] = &seed.value[2..67];
    let h2_seed: &[u64] = &seed.value[67..132];

    if n == 0 {
        return extract_bits_64::<64>(b, num_bits);
    }
    let num_chunks = (n - 1) / 256 + 1;
    proof {
        assert(num_chunks == spec_num_chunks(value@.len()));
    }

    let mut hash_value: u128 = b as u128;
    let mut i: usize = 0;
    while i < num_chunks
        invariant
            n == value@.len(),
            1 <= n,
            num_chunks == spec_num_chunks(n as nat),
            0 <= i <= num_chunks,
            a == seed@[0],
            b == seed@[1],
            h1_seed@ == seed@.subrange(2, 67),
            h2_seed@ == seed@.subrange(67, 132),
            hash_value == spec_poly_acc(value@, seed@, i as int),
            i >= 1 ==> hash_value < P,
        decreases num_chunks - i,
    {
        let base = 256 * i;
        let mut buffer: [u64; 32] = [0; 32];
        let mut j: usize = 0;
        while j < 32
            invariant
                n == value@.len(),
                num_chunks == spec_num_chunks(n as nat),
                0 <= i < num_chunks,
                base == 256 * i,
                base == 0 || base < n,
                0 <= j <= 32,
                buffer@.len() == 32,
                forall|t: int| 0 <= t < j ==> buffer@[t] == spec_chunk_word(value@, i as int, t),
            decreases 32 - j,
        {
            let off = 8 * j;
            let w: u64;
            if base >= n || n - base <= off {
                w = le_word(value, n, 0);
                proof {
                    assert(value@.subrange(n as int, n as int) =~= value@.subrange(
                        n as int,
                        n as int,
                    ));
                }
            } else {
                let avail = n - base - off;
                let cnt = if avail < 8 {
                    avail
                } else {
                    8
                };
                w = le_word(value, base + off, cnt);
            }
            buffer[j] = w;
            j = j + 1;
        }
        proof {
            assert(buffer@ =~= spec_chunk_words(value@, i as int));
        }
        let chunk_hash = hash_chunk_const(buffer.as_slice(), h1_seed, h2_seed);
        proof {
            lemma_p_is_mersenne();
        }
        hash_value = mod_mersenne_prime::<89, P>(
            hash_value.wrapping_mul(a as u128).wrapping_add(chunk_hash as u128),
        );
        i = i + 1;
    }

    proof {
        lemma_p_is_mersenne();
    }
    let final_value = mod_mersenne_prime::<89, P>(hash_value.wrapping_mul(a as u128));
    proof {
        lemma_p_is_mersenne();
        assert(final_value < pow2(89));
    }
    extract_bits_128::<89>(final_value, num_bits)
}

/// Reads chunk `i` of the byte string as 32 zero-padded little-endian words.
fn chunk_words(value: &[u8], i: usize) -> (r: Vec<u64>)
    requires
        i >= 1 ==> 256 * i <= value@.len() - 1,
    ensures
        r@ == spec_chunk_words(value@, i as int),
{
    let n = value.len();
    let base = 256 * i;
    let mut words: Vec<u64> = Vec::new();
    let mut j: usize = 0;
    while j < 32
        invariant
            n == value@.len(),
            base == 256 * i,
            base == 0 || base < n,
            0 <= j <= 32,
            words@.len() == j,
            forall|t: int| 0 <= t < j ==> words@[t] == spec_chunk_word(value@, i as int, t),
        decreases 32 - j,
    {
        let off = 8 * j;
        let w: u64;
        if base >= n || n - base <= off {
            w = le_word(value, n, 0);
            proof {
                assert(value@.subrange(n as int, n as int) =~= value@.subrange(
                    n as int,
                    n as int,
                ));
            }
        } else {
            let avail = n - base - off;
            let cnt = if avail < 8 {
                avail
            } else {
                8
            };
            w = le_word(value, base + off, cnt);
        }
        words.push(w);
        j = j + 1;
    }
    proof {
        assert(words@ =~= spec_chunk_words(value@, i as int));
    }
    words
}

} // verus!
