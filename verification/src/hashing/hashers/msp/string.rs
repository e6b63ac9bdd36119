//! MSP hashing for strings of unbounded length.
//!
//! Strings of up to 256 bytes go through the vectored multiply-shift
//! kernel; longer ones through the polynomial kernel over the Mersenne
//! prime.  The seed material carries both kernels' seeds.

use vstd::prelude::*;

verus! {

use vstd::arithmetic::power2::pow2;
use crate::hashing::common::{spec_num_bits_for_buckets, num_bits_for_buckets,
    lemma_num_bits_for_buckets};
use crate::hashing::multiply_shift::{spec_pair_multiply_shift_vector_u8,
    pair_multiply_shift_vector_u8, pair_multiply_shift_vector_u8_const,
    lemma_pms_vector_u8_range};
use crate::hashing::polynomial::{PolynomialSeed, spec_polynomial, polynomial, polynomial_const,
    lemma_polynomial_range};
use crate::hashing::hashers::msp::MSPKey;
use crate::random::xoshiro::{xoshiro_word, xoshiro_fill};
use crate::random::xorshift::{spec_xorshift64_word, fill_array};
use crate::hashing::hashers::msp::smallint::{spec_nonzero_seed, lemma_or_one_nonzero};

/// The longest string the vectored multiply-shift kernel handles; longer
/// ones go to the polynomial kernel.
pub const MAX_STR_VECTOR_LEN: usize = 256;

/// One header word plus two table words for each of the 32 words of the
/// longest vectored string.
pub const MUL_SHIFT_SEED_SIZE: usize = 65;

/// Seed material for string keys: the output width, the vectored kernel's
/// seed and the polynomial kernel's seed.
#[derive(Debug, Clone, Copy)]
pub struct StringState {
    num_bits: u32,
    mul_shift_seed: [u64; 65],
    polynomial_seed: PolynomialSeed,
}

impl View for StringState {
    type V = (u32, Seq<u64>, Seq<u64>);

    closed spec fn view(&self) -> (u32, Seq<u64>, Seq<u64>) {
        (self.num_bits, self.mul_shift_seed@, self.polynomial_seed@)
    }
}

/// The state view the runtime stream derives from a seed: the vectored
/// seed from the stream at `seed`, the polynomial seed from the stream one
/// step over, the leading word of each forced odd.
pub open spec fn spec_string_state(seed: u64, num_buckets: u32) -> (u32, Seq<u64>, Seq<u64>) {
    (
        spec_num_bits_for_buckets(num_buckets),
        Seq::new(
            65,
            |i: int|
                if i == 0 {
                    xoshiro_word(seed, 0) | 1
                } else {
                    xoshiro_word(seed, i)
                },
        ),
        Seq::new(
            132,
            |i: int|
                if i == 0 {
                    xoshiro_word(seed.wrapping_add(1), 0) | 1
                } else {
                    xoshiro_word(seed.wrapping_add(1), i)
                },
        ),
    )
}

/// The state view the constant-style generator derives from a seed; the
/// polynomial words are clamped below the prime's upper limb.
pub open spec fn spec_string_state_const(seed: u64, num_buckets: u32) -> (u32, Seq<u64>, Seq<u64>) {
    let s1 = spec_nonzero_seed(seed);
    let s2 = spec_nonzero_seed(seed.wrapping_add(1));
    (
        spec_num_bits_for_buckets(num_buckets),
        Seq::new(65, |i: int| spec_xorshift64_word(s1, i)),
        Seq::new(
            132,
            |i: int|
                if i == 0 {
                    (spec_xorshift64_word(s2, 0) | 1) & 0x1FF_FFFF
                } else {
                    spec_xorshift64_word(s2, i) & 0x1FF_FFFF
                },
        ),
    )
}

/// Whether the state is fit for hashing: both kernels' leading seed words
/// are non-zero, as they require.
pub open spec fn spec_string_state_wf(stv: (u32, Seq<u64>, Seq<u64>)) -> bool {
    &&& 1 <= stv.0 <= 31
    &&& stv.1.len() == 65
    &&& stv.1[0] > 0
    &&& stv.2.len() == 132
    &&& stv.2[0] > 0
}

/// The hash of a byte string under a string state.
pub open spec fn spec_string_hash_bytes(stv: (u32, Seq<u64>, Seq<u64>), bytes: Seq<u8>) -> u32 {
    if bytes.len() <= MAX_STR_VECTOR_LEN {
        spec_pair_multiply_shift_vector_u8(bytes, stv.0, stv.1)
    } else {
        spec_polynomial(bytes, stv.0, stv.2)
    }
}

/// The hash of a string key: its UTF-8 bytes hashed under the state.
pub open spec fn spec_string_hash(stv: (u32, Seq<u64>, Seq<u64>), key: Seq<char>) -> u32 {
    spec_string_hash_bytes(stv, vstd::utf8::encode_utf8(key))
}

/// A word forced odd and clamped keeps its low bit.
proof fn lemma_or_one_clamp_nonzero(w: u64)
    ensures
        ((w | 1) & 0x1FF_FFFF) > 0,
{
    assert(((w | 1) & 0x1FF_FFFF) > 0) by (bit_vector);
}

impl StringState {
    /// Derives the state from a seed with the runtime stream.
    pub fn from_seed(seed: u64, num_buckets: u32) -> (st: Self)
        requires
            1 <= num_buckets <= 0x8000_0000,
        ensures
            st@ == spec_string_state(seed, num_buckets),
            spec_string_state_wf(st@),
            st@.0 == spec_num_bits_for_buckets(num_buckets),
    {
        proof {
            lemma_num_bits_for_buckets(num_buckets);
        }
        let num_bits = num_bits_for_buckets(num_buckets);
        let ms_words = xoshiro_fill(seed, 65);
        let mut mul_shift_seed: [u64; 65] = [0; 65];
        let mut k: usize = 0;
        while k < 65
            invariant
                0 <= k <= 65,
                ms_words@.len() == 65,
                forall|i: int| 0 <= i < 65 ==> ms_words@[i] == xoshiro_word(seed, i),
                mul_shift_seed@.len() == 65,
                forall|i: int|
                    0 <= i < k ==> (#[trigger] mul_shift_seed@[i]) == spec_string_state(
                        seed,
                        num_buckets,
                    ).1[i],
            decreases 65 - k,
        {
            if k == 0 {
                proof {
                    lemma_or_one_nonzero(ms_words@[0]);
                }
                mul_shift_seed[k] = ms_words[k] | 1;
            } else {
                mul_shift_seed[k] = ms_words[k];
            }
            k = k + 1;
        }
        let mut poly_words = xoshiro_fill(seed.wrapping_add(1), 132);
        let first = poly_words[0] | 1;
        proof {
            lemma_or_one_nonzero(poly_words@[0]);
        }
        poly_words[0] = first;
        let polynomial_seed = PolynomialSeed::from_slice(poly_words.as_slice());
        let st = StringState { num_bits, mul_shift_seed, polynomial_seed };
        proof {
            lemma_or_one_nonzero(ms_words@[0]);
            assert(st@.1 =~= spec_string_state(seed, num_buckets).1);
            assert(st@.2 =~= spec_string_state(seed, num_buckets).2);
        }
        st
    }

    /// Derives the state from a seed with the constant-style generator.
    pub fn from_seed_const(seed: u64, num_buckets: u32) -> (st: Self)
        requires
            1 <= num_buckets <= 0x8000_0000,
        ensures
            st@ == spec_string_state_const(seed, num_buckets),
            spec_string_state_wf(st@),
            st@.0 == spec_num_bits_for_buckets(num_buckets),
    {
        proof {
            lemma_num_bits_for_buckets(num_buckets);
        }
        let num_bits = num_bits_for_buckets(num_buckets);
        let s1 = if seed == 0 {
            1
        } else {
            seed
        };
        let w = seed.wrapping_add(1);
        let s2 = if w == 0 {
            1
        } else {
            w
        };
        let ms_words = fill_array(65, s1);
        let mut mul_shift_seed: [u64; 65] = [0; 65];
        let mut k: usize = 0;
        while k < 65
            invariant
                0 <= k <= 65,
                ms_words@.len() == 65,
                forall|i: int| 0 <= i < 65 ==> ms_words@[i] == spec_xorshift64_word(s1 as u64, i),
                mul_shift_seed@.len() == 65,
                forall|i: int|
                    0 <= i < k ==> (#[trigger] mul_shift_seed@[i]) == spec_xorshift64_word(
                        s1 as u64,
                        i,
                    ),
            decreases 65 - k,
        {
            mul_shift_seed[k] = ms_words[k];
            k = k + 1;
        }
        proof {
            crate::random::xorshift::lemma_xorshift64_state_nonzero(s1, 1);
        }
        let mut poly_words = fill_array(132, s2);
        let first = (poly_words[0] | 1) & 0x1FF_FFFF;
        proof {
            lemma_or_one_clamp_nonzero(poly_words@[0]);
        }
        poly_words[0] = first;
        let mut k2: usize = 1;
        while k2 < 132
            invariant
                1 <= k2 <= 132,
                poly_words@.len() == 132,
                poly_words@[0] == spec_string_state_const(seed, num_buckets).2[0],
                poly_words@[0] > 0,
                forall|i: int|
                    k2 <= i < 132 ==> (#[trigger] poly_words@[i]) == spec_xorshift64_word(
                        s2 as u64,
                        i,
                    ),
                forall|i: int|
                    1 <= i < k2 ==> (#[trigger] poly_words@[i]) == spec_xorshift64_word(
                        s2 as u64,
                        i,
                    ) & 0x1FF_FFFF,
                s2 == spec_nonzero_seed(seed.wrapping_add(1)),
            decreases 132 - k2,
        {
            let clamped = poly_words[k2] & 0x1FF_FFFF;
            poly_words[k2] = clamped;
            k2 = k2 + 1;
        }
        let polynomial_seed = PolynomialSeed::from_slice(poly_words.as_slice());
        let st = StringState { num_bits, mul_shift_seed, polynomial_seed };
        proof {
            assert(st@.1 =~= spec_string_state_const(seed, num_buckets).1);
            assert(st@.2 =~= spec_string_state_const(seed, num_buckets).2);
        }
        st
    }
}

impl Default for StringState {
    /// An all-zero state apart from the leading seed words, which stay
    /// odd so that the kernels' preconditions hold.
    fn default() -> (r: Self)
        ensures
            r@ == (
                0u32,
                Seq::new(65, |i: int| if i == 0 { 1u64 } else { 0u64 }),
                Seq::new(132, |i: int| if i == 0 { 1u64 } else { 0u64 }),
            ),
    {
        let mut mul_shift_seed: [u64; 65] = [0; 65];
        mul_shift_seed[0] = 1;
        let mut poly_words: [u64; 132] = [0; 132];
        poly_words[0] = 1;
        let polynomial_seed = PolynomialSeed::from_slice(poly_words.as_slice());
        let r = StringState { num_bits: 0, mul_shift_seed, polynomial_seed };
        proof {
            assert(r@.1 =~= Seq::new(65, |i: int| if i == 0 { 1u64 } else { 0u64 }));
            assert(r@.2 =~= Seq::new(132, |i: int| if i == 0 { 1u64 } else { 0u64 }));
        }
        r
    }
}

/// Hashes a byte slice under a string state.
fn string_hash_bytes(st: &StringState, bytes: &[u8]) -> (r: u32)
    requires
        spec_string_state_wf(st@),
    ensures
        r == spec_string_hash_bytes(st@, bytes@),
        r < pow2(st@.0 as nat),
{
    if bytes.len() <= MAX_STR_VECTOR_LEN {
        pair_multiply_shift_vector_u8(bytes, st.num_bits, &st.mul_shift_seed)
    } else {
        polynomial(bytes, st.num_bits, &st.polynomial_seed)
    }
}

/// Hashes a byte slice under a string state with the constant-style
/// kernels; the shared specification states that the outputs agree.
fn string_hash_bytes_const(st: &StringState, bytes: &[u8]) -> (r: u32)
    requires
        spec_string_state_wf(st@),
    ensures
        r == spec_string_hash_bytes(st@, bytes@),
        r < pow2(st@.0 as nat),
{
    if bytes.len() <= MAX_STR_VECTOR_LEN {
        pair_multiply_shift_vector_u8_const(bytes, st.num_bits, &st.mul_shift_seed)
    } else {
        polynomial_const(bytes, st.num_bits, &st.polynomial_seed)
    }
}

impl MSPKey for String {
    type State = StringState;

    open spec fn spec_make_state(seed: u64, num_buckets: u32) -> (u32, Seq<u64>, Seq<u64>) {
        spec_string_state(seed, num_buckets)
    }

    open spec fn spec_make_state_const(seed: u64, num_buckets: u32) -> (u32, Seq<u64>, Seq<u64>) {
        spec_string_state_const(seed, num_buckets)
    }

    open spec fn spec_state_default() -> (u32, Seq<u64>, Seq<u64>) {
        (
            0u32,
            Seq::new(65, |i: int| if i == 0 { 1u64 } else { 0u64 }),
            Seq::new(132, |i: int| if i == 0 { 1u64 } else { 0u64 }),
        )
    }

    open spec fn state_wf(stv: (u32, Seq<u64>, Seq<u64>)) -> bool {
        spec_string_state_wf(stv)
    }

    open spec fn state_num_bits(stv: (u32, Seq<u64>, Seq<u64>)) -> u32 {
        stv.0
    }

    open spec fn spec_state_hash(stv: (u32, Seq<u64>, Seq<u64>), key: Seq<char>) -> u32 {
        spec_string_hash(stv, key)
    }

    proof fn state_wf_bits(stv: (u32, Seq<u64>, Seq<u64>)) {
    }

    proof fn state_hash_range(stv: (u32, Seq<u64>, Seq<u64>), key: Seq<char>) {
        let bytes = vstd::utf8::encode_utf8(key);
        if bytes.len() <= MAX_STR_VECTOR_LEN {
            lemma_pms_vector_u8_range(bytes, stv.0, stv.1);
        } else {
            lemma_polynomial_range(bytes, stv.0, stv.2);
        }
    }

    fn make_state(seed: u64, num_buckets: u32) -> (st: StringState) {
        StringState::from_seed(seed, num_buckets)
    }

    fn make_state_const(seed: u64, num_buckets: u32) -> (st: StringState) {
        StringState::from_seed_const(seed, num_buckets)
    }

    fn state_default() -> (st: StringState) {
        StringState::default()
    }

    fn state_num_bits_exec(st: &StringState) -> (r: u32) {
        st.num_bits
    }

    fn state_hash(st: &StringState, key: &String) -> (r: u32) {
        string_hash_bytes(st, key.as_str().as_bytes())
    }

    fn state_hash_const(st: &StringState, key: &String) -> (r: u32) {
        string_hash_bytes_const(st, key.as_str().as_bytes())
    }
}

} // verus!
