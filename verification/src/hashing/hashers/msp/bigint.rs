//! MSP hashing for integer key types wider than 64 bits and for the
//! pointer-sized integers, through the byte-string kernel over their
//! little-endian bytes; fixed-size arrays of 128-bit keys are hashed
//! limb-wise with their own seed table.

use vstd::prelude::*;

verus! {

use vstd::arithmetic::power2::pow2;
use crate::hashing::common::{spec_num_bits_for_buckets, num_bits_for_buckets,
    lemma_num_bits_for_buckets, spec_extract_bits_64};
use crate::hashing::multiply_shift::{spec_pair_multiply_shift_vector_u8,
    pair_multiply_shift_vector_u8, pair_multiply_shift_vector_u8_const,
    lemma_pms_vector_u8_range};
use crate::hashing::hashers::msp::MSPKey;
use crate::random::xoshiro::{xoshiro_word, xoshiro_fill};
use crate::random::xorshift::{spec_xorshift64_word, fill_array};
use crate::hashing::hashers::msp::smallint::spec_nonzero_seed;

/// Enough seed words for the widest supported key: sixteen bytes need two
/// table pairs and one header word.
pub const MAX_SEED_SIZE: usize = 5;

/// Seed material for wide integer keys: the output width, the seed words
/// and how many of them this key width uses.
#[derive(Debug, Clone, Copy)]
pub struct BigIntState {
    num_bits: u32,
    seed: [u64; 5],
    seed_len: usize,
}

impl View for BigIntState {
    type V = (u32, Seq<u64>);

    closed spec fn view(&self) -> (u32, Seq<u64>) {
        (
            self.num_bits,
            self.seed@.take(
                if self.seed_len <= 5 {
                    self.seed_len as int
                } else {
                    5
                },
            ),
        )
    }
}

/// The state view derived by the runtime stream for a key of `words`
/// seed words.
pub open spec fn spec_bigint_state(seed: u64, num_buckets: u32, words: int) -> (u32, Seq<u64>) {
    (spec_num_bits_for_buckets(num_buckets), Seq::new(words as nat, |i: int| xoshiro_word(seed, i)))
}

/// The state view derived by the constant-style generator.
pub open spec fn spec_bigint_state_const(seed: u64, num_buckets: u32, words: int) -> (
    u32,
    Seq<u64>,
) {
    let s = spec_nonzero_seed(seed);
    (
        spec_num_bits_for_buckets(num_buckets),
        Seq::new(words as nat, |i: int| spec_xorshift64_word(s, i)),
    )
}

/// Whether the state is fit for hashing a key of `words` seed words.
pub open spec fn spec_bigint_state_wf(stv: (u32, Seq<u64>), words: int) -> bool {
    &&& 1 <= stv.0 <= 31
    &&& stv.1.len() == words
}

impl BigIntState {
    /// Derives a state of `seed_len` words with the runtime stream.
    pub fn from_seed(seed: u64, num_buckets: u32, seed_len: usize) -> (st: Self)
        requires
            1 <= num_buckets <= 0x8000_0000,
            3 <= seed_len <= 5,
        ensures
            st@ == spec_bigint_state(seed, num_buckets, seed_len as int),
            spec_bigint_state_wf(st@, seed_len as int),
            st@.0 == spec_num_bits_for_buckets(num_buckets),
    {
        proof {
            lemma_num_bits_for_buckets(num_buckets);
        }
        let num_bits = num_bits_for_buckets(num_buckets);
        let words = xoshiro_fill(seed, seed_len);
        let mut seed_arr: [u64; 5] = [0; 5];
        let mut k: usize = 0;
        while k < seed_len
            invariant
                3 <= seed_len <= 5,
                0 <= k <= seed_len,
                words@.len() == seed_len,
                forall|i: int| 0 <= i < seed_len ==> words@[i] == xoshiro_word(seed, i),
                seed_arr@.len() == 5,
                forall|i: int| 0 <= i < k ==> (#[trigger] seed_arr@[i]) == xoshiro_word(seed, i),
            decreases seed_len - k,
        {
            seed_arr[k] = words[k];
            k = k + 1;
        }
        let st = BigIntState { num_bits, seed: seed_arr, seed_len };
        proof {
            assert(st@.1 =~= spec_bigint_state(seed, num_buckets, seed_len as int).1);
        }
        st
    }

    /// Derives a state of `seed_len` words with the constant-style
    /// generator.
    pub fn from_seed_const(seed: u64, num_buckets: u32, seed_len: usize) -> (st: Self)
        requires
            1 <= num_buckets <= 0x8000_0000,
            3 <= seed_len <= 5,
        ensures
            st@ == spec_bigint_state_const(seed, num_buckets, seed_len as int),
            spec_bigint_state_wf(st@, seed_len as int),
            st@.0 == spec_num_bits_for_buckets(num_buckets),
    {
        proof {
            lemma_num_bits_for_buckets(num_buckets);
        }
        let num_bits = num_bits_for_buckets(num_buckets);
        let s = if seed == 0 {
            1
        } else {
            seed
        };
        let words = fill_array(seed_len, s);
        let mut seed_arr: [u64; 5] = [0; 5];
        let mut k: usize = 0;
        while k < seed_len
            invariant
                3 <= seed_len <= 5,
                0 <= k <= seed_len,
                words@.len() == seed_len,
                forall|i: int|
                    0 <= i < seed_len ==> words@[i] == spec_xorshift64_word(s as u64, i),
                seed_arr@.len() == 5,
                forall|i: int|
                    0 <= i < k ==> (#[trigger] seed_arr@[i]) == spec_xorshift64_word(
                        s as u64,
                        i,
                    ),
                s == spec_nonzero_seed(seed),
            decreases seed_len - k,
        {
            seed_arr[k] = words[k];
            k = k + 1;
        }
        let st = BigIntState { num_bits, seed: seed_arr, seed_len };
        proof {
            assert(st@.1 =~= spec_bigint_state_const(seed, num_buckets, seed_len as int).1);
        }
        st
    }
}

impl Default for BigIntState {
    /// The all-zero state at the widest seed length.
    fn default() -> (r: Self)
        ensures
            r@ == (0u32, Seq::new(5, |i: int| 0u64)),
    {
        let r = BigIntState { num_bits: 0, seed: [0; 5], seed_len: 5 };
        proof {
            assert(r@.1 =~= Seq::new(5, |i: int| 0u64));
        }
        r
    }
}

/// The little-endian bytes of a 128-bit value.
pub open spec fn spec_u128_le_bytes(v: u128) -> Seq<u8> {
    Seq::new(16, |i: int| (v >> ((8 * i) as u128)) as u8)
}

/// The little-endian bytes of a 64-bit value.
pub open spec fn spec_u64_le_bytes(v: u64) -> Seq<u8> {
    Seq::new(8, |i: int| (v >> ((8 * i) as u64)) as u8)
}

/// Reads a 128-bit value as its sixteen little-endian bytes.
fn u128_le_bytes(v: u128) -> (r: [u8; 16])
    ensures
        r@ == spec_u128_le_bytes(v),
{
    let mut out: [u8; 16] = [0; 16];
    let mut i: usize = 0;
    while i < 16
        invariant
            0 <= i <= 16,
            out@.len() == 16,
            forall|t: int| 0 <= t < i ==> (#[trigger] out@[t]) == (v >> ((8 * t) as u128)) as u8,
        decreases 16 - i,
    {
        out[i] = (v >> ((8 * i) as u128)) as u8;
        i = i + 1;
    }
    proof {
        assert(out@ =~= spec_u128_le_bytes(v));
    }
    out
}

/// Reads a 64-bit value as its eight little-endian bytes.
fn u64_le_bytes(v: u64) -> (r: [u8; 8])
    ensures
        r@ == spec_u64_le_bytes(v),
{
    let mut out: [u8; 8] = [0; 8];
    let mut i: usize = 0;
    while i < 8
        invariant
            0 <= i <= 8,
            out@.len() == 8,
            forall|t: int| 0 <= t < i ==> (#[trigger] out@[t]) == (v >> ((8 * t) as u64)) as u8,
        decreases 8 - i,
    {
        out[i] = (v >> ((8 * i) as u64)) as u8;
        i = i + 1;
    }
    proof {
        assert(out@ =~= spec_u64_le_bytes(v));
    }
    out
}

/// The hash of a 128-bit key under a wide-integer state.
pub open spec fn spec_bigint_hash_u128(stv: (u32, Seq<u64>), v: u128) -> u32 {
    spec_pair_multiply_shift_vector_u8(spec_u128_le_bytes(v), stv.0, stv.1)
}

/// The hash of a pointer-sized key, widened to 64 bits, under a
/// wide-integer state.
pub open spec fn spec_bigint_hash_u64(stv: (u32, Seq<u64>), v: u64) -> u32 {
    spec_pair_multiply_shift_vector_u8(spec_u64_le_bytes(v), stv.0, stv.1)
}

/// Hashes a 128-bit key under a wide-integer state.
fn bigint_hash_u128(st: &BigIntState, v: u128, use_const: bool) -> (r: u32)
    requires
        spec_bigint_state_wf(st@, 5),
    ensures
        r == spec_bigint_hash_u128(st@, v),
        r < pow2(st@.0 as nat),
{
    let bytes = u128_le_bytes(v);
    let seed_slice = &st.seed[0..5];
    proof {
        assert(seed_slice@ =~= st@.1);
    }
    if use_const {
        pair_multiply_shift_vector_u8_const(bytes.as_slice(), st.num_bits, seed_slice)
    } else {
        pair_multiply_shift_vector_u8(bytes.as_slice(), st.num_bits, seed_slice)
    }
}

/// Hashes a pointer-sized key under a wide-integer state.
fn bigint_hash_u64(st: &BigIntState, v: u64, use_const: bool) -> (r: u32)
    requires
        spec_bigint_state_wf(st@, 3),
    ensures
        r == spec_bigint_hash_u64(st@, v),
        r < pow2(st@.0 as nat),
{
    let bytes = u64_le_bytes(v);
    let seed_slice = &st.seed[0..3];
    proof {
        assert(seed_slice@ =~= st@.1);
    }
    if use_const {
        pair_multiply_shift_vector_u8_const(bytes.as_slice(), st.num_bits, seed_slice)
    } else {
        pair_multiply_shift_vector_u8(bytes.as_slice(), st.num_bits, seed_slice)
    }
}

/// Seed material for fixed-size arrays of 128-bit keys: the output width,
/// one header word, and four table words per element, one per 32-bit limb.
#[derive(Debug, Clone, Copy)]
pub struct BigIntArrayState<const N: usize> {
    num_bits: u32,
    seed: u64,
    value_seed: [[u64; 4]; N],
}

impl<const N: usize> View for BigIntArrayState<N> {
    type V = (u32, u64, Seq<(u64, u64, u64, u64)>);

    closed spec fn view(&self) -> (u32, u64, Seq<(u64, u64, u64, u64)>) {
        (
            self.num_bits,
            self.seed,
            Seq::new(
                N as nat,
                |i: int|
                    (
                        self.value_seed@[i]@[0],
                        self.value_seed@[i]@[1],
                        self.value_seed@[i]@[2],
                        self.value_seed@[i]@[3],
                    ),
            ),
        )
    }
}

/// One term of the 128-bit array hash: the element's four 32-bit limbs
/// mixed with its four table words.
pub open spec fn spec_bigint_array_term(v: u128, quad: (u64, u64, u64, u64)) -> u64 {
    let first = v as u64;
    let second = (v >> 32u128) as u64;
    let third = (v >> 64u128) as u64;
    let fourth = (v >> 96u128) as u64;
    quad.0.wrapping_add(first).wrapping_mul(quad.1.wrapping_add(second)).wrapping_add(
        quad.2.wrapping_add(third).wrapping_mul(quad.3.wrapping_add(fourth)),
    )
}

/// The accumulator of the 128-bit array hash after the first `n` elements.
pub open spec fn spec_bigint_array_sum(
    key: Seq<u128>,
    header: u64,
    quads: Seq<(u64, u64, u64, u64)>,
    n: int,
) -> u64
    decreases n,
{
    if n <= 0 {
        header
    } else {
        spec_bigint_array_sum(key, header, quads, n - 1).wrapping_add(
            spec_bigint_array_term(key[n - 1], quads[n - 1]),
        )
    }
}

/// The hash of a 128-bit array key under an array state.
pub open spec fn spec_bigint_array_hash(
    stv: (u32, u64, Seq<(u64, u64, u64, u64)>),
    key: Seq<u128>,
) -> u32 {
    spec_extract_bits_64(spec_bigint_array_sum(key, stv.1, stv.2, key.len() as int), stv.0)
}

/// Whether the array state is fit for hashing.
pub open spec fn spec_bigint_array_state_wf(
    stv: (u32, u64, Seq<(u64, u64, u64, u64)>),
    n: int,
) -> bool {
    &&& 1 <= stv.0 <= 31
    &&& stv.2.len() == n
}

/// The array state view the runtime stream derives from a seed.
pub open spec fn spec_bigint_array_state(seed: u64, num_buckets: u32, n: int) -> (
    u32,
    u64,
    Seq<(u64, u64, u64, u64)>,
) {
    (
        spec_num_bits_for_buckets(num_buckets),
        xoshiro_word(seed, 0),
        Seq::new(
            n as nat,
            |i: int|
                (
                    xoshiro_word(seed, 1 + 4 * i),
                    xoshiro_word(seed, 2 + 4 * i),
                    xoshiro_word(seed, 3 + 4 * i),
                    xoshiro_word(seed, 4 + 4 * i),
                ),
        ),
    )
}

/// The array state view the constant-style generator derives from a seed.
pub open spec fn spec_bigint_array_state_const(seed: u64, num_buckets: u32, n: int) -> (
    u32,
    u64,
    Seq<(u64, u64, u64, u64)>,
) {
    let s = spec_nonzero_seed(seed);
    (
        spec_num_bits_for_buckets(num_buckets),
        spec_xorshift64_word(s, 0),
        Seq::new(
            n as nat,
            |i: int|
                (
                    spec_xorshift64_word(s, 1 + 4 * i),
                    spec_xorshift64_word(s, 2 + 4 * i),
                    spec_xorshift64_word(s, 3 + 4 * i),
                    spec_xorshift64_word(s, 4 + 4 * i),
                ),
        ),
    )
}

impl<const N: usize> BigIntArrayState<N> {
    /// Derives the state from a seed with the runtime stream, drawing the
    /// header and then four words per element.
    pub fn from_seed(seed: u64, num_buckets: u32) -> (st: Self)
        requires
            1 <= num_buckets <= 0x8000_0000,
        ensures
            st@ == spec_bigint_array_state(seed, num_buckets, N as int),
            spec_bigint_array_state_wf(st@, N as int),
            st@.0 == spec_num_bits_for_buckets(num_buckets),
    {
        proof {
            lemma_num_bits_for_buckets(num_buckets);
        }
        let num_bits = num_bits_for_buckets(num_buckets);
        let mut stream = crate::random::xoshiro::SeedStream::new(seed);
        let header = stream.next_u64();
        let mut value_seed: [[u64; 4]; N] = [[0; 4]; N];
        let mut i: usize = 0;
        while i < N
            invariant
                0 <= i <= N,
                stream.spec_seed() == seed,
                stream.spec_pos() == 1 + 4 * i,
                value_seed@.len() == N,
                forall|t: int|
                    0 <= t < i ==> (#[trigger] value_seed@[t])@ =~= seq![
                        xoshiro_word(seed, 1 + 4 * t),
                        xoshiro_word(seed, 2 + 4 * t),
                        xoshiro_word(seed, 3 + 4 * t),
                        xoshiro_word(seed, 4 + 4 * t),
                    ],
            decreases N - i,
        {
            let a = stream.next_u64();
            let b = stream.next_u64();
            let c = stream.next_u64();
            let d = stream.next_u64();
            value_seed[i] = [a, b, c, d];
            i = i + 1;
        }
        let st = BigIntArrayState::<N> { num_bits, seed: header, value_seed };
        proof {
            assert(st@.2 =~= spec_bigint_array_state(seed, num_buckets, N as int).2);
        }
        st
    }

    /// Derives the state from a seed with the constant-style generator.
    pub fn from_seed_const(seed: u64, num_buckets: u32) -> (st: Self)
        requires
            1 <= num_buckets <= 0x8000_0000,
        ensures
            st@ == spec_bigint_array_state_const(seed, num_buckets, N as int),
            spec_bigint_array_state_wf(st@, N as int),
            st@.0 == spec_num_bits_for_buckets(num_buckets),
    {
        proof {
            lemma_num_bits_for_buckets(num_buckets);
        }
        let num_bits = num_bits_for_buckets(num_buckets);
        let s = if seed == 0 {
            1
        } else {
            seed
        };
        let ghost s0 = s;
        let mut rng = crate::random::xorshift::XorShift::<u64>::new(s);
        let header = rng.next();
        proof {
            assert(crate::random::xorshift::spec_xorshift64_state(s0, 0) == s0);
            assert(crate::random::xorshift::spec_xorshift64_state(s0, 1)
                == crate::random::xorshift::spec_xorshift64_step(
                crate::random::xorshift::spec_xorshift64_state(s0, 0),
            ));
        }
        let mut value_seed: [[u64; 4]; N] = [[0; 4]; N];
        let mut i: usize = 0;
        while i < N
            invariant
                0 <= i <= N,
                s0 == spec_nonzero_seed(seed),
                rng.spec_state() == crate::random::xorshift::spec_xorshift64_state(
                    s0,
                    1 + 4 * i,
                ),
                value_seed@.len() == N,
                forall|t: int|
                    0 <= t < i ==> (#[trigger] value_seed@[t])@ =~= seq![
                        spec_xorshift64_word(s0, 1 + 4 * t),
                        spec_xorshift64_word(s0, 2 + 4 * t),
                        spec_xorshift64_word(s0, 3 + 4 * t),
                        spec_xorshift64_word(s0, 4 + 4 * t),
                    ],
            decreases N - i,
        {
            proof {
                let k = 1 + 4 * (i as int);
                assert(crate::random::xorshift::spec_xorshift64_state(s0, k + 1)
                    == crate::random::xorshift::spec_xorshift64_step(
                    crate::random::xorshift::spec_xorshift64_state(s0, k),
                ));
                assert(crate::random::xorshift::spec_xorshift64_state(s0, k + 2)
                    == crate::random::xorshift::spec_xorshift64_step(
                    crate::random::xorshift::spec_xorshift64_state(s0, k + 1),
                ));
                assert(crate::random::xorshift::spec_xorshift64_state(s0, k + 3)
                    == crate::random::xorshift::spec_xorshift64_step(
                    crate::random::xorshift::spec_xorshift64_state(s0, k + 2),
                ));
                assert(crate::random::xorshift::spec_xorshift64_state(s0, k + 4)
                    == crate::random::xorshift::spec_xorshift64_step(
                    crate::random::xorshift::spec_xorshift64_state(s0, k + 3),
                ));
            }
            let a = rng.next();
            let b = rng.next();
            let c = rng.next();
            let d = rng.next();
            value_seed[i] = [a, b, c, d];
            i = i + 1;
        }
        let st = BigIntArrayState::<N> { num_bits, seed: header, value_seed };
        proof {
            assert(st@.2 =~= spec_bigint_array_state_const(seed, num_buckets, N as int).2);
        }
        st
    }
}

impl<const N: usize> Default for BigIntArrayState<N> {
    /// The all-zero state.
    fn default() -> (r: Self)
        ensures
            r@ == (0u32, 0u64, Seq::new(N as nat, |i: int| (0u64, 0u64, 0u64, 0u64))),
    {
        let r = BigIntArrayState::<N> { num_bits: 0, seed: 0, value_seed: [[0; 4]; N] };
        proof {
            assert(r@.2 =~= Seq::new(N as nat, |i: int| (0u64, 0u64, 0u64, 0u64)));
        }
        r
    }
}

/// Hashes a 128-bit array key under an array state.
fn bigint_array_hash<const N: usize>(st: &BigIntArrayState<N>, key: &[u128; N]) -> (r: u32)
    requires
        spec_bigint_array_state_wf(st@, N as int),
    ensures
        r == spec_bigint_array_hash(st@, key@),
        r < pow2(st@.0 as nat),
{
    let mut sum: u64 = st.seed;
    let mut i: usize = 0;
    while i < N
        invariant
            spec_bigint_array_state_wf(st@, N as int),
            0 <= i <= N,
            sum == spec_bigint_array_sum(key@, st@.1, st@.2, i as int),
        decreases N - i,
    {
        let v = key[i];
        let first = v as u64;
        let second = (v >> 32u128) as u64;
        let third = (v >> 64u128) as u64;
        let fourth = (v >> 96u128) as u64;
        sum = sum.wrapping_add(st.value_seed[i][0].wrapping_add(first).wrapping_mul(
            st.value_seed[i][1].wrapping_add(second),
        ).wrapping_add(
            st.value_seed[i][2].wrapping_add(third).wrapping_mul(
                st.value_seed[i][3].wrapping_add(fourth),
            ),
        ));
        i = i + 1;
    }
    crate::hashing::common::extract_bits_64::<64>(sum, st.num_bits)
}

impl<const N: usize> MSPKey for [u128; N] {
    type State = BigIntArrayState<N>;

    open spec fn spec_make_state(seed: u64, num_buckets: u32) -> (
        u32,
        u64,
        Seq<(u64, u64, u64, u64)>,
    ) {
        spec_bigint_array_state(seed, num_buckets, N as int)
    }

    open spec fn spec_make_state_const(seed: u64, num_buckets: u32) -> (
        u32,
        u64,
        Seq<(u64, u64, u64, u64)>,
    ) {
        spec_bigint_array_state_const(seed, num_buckets, N as int)
    }

    open spec fn spec_state_default() -> (u32, u64, Seq<(u64, u64, u64, u64)>) {
        (0u32, 0u64, Seq::new(N as nat, |i: int| (0u64, 0u64, 0u64, 0u64)))
    }

    open spec fn state_wf(stv: (u32, u64, Seq<(u64, u64, u64, u64)>)) -> bool {
        spec_bigint_array_state_wf(stv, N as int)
    }

    open spec fn state_num_bits(stv: (u32, u64, Seq<(u64, u64, u64, u64)>)) -> u32 {
        stv.0
    }

    open spec fn spec_state_hash(
        stv: (u32, u64, Seq<(u64, u64, u64, u64)>),
        key: Seq<u128>,
    ) -> u32 {
        spec_bigint_array_hash(stv, key)
    }

    proof fn state_wf_bits(stv: (u32, u64, Seq<(u64, u64, u64, u64)>)) {
    }

    proof fn state_hash_range(stv: (u32, u64, Seq<(u64, u64, u64, u64)>), key: Seq<u128>) {
        crate::hashing::common::lemma_extract_bits_64(
            spec_bigint_array_sum(key, stv.1, stv.2, key.len() as int),
            stv.0,
        );
    }

    fn make_state(seed: u64, num_buckets: u32) -> (st: BigIntArrayState<N>) {
        BigIntArrayState::from_seed(seed, num_buckets)
    }

    fn make_state_const(seed: u64, num_buckets: u32) -> (st: BigIntArrayState<N>) {
        BigIntArrayState::from_seed_const(seed, num_buckets)
    }

    fn state_default() -> (st: BigIntArrayState<N>) {
        BigIntArrayState::default()
    }

    fn state_num_bits_exec(st: &BigIntArrayState<N>) -> (r: u32) {
        st.num_bits
    }

    fn state_hash(st: &BigIntArrayState<N>, key: &[u128; N]) -> (r: u32) {
        proof {
            assert(key.deep_view() =~= key@);
        }
        bigint_array_hash(st, key)
    }

    fn state_hash_const(st: &BigIntArrayState<N>, key: &[u128; N]) -> (r: u32) {
        proof {
            assert(key.deep_view() =~= key@);
        }
        bigint_array_hash(st, key)
    }
}

impl MSPKey for u128 {
    type State = BigIntState;

    open spec fn spec_make_state(seed: u64, num_buckets: u32) -> (u32, Seq<u64>) {
        spec_bigint_state(seed, num_buckets, 5)
    }

    open spec fn spec_make_state_const(seed: u64, num_buckets: u32) -> (u32, Seq<u64>) {
        spec_bigint_state_const(seed, num_buckets, 5)
    }

    open spec fn spec_state_default() -> (u32, Seq<u64>) {
        (0u32, Seq::new(5, |i: int| 0u64))
    }

    open spec fn state_wf(stv: (u32, Seq<u64>)) -> bool {
        spec_bigint_state_wf(stv, 5)
    }

    open spec fn state_num_bits(stv: (u32, Seq<u64>)) -> u32 {
        stv.0
    }

    open spec fn spec_state_hash(stv: (u32, Seq<u64>), key: u128) -> u32 {
        spec_bigint_hash_u128(stv, key)
    }

    proof fn state_wf_bits(stv: (u32, Seq<u64>)) {
    }

    proof fn state_hash_range(stv: (u32, Seq<u64>), key: Self) {
        lemma_pms_vector_u8_range(spec_u128_le_bytes(key), stv.0, stv.1);
    }

    fn make_state(seed: u64, num_buckets: u32) -> (st: BigIntState) {
        BigIntState::from_seed(seed, num_buckets, 5)
    }

    fn make_state_const(seed: u64, num_buckets: u32) -> (st: BigIntState) {
        BigIntState::from_seed_const(seed, num_buckets, 5)
    }

    fn state_default() -> (st: BigIntState) {
        BigIntState::default()
    }

    fn state_num_bits_exec(st: &BigIntState) -> (r: u32) {
        st.num_bits
    }

    fn state_hash(st: &BigIntState, key: &u128) -> (r: u32) {
        bigint_hash_u128(st, *key, false)
    }

    fn state_hash_const(st: &BigIntState, key: &u128) -> (r: u32) {
        bigint_hash_u128(st, *key, true)
    }
}

impl MSPKey for i128 {
    type State = BigIntState;

    open spec fn spec_make_state(seed: u64, num_buckets: u32) -> (u32, Seq<u64>) {
        spec_bigint_state(seed, num_buckets, 5)
    }

    open spec fn spec_make_state_const(seed: u64, num_buckets: u32) -> (u32, Seq<u64>) {
        spec_bigint_state_const(seed, num_buckets, 5)
    }

    open spec fn spec_state_default() -> (u32, Seq<u64>) {
        (0u32, Seq::new(5, |i: int| 0u64))
    }

    open spec fn state_wf(stv: (u32, Seq<u64>)) -> bool {
        spec_bigint_state_wf(stv, 5)
    }

    open spec fn state_num_bits(stv: (u32, Seq<u64>)) -> u32 {
        stv.0
    }

    open spec fn spec_state_hash(stv: (u32, Seq<u64>), key: i128) -> u32 {
        spec_bigint_hash_u128(stv, key as u128)
    }

    proof fn state_wf_bits(stv: (u32, Seq<u64>)) {
    }

    proof fn state_hash_range(stv: (u32, Seq<u64>), key: Self) {
        lemma_pms_vector_u8_range(spec_u128_le_bytes(key as u128), stv.0, stv.1);
    }

    fn make_state(seed: u64, num_buckets: u32) -> (st: BigIntState) {
        BigIntState::from_seed(seed, num_buckets, 5)
    }

    fn make_state_const(seed: u64, num_buckets: u32) -> (st: BigIntState) {
        BigIntState::from_seed_const(seed, num_buckets, 5)
    }

    fn state_default() -> (st: BigIntState) {
        BigIntState::default()
    }

    fn state_num_bits_exec(st: &BigIntState) -> (r: u32) {
        st.num_bits
    }

    fn state_hash(st: &BigIntState, key: &i128) -> (r: u32) {
        bigint_hash_u128(st, *key as u128, false)
    }

    fn state_hash_const(st: &BigIntState, key: &i128) -> (r: u32) {
        bigint_hash_u128(st, *key as u128, true)
    }
}

impl MSPKey for usize {
    type State = BigIntState;

    open spec fn spec_make_state(seed: u64, num_buckets: u32) -> (u32, Seq<u64>) {
        spec_bigint_state(seed, num_buckets, 3)
    }

    open spec fn spec_make_state_const(seed: u64, num_buckets: u32) -> (u32, Seq<u64>) {
        spec_bigint_state_const(seed, num_buckets, 3)
    }

    open spec fn spec_state_default() -> (u32, Seq<u64>) {
        (0u32, Seq::new(5, |i: int| 0u64))
    }

    open spec fn state_wf(stv: (u32, Seq<u64>)) -> bool {
        spec_bigint_state_wf(stv, 3)
    }

    open spec fn state_num_bits(stv: (u32, Seq<u64>)) -> u32 {
        stv.0
    }

    open spec fn spec_state_hash(stv: (u32, Seq<u64>), key: usize) -> u32 {
        spec_bigint_hash_u64(stv, key as u64)
    }

    proof fn state_wf_bits(stv: (u32, Seq<u64>)) {
    }

    proof fn state_hash_range(stv: (u32, Seq<u64>), key: Self) {
        lemma_pms_vector_u8_range(spec_u64_le_bytes(key as u64), stv.0, stv.1);
    }

    fn make_state(seed: u64, num_buckets: u32) -> (st: BigIntState) {
        BigIntState::from_seed(seed, num_buckets, 3)
    }

    fn make_state_const(seed: u64, num_buckets: u32) -> (st: BigIntState) {
        BigIntState::from_seed_const(seed, num_buckets, 3)
    }

    fn state_default() -> (st: BigIntState) {
        BigIntState::default()
    }

    fn state_num_bits_exec(st: &BigIntState) -> (r: u32) {
        st.num_bits
    }

    fn state_hash(st: &BigIntState, key: &usize) -> (r: u32) {
        bigint_hash_u64(st, *key as u64, false)
    }

    fn state_hash_const(st: &BigIntState, key: &usize) -> (r: u32) {
        bigint_hash_u64(st, *key as u64, true)
    }
}

impl MSPKey for isize {
    type State = BigIntState;

    open spec fn spec_make_state(seed: u64, num_buckets: u32) -> (u32, Seq<u64>) {
        spec_bigint_state(seed, num_buckets, 3)
    }

    open spec fn spec_make_state_const(seed: u64, num_buckets: u32) -> (u32, Seq<u64>) {
        spec_bigint_state_const(seed, num_buckets, 3)
    }

    open spec fn spec_state_default() -> (u32, Seq<u64>) {
        (0u32, Seq::new(5, |i: int| 0u64))
    }

    open spec fn state_wf(stv: (u32, Seq<u64>)) -> bool {
        spec_bigint_state_wf(stv, 3)
    }

    open spec fn state_num_bits(stv: (u32, Seq<u64>)) -> u32 {
        stv.0
    }

    open spec fn spec_state_hash(stv: (u32, Seq<u64>), key: isize) -> u32 {
        spec_bigint_hash_u64(stv, key as u64)
    }

    proof fn state_wf_bits(stv: (u32, Seq<u64>)) {
    }

    proof fn state_hash_range(stv: (u32, Seq<u64>), key: Self) {
        lemma_pms_vector_u8_range(spec_u64_le_bytes(key as u64), stv.0, stv.1);
    }

    fn make_state(seed: u64, num_buckets: u32) -> (st: BigIntState) {
        BigIntState::from_seed(seed, num_buckets, 3)
    }

    fn make_state_const(seed: u64, num_buckets: u32) -> (st: BigIntState) {
        BigIntState::from_seed_const(seed, num_buckets, 3)
    }

    fn state_default() -> (st: BigIntState) {
        BigIntState::default()
    }

    fn state_num_bits_exec(st: &BigIntState) -> (r: u32) {
        st.num_bits
    }

    fn state_hash(st: &BigIntState, key: &isize) -> (r: u32) {
        bigint_hash_u64(st, *key as u64, false)
    }

    fn state_hash_const(st: &BigIntState, key: &isize) -> (r: u32) {
        bigint_hash_u64(st, *key as u64, true)
    }
}

} // verus!
