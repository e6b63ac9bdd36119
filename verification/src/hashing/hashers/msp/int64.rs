//! MSP hashing for 64-bit integer key types through the scalar
//! pair-multiply-shift kernel, and for fixed-size arrays of them through
//! its vectored form with one seed pair per element.

use vstd::prelude::*;

verus! {

use vstd::arithmetic::power2::pow2;
use crate::hashing::common::{spec_num_bits_for_buckets, num_bits_for_buckets,
    lemma_num_bits_for_buckets, spec_extract_bits_64};
use crate::hashing::multiply_shift::{spec_pair_multiply_shift, pair_multiply_shift};
use crate::hashing::hashers::msp::MSPKey;
use crate::random::xoshiro::{xoshiro_word, xoshiro_fill};
use crate::random::xorshift::{spec_xorshift64_word, spec_xorshift64_step, fill_array};
use crate::hashing::hashers::msp::smallint::spec_nonzero_seed;

/// Seed material for 64-bit keys: the output width and the three words of
/// the pair-multiply-shift kernel.
#[derive(Debug, Clone, Copy)]
pub struct U64State {
    num_bits: u32,
    seed: [u64; 3],
}

impl View for U64State {
    type V = (u32, Seq<u64>);

    closed spec fn view(&self) -> (u32, Seq<u64>) {
        (self.num_bits, self.seed@)
    }
}

impl U64State {
    /// Derives the state from a seed with the runtime stream.
    pub fn from_seed(seed: u64, num_buckets: u32) -> (st: Self)
        requires
            1 <= num_buckets <= 0x8000_0000,
        ensures
            st@ == spec_u64_state(seed, num_buckets),
            spec_u64_state_wf(st@),
            st@.0 == spec_num_bits_for_buckets(num_buckets),
    {
        proof {
            lemma_num_bits_for_buckets(num_buckets);
        }
        let words = xoshiro_fill(seed, 3);
        let num_bits = num_bits_for_buckets(num_buckets);
        let st = U64State { num_bits, seed: [words[0], words[1], words[2]] };
        proof {
            assert(st@.1 =~= spec_u64_state(seed, num_buckets).1);
        }
        st
    }

    /// Derives the state from a seed with the constant-style generator.
    pub fn from_seed_const(seed: u64, num_buckets: u32) -> (st: Self)
        requires
            1 <= num_buckets <= 0x8000_0000,
        ensures
            st@ == spec_u64_state_const(seed, num_buckets),
            spec_u64_state_wf(st@),
            st@.0 == spec_num_bits_for_buckets(num_buckets),
    {
        proof {
            lemma_num_bits_for_buckets(num_buckets);
        }
        let s = if seed == 0 {
            1
        } else {
            seed
        };
        let words = fill_array(3, s);
        let num_bits = num_bits_for_buckets(num_buckets);
        let st = U64State { num_bits, seed: [words[0], words[1], words[2]] };
        proof {
            assert(st@.1 =~= spec_u64_state_const(seed, num_buckets).1);
        }
        st
    }
}

impl Default for U64State {
    /// The all-zero state.
    fn default() -> (r: Self)
        ensures
            r@ == (0u32, seq![0u64, 0u64, 0u64]),
    {
        let r = U64State { num_bits: 0, seed: [0, 0, 0] };
        proof {
            assert(r@.1 =~= seq![0u64, 0u64, 0u64]);
        }
        r
    }
}

/// The state view the runtime stream derives from a seed.
pub open spec fn spec_u64_state(seed: u64, num_buckets: u32) -> (u32, Seq<u64>) {
    (
        spec_num_bits_for_buckets(num_buckets),
        seq![xoshiro_word(seed, 0), xoshiro_word(seed, 1), xoshiro_word(seed, 2)],
    )
}

/// The state view the constant-style generator derives from a seed.
pub open spec fn spec_u64_state_const(seed: u64, num_buckets: u32) -> (u32, Seq<u64>) {
    let s = spec_nonzero_seed(seed);
    (
        spec_num_bits_for_buckets(num_buckets),
        seq![spec_xorshift64_word(s, 0), spec_xorshift64_word(s, 1), spec_xorshift64_word(s, 2)],
    )
}

/// Whether the state is fit for hashing.
pub open spec fn spec_u64_state_wf(stv: (u32, Seq<u64>)) -> bool {
    &&& 1 <= stv.0 <= 31
    &&& stv.1.len() == 3
}

/// The hash of a widened key under a 64-bit state.
pub open spec fn spec_u64_hash(stv: (u32, Seq<u64>), value: u64) -> u32 {
    spec_pair_multiply_shift(value, stv.0, stv.1)
}

pub proof fn lemma_u64_hash_range(stv: (u32, Seq<u64>), value: u64)
    requires
        spec_u64_state_wf(stv),
    ensures
        spec_u64_hash(stv, value) < pow2(stv.0 as nat),
{
    crate::hashing::common::lemma_extract_bits_64(
        stv.1[0].wrapping_add(value).wrapping_mul(stv.1[1].wrapping_add(value >> 32u64))
            .wrapping_add(stv.1[2]),
        stv.0,
    );
}

/// Hashes a widened key under a 64-bit state.
fn u64_hash(st: &U64State, value: u64) -> (r: u32)
    requires
        spec_u64_state_wf(st@),
    ensures
        r == spec_u64_hash(st@, value),
        r < pow2(st@.0 as nat),
{
    pair_multiply_shift(value, st.num_bits, &st.seed)
}

/// Seed material for fixed-size arrays of 64-bit keys: the output width,
/// one header word, and one pair of table words per element.
#[derive(Debug, Clone, Copy)]
pub struct Array64State<const N: usize> {
    num_bits: u32,
    seed: u64,
    value_seed: [[u64; 2]; N],
}

impl<const N: usize> View for Array64State<N> {
    type V = (u32, u64, Seq<(u64, u64)>);

    closed spec fn view(&self) -> (u32, u64, Seq<(u64, u64)>) {
        (
            self.num_bits,
            self.seed,
            Seq::new(N as nat, |i: int| (self.value_seed@[i]@[0], self.value_seed@[i]@[1])),
        )
    }
}

/// The accumulator of the array hash after the first `n` elements: the
/// header plus one pair-multiply term per element, wrapping.
pub open spec fn spec_array64_sum(key: Seq<u64>, header: u64, pairs: Seq<(u64, u64)>, n: int) -> u64
    decreases n,
{
    if n <= 0 {
        header
    } else {
        let v = key[n - 1];
        spec_array64_sum(key, header, pairs, n - 1).wrapping_add(
            pairs[n - 1].0.wrapping_add(v >> 32u64).wrapping_mul(pairs[n - 1].1.wrapping_add(v)),
        )
    }
}

/// The hash of a 64-bit array key under an array state.
pub open spec fn spec_array64_hash(stv: (u32, u64, Seq<(u64, u64)>), key: Seq<u64>) -> u32 {
    spec_extract_bits_64(spec_array64_sum(key, stv.1, stv.2, key.len() as int), stv.0)
}

/// Whether the array state is fit for hashing.
pub open spec fn spec_array64_state_wf(stv: (u32, u64, Seq<(u64, u64)>), n: int) -> bool {
    &&& 1 <= stv.0 <= 31
    &&& stv.2.len() == n
}

/// The array state view the runtime stream derives from a seed.
pub open spec fn spec_array64_state(seed: u64, num_buckets: u32, n: int) -> (
    u32,
    u64,
    Seq<(u64, u64)>,
) {
    (
        spec_num_bits_for_buckets(num_buckets),
        xoshiro_word(seed, 0),
        Seq::new(n as nat, |i: int| (xoshiro_word(seed, 1 + 2 * i), xoshiro_word(seed, 2 + 2 * i))),
    )
}

/// The array state view the constant-style generator derives from a seed.
pub open spec fn spec_array64_state_const(seed: u64, num_buckets: u32, n: int) -> (
    u32,
    u64,
    Seq<(u64, u64)>,
) {
    let s = spec_nonzero_seed(seed);
    (
        spec_num_bits_for_buckets(num_buckets),
        spec_xorshift64_word(s, 0),
        Seq::new(
            n as nat,
            |i: int| (spec_xorshift64_word(s, 1 + 2 * i), spec_xorshift64_word(s, 2 + 2 * i)),
        ),
    )
}

impl<const N: usize> Array64State<N> {
    /// Derives the state from a seed with the runtime stream, drawing the
    /// header and then one pair of words per element.
    pub fn from_seed(seed: u64, num_buckets: u32) -> (st: Self)
        requires
            1 <= num_buckets <= 0x8000_0000,
        ensures
            st@ == spec_array64_state(seed, num_buckets, N as int),
            spec_array64_state_wf(st@, N as int),
            st@.0 == spec_num_bits_for_buckets(num_buckets),
    {
        proof {
            lemma_num_bits_for_buckets(num_buckets);
        }
        let num_bits = num_bits_for_buckets(num_buckets);
        let mut stream = crate::random::xoshiro::SeedStream::new(seed);
        let header = stream.next_u64();
        let mut value_seed: [[u64; 2]; N] = [[0; 2]; N];
        let mut i: usize = 0;
        while i < N
            invariant
                0 <= i <= N,
                stream.spec_seed() == seed,
                stream.spec_pos() == 1 + 2 * i,
                value_seed@.len() == N,
                forall|t: int|
                    0 <= t < i ==> (#[trigger] value_seed@[t])@ =~= seq![
                        xoshiro_word(seed, 1 + 2 * t),
                        xoshiro_word(seed, 2 + 2 * t),
                    ],
            decreases N - i,
        {
            let a = stream.next_u64();
            let b = stream.next_u64();
            value_seed[i] = [a, b];
            i = i + 1;
        }
        let st = Array64State::<N> { num_bits, seed: header, value_seed };
        proof {
            assert(st@.2 =~= spec_array64_state(seed, num_buckets, N as int).2);
        }
        st
    }

    /// Derives the state from a seed with the constant-style generator.
    pub fn from_seed_const(seed: u64, num_buckets: u32) -> (st: Self)
        requires
            1 <= num_buckets <= 0x8000_0000,
        ensures
            st@ == spec_array64_state_const(seed, num_buckets, N as int),
            spec_array64_state_wf(st@, N as int),
            st@.0 == spec_num_bits_for_buckets(num_buckets),
    {
        proof {
            lemma_num_bits_for_buckets(num_buckets);
        }
        let num_bits = num_bits_for_buckets(num_buckets);
        let s = if seed == 0 {
            1
        } else {
            seed
        };
        let mut rng = crate::random::xorshift::XorShift::<u64>::new(s);
        let ghost s0 = s;
        let header = rng.next();
        proof {
            assert(crate::random::xorshift::spec_xorshift64_state(s0, 0) == s0);
            assert(crate::random::xorshift::spec_xorshift64_state(s0, 1)
                == spec_xorshift64_step(crate::random::xorshift::spec_xorshift64_state(s0, 0)));
        }
        let mut value_seed: [[u64; 2]; N] = [[0; 2]; N];
        let mut i: usize = 0;
        while i < N
            invariant
                0 <= i <= N,
                s0 == spec_nonzero_seed(seed),
                rng.spec_state() == crate::random::xorshift::spec_xorshift64_state(
                    s0,
                    1 + 2 * i,
                ),
                value_seed@.len() == N,
                forall|t: int|
                    0 <= t < i ==> (#[trigger] value_seed@[t])@ =~= seq![
                        spec_xorshift64_word(s0, 1 + 2 * t),
                        spec_xorshift64_word(s0, 2 + 2 * t),
                    ],
            decreases N - i,
        {
            proof {
                let k = 1 + 2 * (i as int);
                assert(crate::random::xorshift::spec_xorshift64_state(s0, k + 1)
                    == spec_xorshift64_step(
                    crate::random::xorshift::spec_xorshift64_state(s0, k),
                ));
                assert(crate::random::xorshift::spec_xorshift64_state(s0, k + 2)
                    == spec_xorshift64_step(
                    crate::random::xorshift::spec_xorshift64_state(s0, k + 1),
                ));
            }
            let a = rng.next();
            let b = rng.next();
            value_seed[i] = [a, b];
            i = i + 1;
        }
        let st = Array64State::<N> { num_bits, seed: header, value_seed };
        proof {
            assert(st@.2 =~= spec_array64_state_const(seed, num_buckets, N as int).2);
        }
        st
    }
}

impl<const N: usize> Default for Array64State<N> {
    /// The all-zero state.
    fn default() -> (r: Self)
        ensures
            r@ == (0u32, 0u64, Seq::new(N as nat, |i: int| (0u64, 0u64))),
    {
        let r = Array64State::<N> { num_bits: 0, seed: 0, value_seed: [[0; 2]; N] };
        proof {
            assert(r@.2 =~= Seq::new(N as nat, |i: int| (0u64, 0u64)));
        }
        r
    }
}

/// Reads the output width of a word-array state.
pub fn array64_num_bits<const N: usize>(st: &Array64State<N>) -> (r: u32)
    ensures
        r == st@.0,
{
    st.num_bits
}

/// Hashes a 64-bit array key under an array state.
pub(crate) fn array64_hash<const N: usize>(st: &Array64State<N>, key: &[u64; N]) -> (r: u32)
    requires
        spec_array64_state_wf(st@, N as int),
    ensures
        r == spec_array64_hash(st@, key@),
        r < pow2(st@.0 as nat),
{
    let mut sum: u64 = st.seed;
    let mut i: usize = 0;
    while i < N
        invariant
            spec_array64_state_wf(st@, N as int),
            0 <= i <= N,
            sum == spec_array64_sum(key@, st@.1, st@.2, i as int),
        decreases N - i,
    {
        let v = key[i];
        let high = v >> 32u64;
        sum = sum.wrapping_add(st.value_seed[i][0].wrapping_add(high).wrapping_mul(
            st.value_seed[i][1].wrapping_add(v),
        ));
        i = i + 1;
    }
    crate::hashing::common::extract_bits_64::<64>(sum, st.num_bits)
}

/// Hashes a 64-bit array key under an array state, in the constant style;
/// the shared specification states that the outputs agree.
pub(crate) fn array64_hash_const<const N: usize>(st: &Array64State<N>, key: &[u64; N]) -> (r: u32)
    requires
        spec_array64_state_wf(st@, N as int),
    ensures
        r == spec_array64_hash(st@, key@),
        r < pow2(st@.0 as nat),
{
    let mut sum: u64 = st.seed;
    let mut i: usize = 0;
    while i < N
        invariant
            spec_array64_state_wf(st@, N as int),
            0 <= i <= N,
            sum == spec_array64_sum(key@, st@.1, st@.2, i as int),
        decreases N - i,
    {
        let v = key[i];
        let low = v;
        let high = v >> 32u64;
        sum = sum.wrapping_add(st.value_seed[i][0].wrapping_add(high).wrapping_mul(
            st.value_seed[i][1].wrapping_add(low),
        ));
        i = i + 1;
    }
    crate::hashing::common::extract_bits_64::<64>(sum, st.num_bits)
}

impl<const N: usize> MSPKey for [u64; N] {
    type State = Array64State<N>;

    open spec fn spec_make_state(seed: u64, num_buckets: u32) -> (u32, u64, Seq<(u64, u64)>) {
        spec_array64_state(seed, num_buckets, N as int)
    }

    open spec fn spec_make_state_const(seed: u64, num_buckets: u32) -> (
        u32,
        u64,
        Seq<(u64, u64)>,
    ) {
        spec_array64_state_const(seed, num_buckets, N as int)
    }

    open spec fn spec_state_default() -> (u32, u64, Seq<(u64, u64)>) {
        (0u32, 0u64, Seq::new(N as nat, |i: int| (0u64, 0u64)))
    }

    open spec fn state_wf(stv: (u32, u64, Seq<(u64, u64)>)) -> bool {
        spec_array64_state_wf(stv, N as int)
    }

    open spec fn state_num_bits(stv: (u32, u64, Seq<(u64, u64)>)) -> u32 {
        stv.0
    }

    open spec fn spec_state_hash(stv: (u32, u64, Seq<(u64, u64)>), key: Seq<u64>) -> u32 {
        spec_array64_hash(stv, key)
    }

    proof fn state_wf_bits(stv: (u32, u64, Seq<(u64, u64)>)) {
    }

    proof fn state_hash_range(stv: (u32, u64, Seq<(u64, u64)>), key: Seq<u64>) {
        crate::hashing::common::lemma_extract_bits_64(
            spec_array64_sum(key, stv.1, stv.2, key.len() as int),
            stv.0,
        );
    }

    fn make_state(seed: u64, num_buckets: u32) -> (st: Array64State<N>) {
        Array64State::from_seed(seed, num_buckets)
    }

    fn make_state_const(seed: u64, num_buckets: u32) -> (st: Array64State<N>) {
        Array64State::from_seed_const(seed, num_buckets)
    }

    fn state_default() -> (st: Array64State<N>) {
        Array64State::default()
    }

    fn state_num_bits_exec(st: &Array64State<N>) -> (r: u32) {
        st.num_bits
    }

    fn state_hash(st: &Array64State<N>, key: &[u64; N]) -> (r: u32) {
        proof {
            assert(key.deep_view() =~= key@);
        }
        array64_hash(st, key)
    }

    fn state_hash_const(st: &Array64State<N>, key: &[u64; N]) -> (r: u32) {
        proof {
            assert(key.deep_view() =~= key@);
        }
        array64_hash_const(st, key)
    }
}

impl MSPKey for u64 {
    type State = U64State;

    open spec fn spec_make_state(seed: u64, num_buckets: u32) -> (u32, Seq<u64>) {
        spec_u64_state(seed, num_buckets)
    }

    open spec fn spec_make_state_const(seed: u64, num_buckets: u32) -> (u32, Seq<u64>) {
        spec_u64_state_const(seed, num_buckets)
    }

    open spec fn spec_state_default() -> (u32, Seq<u64>) {
        (0u32, seq![0u64, 0u64, 0u64])
    }

    open spec fn state_wf(stv: (u32, Seq<u64>)) -> bool {
        spec_u64_state_wf(stv)
    }

    open spec fn state_num_bits(stv: (u32, Seq<u64>)) -> u32 {
        stv.0
    }

    open spec fn spec_state_hash(stv: (u32, Seq<u64>), key: u64) -> u32 {
        spec_u64_hash(stv, key)
    }

    proof fn state_wf_bits(stv: (u32, Seq<u64>)) {
    }

    proof fn state_hash_range(stv: (u32, Seq<u64>), key: Self) {
        lemma_u64_hash_range(stv, key as u64);
    }

    fn make_state(seed: u64, num_buckets: u32) -> (st: U64State) {
        U64State::from_seed(seed, num_buckets)
    }

    fn make_state_const(seed: u64, num_buckets: u32) -> (st: U64State) {
        U64State::from_seed_const(seed, num_buckets)
    }

    fn state_default() -> (st: U64State) {
        U64State::default()
    }

    fn state_num_bits_exec(st: &U64State) -> (r: u32) {
        st.num_bits
    }

    fn state_hash(st: &U64State, key: &u64) -> (r: u32) {
        u64_hash(st, *key)
    }

    fn state_hash_const(st: &U64State, key: &u64) -> (r: u32) {
        u64_hash(st, *key)
    }
}

impl MSPKey for i64 {
    type State = U64State;

    open spec fn spec_make_state(seed: u64, num_buckets: u32) -> (u32, Seq<u64>) {
        spec_u64_state(seed, num_buckets)
    }

    open spec fn spec_make_state_const(seed: u64, num_buckets: u32) -> (u32, Seq<u64>) {
        spec_u64_state_const(seed, num_buckets)
    }

    open spec fn spec_state_default() -> (u32, Seq<u64>) {
        (0u32, seq![0u64, 0u64, 0u64])
    }

    open spec fn state_wf(stv: (u32, Seq<u64>)) -> bool {
        spec_u64_state_wf(stv)
    }

    open spec fn state_num_bits(stv: (u32, Seq<u64>)) -> u32 {
        stv.0
    }

    open spec fn spec_state_hash(stv: (u32, Seq<u64>), key: i64) -> u32 {
        spec_u64_hash(stv, key as u64)
    }

    proof fn state_wf_bits(stv: (u32, Seq<u64>)) {
    }

    proof fn state_hash_range(stv: (u32, Seq<u64>), key: Self) {
        lemma_u64_hash_range(stv, key as u64);
    }

    fn make_state(seed: u64, num_buckets: u32) -> (st: U64State) {
        U64State::from_seed(seed, num_buckets)
    }

    fn make_state_const(seed: u64, num_buckets: u32) -> (st: U64State) {
        U64State::from_seed_const(seed, num_buckets)
    }

    fn state_default() -> (st: U64State) {
        U64State::default()
    }

    fn state_num_bits_exec(st: &U64State) -> (r: u32) {
        st.num_bits
    }

    fn state_hash(st: &U64State, key: &i64) -> (r: u32) {
        u64_hash(st, *key as u64)
    }

    fn state_hash_const(st: &U64State, key: &i64) -> (r: u32) {
        u64_hash(st, *key as u64)
    }
}

} // verus!
