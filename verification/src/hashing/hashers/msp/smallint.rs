//! MSP hashing for all integer key types of at most 32 bits.  The key is
//! widened to a `u32` and sent through the scalar multiply-shift kernel.

use vstd::prelude::*;

verus! {

use vstd::arithmetic::power2::pow2;
use crate::hashing::common::{spec_num_bits_for_buckets, num_bits_for_buckets,
    lemma_num_bits_for_buckets};
use crate::hashing::multiply_shift::{spec_multiply_shift, multiply_shift};
use crate::hashing::hashers::msp::MSPKey;
use crate::hashing::hashers::msp::int64::{spec_array64_state, spec_array64_state_const,
    spec_array64_state_wf, spec_array64_hash, spec_array64_sum};
use crate::random::xoshiro::{xoshiro_word, xoshiro_fill};
use crate::random::xorshift::{spec_xorshift64_word, fill_array};

/// Seed material for keys of at most 32 bits: the output width and the two
/// words of the multiply-shift kernel, the first forced odd so that it is
/// never zero.
#[derive(Debug, Clone, Copy)]
pub struct SmallIntState {
    num_bits: u32,
    seed: [u64; 2],
}

impl View for SmallIntState {
    type V = (u32, Seq<u64>);

    closed spec fn view(&self) -> (u32, Seq<u64>) {
        (self.num_bits, self.seed@)
    }
}

/// A word with its lowest bit forced on is never zero.
pub proof fn lemma_or_one_nonzero(w: u64)
    ensures
        (w | 1) > 0,
{
    assert((w | 1) > 0) by (bit_vector);
}

/// A zero seed is folded to one so the constant-style generator always has
/// a valid non-zero start state.
pub open spec fn spec_nonzero_seed(seed: u64) -> u64 {
    if seed == 0 {
        1
    } else {
        seed
    }
}

/// The state view the runtime stream derives from a seed.
pub open spec fn spec_small_state(seed: u64, num_buckets: u32) -> (u32, Seq<u64>) {
    (
        spec_num_bits_for_buckets(num_buckets),
        seq![xoshiro_word(seed, 0) | 1, xoshiro_word(seed, 1)],
    )
}

/// The state view the constant-style generator derives from a seed.
pub open spec fn spec_small_state_const(seed: u64, num_buckets: u32) -> (u32, Seq<u64>) {
    let s = spec_nonzero_seed(seed);
    (
        spec_num_bits_for_buckets(num_buckets),
        seq![spec_xorshift64_word(s, 0) | 1, spec_xorshift64_word(s, 1)],
    )
}

/// Whether the state is fit for hashing.
pub open spec fn spec_small_state_wf(stv: (u32, Seq<u64>)) -> bool {
    &&& 1 <= stv.0 <= 31
    &&& stv.1.len() == 2
    &&& stv.1[0] > 0
}

impl SmallIntState {
    /// Derives the state from a seed with the runtime stream.
    pub fn from_seed(seed: u64, num_buckets: u32) -> (st: Self)
        requires
            1 <= num_buckets <= 0x8000_0000,
        ensures
            st@ == spec_small_state(seed, num_buckets),
            spec_small_state_wf(st@),
            st@.0 == spec_num_bits_for_buckets(num_buckets),
    {
        proof {
            lemma_num_bits_for_buckets(num_buckets);
        }
        let words = xoshiro_fill(seed, 2);
        let num_bits = num_bits_for_buckets(num_buckets);
        proof {
            lemma_or_one_nonzero(words@[0]);
        }
        let st = SmallIntState { num_bits, seed: [words[0] | 1, words[1]] };
        proof {
            assert(st@.1 =~= spec_small_state(seed, num_buckets).1);
        }
        st
    }

    /// Derives the state from a seed with the constant-style generator.
    pub fn from_seed_const(seed: u64, num_buckets: u32) -> (st: Self)
        requires
            1 <= num_buckets <= 0x8000_0000,
        ensures
            st@ == spec_small_state_const(seed, num_buckets),
            spec_small_state_wf(st@),
            st@.0 == spec_num_bits_for_buckets(num_buckets),
    {
        proof {
            lemma_num_bits_for_buckets(num_buckets);
        }
        let s = if seed == 0 {
            1
        } else {
            seed
        };
        let words = fill_array(2, s);
        let num_bits = num_bits_for_buckets(num_buckets);
        proof {
            lemma_or_one_nonzero(words@[0]);
        }
        let st = SmallIntState { num_bits, seed: [words[0] | 1, words[1]] };
        proof {
            assert(st@.1 =~= spec_small_state_const(seed, num_buckets).1);
        }
        st
    }
}

impl Default for SmallIntState {
    /// The all-zero state with an odd first seed word.
    fn default() -> (r: Self)
        ensures
            r@ == (0u32, seq![1u64, 0u64]),
    {
        let r = SmallIntState { num_bits: 0, seed: [1, 0] };
        proof {
            assert(r@.1 =~= seq![1u64, 0u64]);
        }
        r
    }
}

/// The hash of a widened key under a small-int state.
pub open spec fn spec_small_hash(stv: (u32, Seq<u64>), value: u32) -> u32 {
    spec_multiply_shift(value, stv.0, stv.1)
}

pub proof fn lemma_small_hash_range(stv: (u32, Seq<u64>), value: u32)
    requires
        spec_small_state_wf(stv),
    ensures
        spec_small_hash(stv, value) < pow2(stv.0 as nat),
{
    crate::hashing::common::lemma_extract_bits_64(
        stv.1[0].wrapping_mul(value as u64).wrapping_add(stv.1[1]),
        stv.0,
    );
}

/// Hashes a widened key under a small-int state.
fn small_hash(st: &SmallIntState, value: u32) -> (r: u32)
    requires
        spec_small_state_wf(st@),
    ensures
        r == spec_small_hash(st@, value),
        r < pow2(st@.0 as nat),
{
    multiply_shift(value, st.num_bits, &st.seed)
}

impl MSPKey for u32 {
    type State = SmallIntState;

    open spec fn spec_make_state(seed: u64, num_buckets: u32) -> (u32, Seq<u64>) {
        spec_small_state(seed, num_buckets)
    }

    open spec fn spec_make_state_const(seed: u64, num_buckets: u32) -> (u32, Seq<u64>) {
        spec_small_state_const(seed, num_buckets)
    }

    open spec fn spec_state_default() -> (u32, Seq<u64>) {
        (0u32, seq![1u64, 0u64])
    }

    open spec fn state_wf(stv: (u32, Seq<u64>)) -> bool {
        spec_small_state_wf(stv)
    }

    open spec fn state_num_bits(stv: (u32, Seq<u64>)) -> u32 {
        stv.0
    }

    open spec fn spec_state_hash(stv: (u32, Seq<u64>), key: u32) -> u32 {
        spec_small_hash(stv, key)
    }

    proof fn state_wf_bits(stv: (u32, Seq<u64>)) {
    }

    proof fn state_hash_range(stv: (u32, Seq<u64>), key: Self) {
        lemma_small_hash_range(stv, key as u32);
    }

    fn make_state(seed: u64, num_buckets: u32) -> (st: SmallIntState) {
        SmallIntState::from_seed(seed, num_buckets)
    }

    fn make_state_const(seed: u64, num_buckets: u32) -> (st: SmallIntState) {
        SmallIntState::from_seed_const(seed, num_buckets)
    }

    fn state_default() -> (st: SmallIntState) {
        SmallIntState::default()
    }

    fn state_num_bits_exec(st: &SmallIntState) -> (r: u32) {
        st.num_bits
    }

    fn state_hash(st: &SmallIntState, key: &u32) -> (r: u32) {
        small_hash(st, *key)
    }

    fn state_hash_const(st: &SmallIntState, key: &u32) -> (r: u32) {
        small_hash(st, *key)
    }
}

impl MSPKey for i32 {
    type State = SmallIntState;

    open spec fn spec_make_state(seed: u64, num_buckets: u32) -> (u32, Seq<u64>) {
        spec_small_state(seed, num_buckets)
    }

    open spec fn spec_make_state_const(seed: u64, num_buckets: u32) -> (u32, Seq<u64>) {
        spec_small_state_const(seed, num_buckets)
    }

    open spec fn spec_state_default() -> (u32, Seq<u64>) {
        (0u32, seq![1u64, 0u64])
    }

    open spec fn state_wf(stv: (u32, Seq<u64>)) -> bool {
        spec_small_state_wf(stv)
    }

    open spec fn state_num_bits(stv: (u32, Seq<u64>)) -> u32 {
        stv.0
    }

    open spec fn spec_state_hash(stv: (u32, Seq<u64>), key: i32) -> u32 {
        spec_small_hash(stv, key as u32)
    }

    proof fn state_wf_bits(stv: (u32, Seq<u64>)) {
    }

    proof fn state_hash_range(stv: (u32, Seq<u64>), key: Self) {
        lemma_small_hash_range(stv, key as u32);
    }

    fn make_state(seed: u64, num_buckets: u32) -> (st: SmallIntState) {
        SmallIntState::from_seed(seed, num_buckets)
    }

    fn make_state_const(seed: u64, num_buckets: u32) -> (st: SmallIntState) {
        SmallIntState::from_seed_const(seed, num_buckets)
    }

    fn state_default() -> (st: SmallIntState) {
        SmallIntState::default()
    }

    fn state_num_bits_exec(st: &SmallIntState) -> (r: u32) {
        st.num_bits
    }

    fn state_hash(st: &SmallIntState, key: &i32) -> (r: u32) {
        small_hash(st, *key as u32)
    }

    fn state_hash_const(st: &SmallIntState, key: &i32) -> (r: u32) {
        small_hash(st, *key as u32)
    }
}

impl MSPKey for u16 {
    type State = SmallIntState;

    open spec fn spec_make_state(seed: u64, num_buckets: u32) -> (u32, Seq<u64>) {
        spec_small_state(seed, num_buckets)
    }

    open spec fn spec_make_state_const(seed: u64, num_buckets: u32) -> (u32, Seq<u64>) {
        spec_small_state_const(seed, num_buckets)
    }

    open spec fn spec_state_default() -> (u32, Seq<u64>) {
        (0u32, seq![1u64, 0u64])
    }

    open spec fn state_wf(stv: (u32, Seq<u64>)) -> bool {
        spec_small_state_wf(stv)
    }

    open spec fn state_num_bits(stv: (u32, Seq<u64>)) -> u32 {
        stv.0
    }

    open spec fn spec_state_hash(stv: (u32, Seq<u64>), key: u16) -> u32 {
        spec_small_hash(stv, key as u32)
    }

    proof fn state_wf_bits(stv: (u32, Seq<u64>)) {
    }

    proof fn state_hash_range(stv: (u32, Seq<u64>), key: Self) {
        lemma_small_hash_range(stv, key as u32);
    }

    fn make_state(seed: u64, num_buckets: u32) -> (st: SmallIntState) {
        SmallIntState::from_seed(seed, num_buckets)
    }

    fn make_state_const(seed: u64, num_buckets: u32) -> (st: SmallIntState) {
        SmallIntState::from_seed_const(seed, num_buckets)
    }

    fn state_default() -> (st: SmallIntState) {
        SmallIntState::default()
    }

    fn state_num_bits_exec(st: &SmallIntState) -> (r: u32) {
        st.num_bits
    }

    fn state_hash(st: &SmallIntState, key: &u16) -> (r: u32) {
        small_hash(st, *key as u32)
    }

    fn state_hash_const(st: &SmallIntState, key: &u16) -> (r: u32) {
        small_hash(st, *key as u32)
    }
}

impl MSPKey for i16 {
    type State = SmallIntState;

    open spec fn spec_make_state(seed: u64, num_buckets: u32) -> (u32, Seq<u64>) {
        spec_small_state(seed, num_buckets)
    }

    open spec fn spec_make_state_const(seed: u64, num_buckets: u32) -> (u32, Seq<u64>) {
        spec_small_state_const(seed, num_buckets)
    }

    open spec fn spec_state_default() -> (u32, Seq<u64>) {
        (0u32, seq![1u64, 0u64])
    }

    open spec fn state_wf(stv: (u32, Seq<u64>)) -> bool {
        spec_small_state_wf(stv)
    }

    open spec fn state_num_bits(stv: (u32, Seq<u64>)) -> u32 {
        stv.0
    }

    open spec fn spec_state_hash(stv: (u32, Seq<u64>), key: i16) -> u32 {
        spec_small_hash(stv, key as u32)
    }

    proof fn state_wf_bits(stv: (u32, Seq<u64>)) {
    }

    proof fn state_hash_range(stv: (u32, Seq<u64>), key: Self) {
        lemma_small_hash_range(stv, key as u32);
    }

    fn make_state(seed: u64, num_buckets: u32) -> (st: SmallIntState) {
        SmallIntState::from_seed(seed, num_buckets)
    }

    fn make_state_const(seed: u64, num_buckets: u32) -> (st: SmallIntState) {
        SmallIntState::from_seed_const(seed, num_buckets)
    }

    fn state_default() -> (st: SmallIntState) {
        SmallIntState::default()
    }

    fn state_num_bits_exec(st: &SmallIntState) -> (r: u32) {
        st.num_bits
    }

    fn state_hash(st: &SmallIntState, key: &i16) -> (r: u32) {
        small_hash(st, *key as u32)
    }

    fn state_hash_const(st: &SmallIntState, key: &i16) -> (r: u32) {
        small_hash(st, *key as u32)
    }
}

impl MSPKey for u8 {
    type State = SmallIntState;

    open spec fn spec_make_state(seed: u64, num_buckets: u32) -> (u32, Seq<u64>) {
        spec_small_state(seed, num_buckets)
    }

    open spec fn spec_make_state_const(seed: u64, num_buckets: u32) -> (u32, Seq<u64>) {
        spec_small_state_const(seed, num_buckets)
    }

    open spec fn spec_state_default() -> (u32, Seq<u64>) {
        (0u32, seq![1u64, 0u64])
    }

    open spec fn state_wf(stv: (u32, Seq<u64>)) -> bool {
        spec_small_state_wf(stv)
    }

    open spec fn state_num_bits(stv: (u32, Seq<u64>)) -> u32 {
        stv.0
    }

    open spec fn spec_state_hash(stv: (u32, Seq<u64>), key: u8) -> u32 {
        spec_small_hash(stv, key as u32)
    }

    proof fn state_wf_bits(stv: (u32, Seq<u64>)) {
    }

    proof fn state_hash_range(stv: (u32, Seq<u64>), key: Self) {
        lemma_small_hash_range(stv, key as u32);
    }

    fn make_state(seed: u64, num_buckets: u32) -> (st: SmallIntState) {
        SmallIntState::from_seed(seed, num_buckets)
    }

    fn make_state_const(seed: u64, num_buckets: u32) -> (st: SmallIntState) {
        SmallIntState::from_seed_const(seed, num_buckets)
    }

    fn state_default() -> (st: SmallIntState) {
        SmallIntState::default()
    }

    fn state_num_bits_exec(st: &SmallIntState) -> (r: u32) {
        st.num_bits
    }

    fn state_hash(st: &SmallIntState, key: &u8) -> (r: u32) {
        small_hash(st, *key as u32)
    }

    fn state_hash_const(st: &SmallIntState, key: &u8) -> (r: u32) {
        small_hash(st, *key as u32)
    }
}

impl MSPKey for i8 {
    type State = SmallIntState;

    open spec fn spec_make_state(seed: u64, num_buckets: u32) -> (u32, Seq<u64>) {
        spec_small_state(seed, num_buckets)
    }

    open spec fn spec_make_state_const(seed: u64, num_buckets: u32) -> (u32, Seq<u64>) {
        spec_small_state_const(seed, num_buckets)
    }

    open spec fn spec_state_default() -> (u32, Seq<u64>) {
        (0u32, seq![1u64, 0u64])
    }

    open spec fn state_wf(stv: (u32, Seq<u64>)) -> bool {
        spec_small_state_wf(stv)
    }

    open spec fn state_num_bits(stv: (u32, Seq<u64>)) -> u32 {
        stv.0
    }

    open spec fn spec_state_hash(stv: (u32, Seq<u64>), key: i8) -> u32 {
        spec_small_hash(stv, key as u32)
    }

    proof fn state_wf_bits(stv: (u32, Seq<u64>)) {
    }

    proof fn state_hash_range(stv: (u32, Seq<u64>), key: Self) {
        lemma_small_hash_range(stv, key as u32);
    }

    fn make_state(seed: u64, num_buckets: u32) -> (st: SmallIntState) {
        SmallIntState::from_seed(seed, num_buckets)
    }

    fn make_state_const(seed: u64, num_buckets: u32) -> (st: SmallIntState) {
        SmallIntState::from_seed_const(seed, num_buckets)
    }

    fn state_default() -> (st: SmallIntState) {
        SmallIntState::default()
    }

    fn state_num_bits_exec(st: &SmallIntState) -> (r: u32) {
        st.num_bits
    }

    fn state_hash(st: &SmallIntState, key: &i8) -> (r: u32) {
        small_hash(st, *key as u32)
    }

    fn state_hash_const(st: &SmallIntState, key: &i8) -> (r: u32) {
        small_hash(st, *key as u32)
    }
}


/// Seed material for fixed-size arrays of keys of at most 32 bits: the
/// elements are widened to words and hashed like an array of words, so
/// the state is the word-array state.
pub type SmallArrayState<const N: usize> = crate::hashing::hashers::msp::int64::Array64State<N>;

impl<const N: usize> MSPKey for [u32; N] {
    type State = SmallArrayState<N>;

    open spec fn spec_make_state(seed: u64, num_buckets: u32) -> (u32, u64, Seq<(u64, u64)>) {
        spec_array64_state(seed, num_buckets, N as int)
    }

    open spec fn spec_make_state_const(seed: u64, num_buckets: u32) -> (
        u32,
        u64,
        Seq<(u64, u64)>,
    ) {
        spec_array64_state_const(seed, num_buckets, N as int)
    }

    open spec fn spec_state_default() -> (u32, u64, Seq<(u64, u64)>) {
        (0u32, 0u64, Seq::new(N as nat, |i: int| (0u64, 0u64)))
    }

    open spec fn state_wf(stv: (u32, u64, Seq<(u64, u64)>)) -> bool {
        spec_array64_state_wf(stv, N as int)
    }

    open spec fn state_num_bits(stv: (u32, u64, Seq<(u64, u64)>)) -> u32 {
        stv.0
    }

    open spec fn spec_state_hash(stv: (u32, u64, Seq<(u64, u64)>), key: Seq<u32>) -> u32 {
        spec_array64_hash(stv, key.map_values(|v: u32| v as u64))
    }

    proof fn state_wf_bits(stv: (u32, u64, Seq<(u64, u64)>)) {
    }

    proof fn state_hash_range(stv: (u32, u64, Seq<(u64, u64)>), key: Seq<u32>) {
        let widened = key.map_values(|v: u32| v as u64);
        crate::hashing::common::lemma_extract_bits_64(
            spec_array64_sum(widened, stv.1, stv.2, widened.len() as int),
            stv.0,
        );
    }

    fn make_state(seed: u64, num_buckets: u32) -> (st: SmallArrayState<N>) {
        SmallArrayState::from_seed(seed, num_buckets)
    }

    fn make_state_const(seed: u64, num_buckets: u32) -> (st: SmallArrayState<N>) {
        SmallArrayState::from_seed_const(seed, num_buckets)
    }

    fn state_default() -> (st: SmallArrayState<N>) {
        SmallArrayState::default()
    }

    fn state_num_bits_exec(st: &SmallArrayState<N>) -> (r: u32) {
        crate::hashing::hashers::msp::int64::array64_num_bits(st)
    }

    fn state_hash(st: &SmallArrayState<N>, key: &[u32; N]) -> (r: u32) {
        let mut widened: [u64; N] = [0; N];
        let mut i: usize = 0;
        while i < N
            invariant
                0 <= i <= N,
                widened@.len() == N,
                forall|t: int| 0 <= t < i ==> (#[trigger] widened@[t]) == key@[t] as u64,
            decreases N - i,
        {
            widened[i] = key[i] as u64;
            i = i + 1;
        }
        proof {
            assert(widened@ =~= key.deep_view().map_values(|v: u32| v as u64));
        }
        crate::hashing::hashers::msp::int64::array64_hash(st, &widened)
    }

    fn state_hash_const(st: &SmallArrayState<N>, key: &[u32; N]) -> (r: u32) {
        let mut widened: [u64; N] = [0; N];
        let mut i: usize = 0;
        while i < N
            invariant
                0 <= i <= N,
                widened@.len() == N,
                forall|t: int| 0 <= t < i ==> (#[trigger] widened@[t]) == key@[t] as u64,
            decreases N - i,
        {
            widened[i] = key[i] as u64;
            i = i + 1;
        }
        proof {
            assert(widened@ =~= key.deep_view().map_values(|v: u32| v as u64));
        }
        crate::hashing::hashers::msp::int64::array64_hash_const(st, &widened)
    }
}

impl<const N: usize> MSPKey for [i32; N] {
    type State = SmallArrayState<N>;

    open spec fn spec_make_state(seed: u64, num_buckets: u32) -> (u32, u64, Seq<(u64, u64)>) {
        spec_array64_state(seed, num_buckets, N as int)
    }

    open spec fn spec_make_state_const(seed: u64, num_buckets: u32) -> (
        u32,
        u64,
        Seq<(u64, u64)>,
    ) {
        spec_array64_state_const(seed, num_buckets, N as int)
    }

    open spec fn spec_state_default() -> (u32, u64, Seq<(u64, u64)>) {
        (0u32, 0u64, Seq::new(N as nat, |i: int| (0u64, 0u64)))
    }

    open spec fn state_wf(stv: (u32, u64, Seq<(u64, u64)>)) -> bool {
        spec_array64_state_wf(stv, N as int)
    }

    open spec fn state_num_bits(stv: (u32, u64, Seq<(u64, u64)>)) -> u32 {
        stv.0
    }

    open spec fn spec_state_hash(stv: (u32, u64, Seq<(u64, u64)>), key: Seq<i32>) -> u32 {
        spec_array64_hash(stv, key.map_values(|v: i32| v as u64))
    }

    proof fn state_wf_bits(stv: (u32, u64, Seq<(u64, u64)>)) {
    }

    proof fn state_hash_range(stv: (u32, u64, Seq<(u64, u64)>), key: Seq<i32>) {
        let widened = key.map_values(|v: i32| v as u64);
        crate::hashing::common::lemma_extract_bits_64(
            spec_array64_sum(widened, stv.1, stv.2, widened.len() as int),
            stv.0,
        );
    }

    fn make_state(seed: u64, num_buckets: u32) -> (st: SmallArrayState<N>) {
        SmallArrayState::from_seed(seed, num_buckets)
    }

    fn make_state_const(seed: u64, num_buckets: u32) -> (st: SmallArrayState<N>) {
        SmallArrayState::from_seed_const(seed, num_buckets)
    }

    fn state_default() -> (st: SmallArrayState<N>) {
        SmallArrayState::default()
    }

    fn state_num_bits_exec(st: &SmallArrayState<N>) -> (r: u32) {
        crate::hashing::hashers::msp::int64::array64_num_bits(st)
    }

    fn state_hash(st: &SmallArrayState<N>, key: &[i32; N]) -> (r: u32) {
        let mut widened: [u64; N] = [0; N];
        let mut i: usize = 0;
        while i < N
            invariant
                0 <= i <= N,
                widened@.len() == N,
                forall|t: int| 0 <= t < i ==> (#[trigger] widened@[t]) == key@[t] as u64,
            decreases N - i,
        {
            widened[i] = key[i] as u64;
            i = i + 1;
        }
        proof {
            assert(widened@ =~= key.deep_view().map_values(|v: i32| v as u64));
        }
        crate::hashing::hashers::msp::int64::array64_hash(st, &widened)
    }

    fn state_hash_const(st: &SmallArrayState<N>, key: &[i32; N]) -> (r: u32) {
        let mut widened: [u64; N] = [0; N];
        let mut i: usize = 0;
        while i < N
            invariant
                0 <= i <= N,
                widened@.len() == N,
                forall|t: int| 0 <= t < i ==> (#[trigger] widened@[t]) == key@[t] as u64,
            decreases N - i,
        {
            widened[i] = key[i] as u64;
            i = i + 1;
        }
        proof {
            assert(widened@ =~= key.deep_view().map_values(|v: i32| v as u64));
        }
        crate::hashing::hashers::msp::int64::array64_hash_const(st, &widened)
    }
}

impl<const N: usize> MSPKey for [u16; N] {
    type State = SmallArrayState<N>;

    open spec fn spec_make_state(seed: u64, num_buckets: u32) -> (u32, u64, Seq<(u64, u64)>) {
        spec_array64_state(seed, num_buckets, N as int)
    }

    open spec fn spec_make_state_const(seed: u64, num_buckets: u32) -> (
        u32,
        u64,
        Seq<(u64, u64)>,
    ) {
        spec_array64_state_const(seed, num_buckets, N as int)
    }

    open spec fn spec_state_default() -> (u32, u64, Seq<(u64, u64)>) {
        (0u32, 0u64, Seq::new(N as nat, |i: int| (0u64, 0u64)))
    }

    open spec fn state_wf(stv: (u32, u64, Seq<(u64, u64)>)) -> bool {
        spec_array64_state_wf(stv, N as int)
    }

    open spec fn state_num_bits(stv: (u32, u64, Seq<(u64, u64)>)) -> u32 {
        stv.0
    }

    open spec fn spec_state_hash(stv: (u32, u64, Seq<(u64, u64)>), key: Seq<u16>) -> u32 {
        spec_array64_hash(stv, key.map_values(|v: u16| v as u64))
    }

    proof fn state_wf_bits(stv: (u32, u64, Seq<(u64, u64)>)) {
    }

    proof fn state_hash_range(stv: (u32, u64, Seq<(u64, u64)>), key: Seq<u16>) {
        let widened = key.map_values(|v: u16| v as u64);
        crate::hashing::common::lemma_extract_bits_64(
            spec_array64_sum(widened, stv.1, stv.2, widened.len() as int),
            stv.0,
        );
    }

    fn make_state(seed: u64, num_buckets: u32) -> (st: SmallArrayState<N>) {
        SmallArrayState::from_seed(seed, num_buckets)
    }

    fn make_state_const(seed: u64, num_buckets: u32) -> (st: SmallArrayState<N>) {
        SmallArrayState::from_seed_const(seed, num_buckets)
    }

    fn state_default() -> (st: SmallArrayState<N>) {
        SmallArrayState::default()
    }

    fn state_num_bits_exec(st: &SmallArrayState<N>) -> (r: u32) {
        crate::hashing::hashers::msp::int64::array64_num_bits(st)
    }

    fn state_hash(st: &SmallArrayState<N>, key: &[u16; N]) -> (r: u32) {
        let mut widened: [u64; N] = [0; N];
        let mut i: usize = 0;
        while i < N
            invariant
                0 <= i <= N,
                widened@.len() == N,
                forall|t: int| 0 <= t < i ==> (#[trigger] widened@[t]) == key@[t] as u64,
            decreases N - i,
        {
            widened[i] = key[i] as u64;
            i = i + 1;
        }
        proof {
            assert(widened@ =~= key.deep_view().map_values(|v: u16| v as u64));
        }
        crate::hashing::hashers::msp::int64::array64_hash(st, &widened)
    }

    fn state_hash_const(st: &SmallArrayState<N>, key: &[u16; N]) -> (r: u32) {
        let mut widened: [u64; N] = [0; N];
        let mut i: usize = 0;
        while i < N
            invariant
                0 <= i <= N,
                widened@.len() == N,
                forall|t: int| 0 <= t < i ==> (#[trigger] widened@[t]) == key@[t] as u64,
            decreases N - i,
        {
            widened[i] = key[i] as u64;
            i = i + 1;
        }
        proof {
            assert(widened@ =~= key.deep_view().map_values(|v: u16| v as u64));
        }
        crate::hashing::hashers::msp::int64::array64_hash_const(st, &widened)
    }
}

impl<const N: usize> MSPKey for [i16; N] {
    type State = SmallArrayState<N>;

    open spec fn spec_make_state(seed: u64, num_buckets: u32) -> (u32, u64, Seq<(u64, u64)>) {
        spec_array64_state(seed, num_buckets, N as int)
    }

    open spec fn spec_make_state_const(seed: u64, num_buckets: u32) -> (
        u32,
        u64,
        Seq<(u64, u64)>,
    ) {
        spec_array64_state_const(seed, num_buckets, N as int)
    }

    open spec fn spec_state_default() -> (u32, u64, Seq<(u64, u64)>) {
        (0u32, 0u64, Seq::new(N as nat, |i: int| (0u64, 0u64)))
    }

    open spec fn state_wf(stv: (u32, u64, Seq<(u64, u64)>)) -> bool {
        spec_array64_state_wf(stv, N as int)
    }

    open spec fn state_num_bits(stv: (u32, u64, Seq<(u64, u64)>)) -> u32 {
        stv.0
    }

    open spec fn spec_state_hash(stv: (u32, u64, Seq<(u64, u64)>), key: Seq<i16>) -> u32 {
        spec_array64_hash(stv, key.map_values(|v: i16| v as u64))
    }

    proof fn state_wf_bits(stv: (u32, u64, Seq<(u64, u64)>)) {
    }

    proof fn state_hash_range(stv: (u32, u64, Seq<(u64, u64)>), key: Seq<i16>) {
        let widened = key.map_values(|v: i16| v as u64);
        crate::hashing::common::lemma_extract_bits_64(
            spec_array64_sum(widened, stv.1, stv.2, widened.len() as int),
            stv.0,
        );
    }

    fn make_state(seed: u64, num_buckets: u32) -> (st: SmallArrayState<N>) {
        SmallArrayState::from_seed(seed, num_buckets)
    }

    fn make_state_const(seed: u64, num_buckets: u32) -> (st: SmallArrayState<N>) {
        SmallArrayState::from_seed_const(seed, num_buckets)
    }

    fn state_default() -> (st: SmallArrayState<N>) {
        SmallArrayState::default()
    }

    fn state_num_bits_exec(st: &SmallArrayState<N>) -> (r: u32) {
        crate::hashing::hashers::msp::int64::array64_num_bits(st)
    }

    fn state_hash(st: &SmallArrayState<N>, key: &[i16; N]) -> (r: u32) {
        let mut widened: [u64; N] = [0; N];
        let mut i: usize = 0;
        while i < N
            invariant
                0 <= i <= N,
                widened@.len() == N,
                forall|t: int| 0 <= t < i ==> (#[trigger] widened@[t]) == key@[t] as u64,
            decreases N - i,
        {
            widened[i] = key[i] as u64;
            i = i + 1;
        }
        proof {
            assert(widened@ =~= key.deep_view().map_values(|v: i16| v as u64));
        }
        crate::hashing::hashers::msp::int64::array64_hash(st, &widened)
    }

    fn state_hash_const(st: &SmallArrayState<N>, key: &[i16; N]) -> (r: u32) {
        let mut widened: [u64; N] = [0; N];
        let mut i: usize = 0;
        while i < N
            invariant
                0 <= i <= N,
                widened@.len() == N,
                forall|t: int| 0 <= t < i ==> (#[trigger] widened@[t]) == key@[t] as u64,
            decreases N - i,
        {
            widened[i] = key[i] as u64;
            i = i + 1;
        }
        proof {
            assert(widened@ =~= key.deep_view().map_values(|v: i16| v as u64));
        }
        crate::hashing::hashers::msp::int64::array64_hash_const(st, &widened)
    }
}

impl<const N: usize> MSPKey for [u8; N] {
    type State = SmallArrayState<N>;

    open spec fn spec_make_state(seed: u64, num_buckets: u32) -> (u32, u64, Seq<(u64, u64)>) {
        spec_array64_state(seed, num_buckets, N as int)
    }

    open spec fn spec_make_state_const(seed: u64, num_buckets: u32) -> (
        u32,
        u64,
        Seq<(u64, u64)>,
    ) {
        spec_array64_state_const(seed, num_buckets, N as int)
    }

    open spec fn spec_state_default() -> (u32, u64, Seq<(u64, u64)>) {
        (0u32, 0u64, Seq::new(N as nat, |i: int| (0u64, 0u64)))
    }

    open spec fn state_wf(stv: (u32, u64, Seq<(u64, u64)>)) -> bool {
        spec_array64_state_wf(stv, N as int)
    }

    open spec fn state_num_bits(stv: (u32, u64, Seq<(u64, u64)>)) -> u32 {
        stv.0
    }

    open spec fn spec_state_hash(stv: (u32, u64, Seq<(u64, u64)>), key: Seq<u8>) -> u32 {
        spec_array64_hash(stv, key.map_values(|v: u8| v as u64))
    }

    proof fn state_wf_bits(stv: (u32, u64, Seq<(u64, u64)>)) {
    }

    proof fn state_hash_range(stv: (u32, u64, Seq<(u64, u64)>), key: Seq<u8>) {
        let widened = key.map_values(|v: u8| v as u64);
        crate::hashing::common::lemma_extract_bits_64(
            spec_array64_sum(widened, stv.1, stv.2, widened.len() as int),
            stv.0,
        );
    }

    fn make_state(seed: u64, num_buckets: u32) -> (st: SmallArrayState<N>) {
        SmallArrayState::from_seed(seed, num_buckets)
    }

    fn make_state_const(seed: u64, num_buckets: u32) -> (st: SmallArrayState<N>) {
        SmallArrayState::from_seed_const(seed, num_buckets)
    }

    fn state_default() -> (st: SmallArrayState<N>) {
        SmallArrayState::default()
    }

    fn state_num_bits_exec(st: &SmallArrayState<N>) -> (r: u32) {
        crate::hashing::hashers::msp::int64::array64_num_bits(st)
    }

    fn state_hash(st: &SmallArrayState<N>, key: &[u8; N]) -> (r: u32) {
        let mut widened: [u64; N] = [0; N];
        let mut i: usize = 0;
        while i < N
            invariant
                0 <= i <= N,
                widened@.len() == N,
                forall|t: int| 0 <= t < i ==> (#[trigger] widened@[t]) == key@[t] as u64,
            decreases N - i,
        {
            widened[i] = key[i] as u64;
            i = i + 1;
        }
        proof {
            assert(widened@ =~= key.deep_view().map_values(|v: u8| v as u64));
        }
        crate::hashing::hashers::msp::int64::array64_hash(st, &widened)
    }

    fn state_hash_const(st: &SmallArrayState<N>, key: &[u8; N]) -> (r: u32) {
        let mut widened: [u64; N] = [0; N];
        let mut i: usize = 0;
        while i < N
            invariant
                0 <= i <= N,
                widened@.len() == N,
                forall|t: int| 0 <= t < i ==> (#[trigger] widened@[t]) == key@[t] as u64,
            decreases N - i,
        {
            widened[i] = key[i] as u64;
            i = i + 1;
        }
        proof {
            assert(widened@ =~= key.deep_view().map_values(|v: u8| v as u64));
        }
        crate::hashing::hashers::msp::int64::array64_hash_const(st, &widened)
    }
}

impl<const N: usize> MSPKey for [i8; N] {
    type State = SmallArrayState<N>;

    open spec fn spec_make_state(seed: u64, num_buckets: u32) -> (u32, u64, Seq<(u64, u64)>) {
        spec_array64_state(seed, num_buckets, N as int)
    }

    open spec fn spec_make_state_const(seed: u64, num_buckets: u32) -> (
        u32,
        u64,
        Seq<(u64, u64)>,
    ) {
        spec_array64_state_const(seed, num_buckets, N as int)
    }

    open spec fn spec_state_default() -> (u32, u64, Seq<(u64, u64)>) {
        (0u32, 0u64, Seq::new(N as nat, |i: int| (0u64, 0u64)))
    }

    open spec fn state_wf(stv: (u32, u64, Seq<(u64, u64)>)) -> bool {
        spec_array64_state_wf(stv, N as int)
    }

    open spec fn state_num_bits(stv: (u32, u64, Seq<(u64, u64)>)) -> u32 {
        stv.0
    }

    open spec fn spec_state_hash(stv: (u32, u64, Seq<(u64, u64)>), key: Seq<i8>) -> u32 {
        spec_array64_hash(stv, key.map_values(|v: i8| v as u64))
    }

    proof fn state_wf_bits(stv: (u32, u64, Seq<(u64, u64)>)) {
    }

    proof fn state_hash_range(stv: (u32, u64, Seq<(u64, u64)>), key: Seq<i8>) {
        let widened = key.map_values(|v: i8| v as u64);
        crate::hashing::common::lemma_extract_bits_64(
            spec_array64_sum(widened, stv.1, stv.2, widened.len() as int),
            stv.0,
        );
    }

    fn make_state(seed: u64, num_buckets: u32) -> (st: SmallArrayState<N>) {
        SmallArrayState::from_seed(seed, num_buckets)
    }

    fn make_state_const(seed: u64, num_buckets: u32) -> (st: SmallArrayState<N>) {
        SmallArrayState::from_seed_const(seed, num_buckets)
    }

    fn state_default() -> (st: SmallArrayState<N>) {
        SmallArrayState::default()
    }

    fn state_num_bits_exec(st: &SmallArrayState<N>) -> (r: u32) {
        crate::hashing::hashers::msp::int64::array64_num_bits(st)
    }

    fn state_hash(st: &SmallArrayState<N>, key: &[i8; N]) -> (r: u32) {
        let mut widened: [u64; N] = [0; N];
        let mut i: usize = 0;
        while i < N
            invariant
                0 <= i <= N,
                widened@.len() == N,
                forall|t: int| 0 <= t < i ==> (#[trigger] widened@[t]) == key@[t] as u64,
            decreases N - i,
        {
            widened[i] = key[i] as u64;
            i = i + 1;
        }
        proof {
            assert(widened@ =~= key.deep_view().map_values(|v: i8| v as u64));
        }
        crate::hashing::hashers::msp::int64::array64_hash(st, &widened)
    }

    fn state_hash_const(st: &SmallArrayState<N>, key: &[i8; N]) -> (r: u32) {
        let mut widened: [u64; N] = [0; N];
        let mut i: usize = 0;
        while i < N
            invariant
                0 <= i <= N,
                widened@.len() == N,
                forall|t: int| 0 <= t < i ==> (#[trigger] widened@[t]) == key@[t] as u64,
            decreases N - i,
        {
            widened[i] = key[i] as u64;
            i = i + 1;
        }
        proof {
            assert(widened@ =~= key.deep_view().map_values(|v: i8| v as u64));
        }
        crate::hashing::hashers::msp::int64::array64_hash_const(st, &widened)
    }
}

} // verus!
