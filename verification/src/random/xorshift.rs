//! The xorshift family of pseudo-random generators for 16-, 32- and 64-bit
//! words, after Marsaglia's triples.  A non-zero state is shifted and folded
//! into itself three times per step; the step is a bijection on non-zero
//! states, so the stream never degenerates to zero.

use vstd::prelude::*;

verus! {

/// One step of the 16-bit xorshift with the triple `(7, 9, 8)`.
pub open spec fn spec_xorshift16_step(x: u16) -> u16 {
    let a = x ^ (x << 7u16);
    let b = a ^ (a >> 9u16);
    b ^ (b << 8u16)
}

/// One step of the 32-bit xorshift with the triple `(13, 17, 5)`.
pub open spec fn spec_xorshift32_step(x: u32) -> u32 {
    let a = x ^ (x << 13u32);
    let b = a ^ (a >> 17u32);
    b ^ (b << 5u32)
}

/// One step of the 64-bit xorshift with the triple `(13, 7, 17)`.
pub open spec fn spec_xorshift64_step(x: u64) -> u64 {
    let a = x ^ (x << 13u64);
    let b = a ^ (a >> 7u64);
    b ^ (b << 17u64)
}

/// The 64-bit state after `i` steps from a seed.
pub open spec fn spec_xorshift64_state(seed: u64, i: int) -> u64
    decreases i,
{
    if i <= 0 {
        seed
    } else {
        spec_xorshift64_step(spec_xorshift64_state(seed, i - 1))
    }
}

/// Word `i` of the 64-bit stream: the state after `i + 1` steps.
pub open spec fn spec_xorshift64_word(seed: u64, i: int) -> u64 {
    spec_xorshift64_state(seed, i + 1)
}

/// The xorshift step maps non-zero states to non-zero states: each of the
/// three folds is invertible, and zero is their only common fixed point.
pub proof fn lemma_xorshift64_step_nonzero(x: u64)
    requires
        x != 0,
    ensures
        spec_xorshift64_step(x) != 0,
{
    assert({
        let a = x ^ (x << 13u64);
        let b = a ^ (a >> 7u64);
        (b ^ (b << 17u64)) != 0
    }) by (bit_vector)
        requires
            x != 0,
    ;
}

pub proof fn lemma_xorshift64_state_nonzero(seed: u64, i: int)
    requires
        seed != 0,
    ensures
        spec_xorshift64_state(seed, i) != 0,
    decreases (if i > 0 { i } else { 0 }),
{
    if i > 0 {
        lemma_xorshift64_state_nonzero(seed, i - 1);
        lemma_xorshift64_step_nonzero(spec_xorshift64_state(seed, i - 1));
    }
}

/// A xorshift generator over one unsigned word of state.
pub struct XorShift<T> {
    state: T,
}

impl<T> XorShift<T> {
    /// The current state.
    pub closed spec fn spec_state(&self) -> T {
        self.state
    }
}

impl XorShift<u16> {
    /// Creates a generator from a non-zero seed.
    pub fn new(seed: u16) -> (r: Self)
        requires
            seed != 0,
        ensures
            r.spec_state() == seed,
    {
        XorShift { state: seed }
    }

    /// Advances the state one step and returns it.
    pub fn next(&mut self) -> (r: u16)
        ensures
            final(self).spec_state() == spec_xorshift16_step(old(self).spec_state()),
            r == final(self).spec_state(),
    {
        let mut x = self.state;
        x = x ^ (x << 7u16);
        x = x ^ (x >> 9u16);
        x = x ^ (x << 8u16);
        self.state = x;
        x
    }
}

impl XorShift<u32> {
    /// Creates a generator from a non-zero seed.
    pub fn new(seed: u32) -> (r: Self)
        requires
            seed != 0,
        ensures
            r.spec_state() == seed,
    {
        XorShift { state: seed }
    }

    /// Advances the state one step and returns it.
    pub fn next(&mut self) -> (r: u32)
        ensures
            final(self).spec_state() == spec_xorshift32_step(old(self).spec_state()),
            r == final(self).spec_state(),
    {
        let mut x = self.state;
        x = x ^ (x << 13u32);
        x = x ^ (x >> 17u32);
        x = x ^ (x << 5u32);
        self.state = x;
        x
    }
}

impl XorShift<u64> {
    /// Creates a generator from a non-zero seed.
    pub fn new(seed: u64) -> (r: Self)
        requires
            seed != 0,
        ensures
            r.spec_state() == seed,
    {
        XorShift { state: seed }
    }

    /// Advances the state one step and returns it.
    pub fn next(&mut self) -> (r: u64)
        ensures
            final(self).spec_state() == spec_xorshift64_step(old(self).spec_state()),
            r == final(self).spec_state(),
    {
        let mut x = self.state;
        x = x ^ (x << 13u64);
        x = x ^ (x >> 7u64);
        x = x ^ (x << 17u64);
        self.state = x;
        x
    }
}

/// Draws `len` words from a fresh 64-bit generator; the stateless helper
/// that seed-derivation code builds its arrays with.
pub fn fill_array(len: usize, seed: u64) -> (r: Vec<u64>)
    requires
        seed != 0,
    ensures
        r@.len() == len,
        forall|i: int| 0 <= i < len ==> r@[i] == spec_xorshift64_word(seed, i),
{
    let mut rng = XorShift::<u64>::new(seed);
    let mut out: Vec<u64> = Vec::new();
    let mut i: usize = 0;
    while i < len
        invariant
            0 <= i <= len,
            out@.len() == i,
            rng.spec_state() == spec_xorshift64_state(seed, i as int),
            forall|t: int| 0 <= t < i ==> out@[t] == spec_xorshift64_word(seed, t),
        decreases len - i,
    {
        let w = rng.next();
        out.push(w);
        i = i + 1;
    }
    out
}

} // verus!
