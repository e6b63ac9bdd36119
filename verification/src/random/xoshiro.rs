//! The runtime seed stream: a Xoshiro256++ generator seeded from one
//! 64-bit word, wrapped so that every word it hands out is pinned, at the
//! specification level, to a named function of the seed and the position.

use vstd::prelude::*;
use rand_xoshiro::rand_core::Rng;
use rand_xoshiro::rand_core::SeedableRng;
use rand_xoshiro::Xoshiro256PlusPlus;

verus! {

#[verifier::external_type_specification]
#[verifier::external_body]
pub struct ExXoshiro256PlusPlus(Xoshiro256PlusPlus);

/// Word `i` of the Xoshiro256++ stream started from `seed`.  The generator
/// is seeded and stepped by pure state transitions, so the word depends on
/// the seed and the position alone.
pub uninterp spec fn xoshiro_word(seed: u64, i: int) -> u64;

/// A Xoshiro256++ generator together with the seed it was started from and
/// how many words it has handed out.
pub struct SeedStream {
    rng: Xoshiro256PlusPlus,
    seed: Ghost<u64>,
    pos: Ghost<int>,
}

impl SeedStream {
    /// The seed the stream was started from.
    pub closed spec fn spec_seed(&self) -> u64 {
        self.seed@
    }

    /// How many words the stream has handed out.
    pub closed spec fn spec_pos(&self) -> int {
        self.pos@
    }

    /// Relies on rand_xoshiro's `Xoshiro256PlusPlus` as a `SeedableRng`:
    /// `seed_from_u64` expands the word into the initial state by a fixed
    /// SplitMix64 recipe, a function of the seed alone.
    #[verifier::external_body]
    pub fn new(seed: u64) -> (r: SeedStream)
        ensures
            r.spec_seed() == seed,
            r.spec_pos() == 0,
    {
        SeedStream { rng: Xoshiro256PlusPlus::seed_from_u64(seed), seed: Ghost(seed), pos: Ghost(0) }
    }

    /// Relies on rand_xoshiro's `Xoshiro256PlusPlus::next_u64`: a pure
    /// state transition, so the word at each position after seeding is a
    /// function of the seed alone; `xoshiro_word` names it.
    #[verifier::external_body]
    pub fn next_u64(&mut self) -> (r: u64)
        ensures
            final(self).spec_seed() == old(self).spec_seed(),
            final(self).spec_pos() == old(self).spec_pos() + 1,
            r == xoshiro_word(old(self).spec_seed(), old(self).spec_pos()),
    {
        self.rng.next_u64()
    }
}

/// Draws `len` words of the Xoshiro256++ stream started from `seed`.
pub fn xoshiro_fill(seed: u64, len: usize) -> (r: Vec<u64>)
    ensures
        r@.len() == len,
        forall|i: int| 0 <= i < len ==> r@[i] == xoshiro_word(seed, i),
{
    let mut stream = SeedStream::new(seed);
    let mut out: Vec<u64> = Vec::new();
    let mut i: usize = 0;
    while i < len
        invariant
            0 <= i <= len,
            out@.len() == i,
            stream.spec_seed() == seed,
            stream.spec_pos() == i,
            forall|t: int| 0 <= t < i ==> out@[t] == xoshiro_word(seed, t),
        decreases len - i,
    {
        let w = stream.next_u64();
        out.push(w);
        i = i + 1;
    }
    out
}

} // verus!
