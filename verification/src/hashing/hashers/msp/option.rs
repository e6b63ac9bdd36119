//! MSP hashing for optional keys.
//!
//! The presence tag and the payload's hash are mixed by one more
//! pair-multiply-shift, so that an absent key and every present key all
//! draw from the full output range.

use vstd::prelude::*;

verus! {

use vstd::arithmetic::power2::pow2;
use crate::traits::MapKey;
use crate::hashing::common::{spec_num_bits_for_buckets, num_bits_for_buckets,
    lemma_num_bits_for_buckets, lemma_extract_bits_64};
use crate::hashing::multiply_shift::{spec_multiply_shift, multiply_shift, spec_pair_multiply_shift,
    pair_multiply_shift};
use crate::hashing::hashers::msp::MSPKey;
use crate::random::xoshiro::{xoshiro_word, xoshiro_fill};
use crate::random::xorshift::{spec_xorshift64_word, fill_array};
use crate::hashing::hashers::msp::smallint::{spec_nonzero_seed, lemma_or_one_nonzero};

/// Seed material for optional keys: seeds for the presence tag, the
/// combiner, and the payload's own state.
pub struct OptionState<T: MSPKey> {
    tag_seed: [u64; 2],
    combiner_seed: [u64; 3],
    inner: T::State,
    num_bits: u32,
}

impl<T: MSPKey> Clone for OptionState<T> {
    fn clone(&self) -> (r: Self)
        ensures
            r@ == self@,
    {
        OptionState {
            tag_seed: self.tag_seed,
            combiner_seed: self.combiner_seed,
            inner: self.inner,
            num_bits: self.num_bits,
        }
    }
}

impl<T: MSPKey> Copy for OptionState<T> {

}

impl<T: MSPKey> View for OptionState<T> {
    type V = (u32, Seq<u64>, Seq<u64>, <T::State as View>::V);

    closed spec fn view(&self) -> (u32, Seq<u64>, Seq<u64>, <T::State as View>::V) {
        (self.num_bits, self.tag_seed@, self.combiner_seed@, self.inner@)
    }
}

/// The state view the runtime stream derives from a seed: tag and
/// combiner words from the stream one step over, the payload state from
/// the stream two steps over.
pub open spec fn spec_option_state<T: MSPKey>(seed: u64, num_buckets: u32) -> (
    u32,
    Seq<u64>,
    Seq<u64>,
    <T::State as View>::V,
) {
    let s = seed.wrapping_add(1000);
    (
        spec_num_bits_for_buckets(num_buckets),
        seq![xoshiro_word(s, 0) | 1, xoshiro_word(s, 1)],
        seq![xoshiro_word(s, 2), xoshiro_word(s, 3), xoshiro_word(s, 4)],
        T::spec_make_state(seed.wrapping_add(2000), num_buckets),
    )
}

/// The state view the constant-style generator derives from a seed.
pub open spec fn spec_option_state_const<T: MSPKey>(seed: u64, num_buckets: u32) -> (
    u32,
    Seq<u64>,
    Seq<u64>,
    <T::State as View>::V,
) {
    let s1 = spec_nonzero_seed(seed.wrapping_add(1000));
    let s2 = spec_nonzero_seed(seed.wrapping_add(2000));
    (
        spec_num_bits_for_buckets(num_buckets),
        seq![spec_xorshift64_word(s1, 0) | 1, spec_xorshift64_word(s1, 1)],
        seq![
            spec_xorshift64_word(s2, 0) | 1,
            spec_xorshift64_word(s2, 1),
            spec_xorshift64_word(s2, 2),
        ],
        T::spec_make_state_const(seed.wrapping_add(3000), num_buckets),
    )
}

/// Whether the state is fit for hashing.
pub open spec fn spec_option_state_wf<T: MSPKey>(
    stv: (u32, Seq<u64>, Seq<u64>, <T::State as View>::V),
) -> bool {
    &&& 1 <= stv.0 <= 31
    &&& stv.1.len() == 2
    &&& stv.1[0] > 0
    &&& stv.2.len() == 3
    &&& T::state_wf(stv.3)
}

/// The hash of an optional key: the presence tag's hash concatenated with
/// the payload's hash, then mixed once more.
pub open spec fn spec_option_hash<T: MSPKey>(
    stv: (u32, Seq<u64>, Seq<u64>, <T::State as View>::V),
    key: Option<<T as DeepView>::V>,
) -> u32 {
    let tag = spec_multiply_shift(
        match key {
            Option::None => 0u32,
            Option::Some(_) => 1u32,
        },
        stv.0,
        stv.1,
    );
    let inner = match key {
        Option::None => 0u32,
        Option::Some(v) => T::spec_state_hash(stv.3, v),
    };
    spec_pair_multiply_shift(((tag as u64) << 32u64) | (inner as u64), stv.0, stv.2)
}

impl<T: MSPKey> MSPKey for Option<T> {
    type State = OptionState<T>;

    open spec fn spec_make_state(seed: u64, num_buckets: u32) -> (
        u32,
        Seq<u64>,
        Seq<u64>,
        <T::State as View>::V,
    ) {
        spec_option_state::<T>(seed, num_buckets)
    }

    open spec fn spec_make_state_const(seed: u64, num_buckets: u32) -> (
        u32,
        Seq<u64>,
        Seq<u64>,
        <T::State as View>::V,
    ) {
        spec_option_state_const::<T>(seed, num_buckets)
    }

    open spec fn spec_state_default() -> (u32, Seq<u64>, Seq<u64>, <T::State as View>::V) {
        (0u32, seq![1u64, 0u64], seq![0u64, 0u64, 0u64], T::spec_state_default())
    }

    open spec fn state_wf(stv: (u32, Seq<u64>, Seq<u64>, <T::State as View>::V)) -> bool {
        spec_option_state_wf::<T>(stv)
    }

    open spec fn state_num_bits(stv: (u32, Seq<u64>, Seq<u64>, <T::State as View>::V)) -> u32 {
        stv.0
    }

    open spec fn spec_state_hash(
        stv: (u32, Seq<u64>, Seq<u64>, <T::State as View>::V),
        key: Option<<T as DeepView>::V>,
    ) -> u32 {
        spec_option_hash::<T>(stv, key)
    }

    proof fn state_wf_bits(stv: (u32, Seq<u64>, Seq<u64>, <T::State as View>::V)) {
    }

    proof fn state_hash_range(
        stv: (u32, Seq<u64>, Seq<u64>, <T::State as View>::V),
        key: Option<<T as DeepView>::V>,
    ) {
        let tag = spec_multiply_shift(
            match key {
                Option::None => 0u32,
                Option::Some(_) => 1u32,
            },
            stv.0,
            stv.1,
        );
        let inner = match key {
            Option::None => 0u32,
            Option::Some(v) => T::spec_state_hash(stv.3, v),
        };
        let combined = ((tag as u64) << 32u64) | (inner as u64);
        lemma_extract_bits_64(
            stv.2[0].wrapping_add(combined).wrapping_mul(
                stv.2[1].wrapping_add(combined >> 32u64),
            ).wrapping_add(stv.2[2]),
            stv.0,
        );
    }

    fn make_state(seed: u64, num_buckets: u32) -> (st: OptionState<T>) {
        proof {
            lemma_num_bits_for_buckets(num_buckets);
        }
        let s = seed.wrapping_add(1000);
        let words = xoshiro_fill(s, 5);
        proof {
            lemma_or_one_nonzero(words@[0]);
        }
        let st = OptionState::<T> {
            tag_seed: [words[0] | 1, words[1]],
            combiner_seed: [words[2], words[3], words[4]],
            inner: T::make_state(seed.wrapping_add(2000), num_buckets),
            num_bits: num_bits_for_buckets(num_buckets),
        };
        proof {
            assert(st@.1 =~= spec_option_state::<T>(seed, num_buckets).1);
            assert(st@.2 =~= spec_option_state::<T>(seed, num_buckets).2);
        }
        st
    }

    fn make_state_const(seed: u64, num_buckets: u32) -> (st: OptionState<T>) {
        proof {
            lemma_num_bits_for_buckets(num_buckets);
        }
        let w1 = seed.wrapping_add(1000);
        let s1 = if w1 == 0 {
            1
        } else {
            w1
        };
        let w2 = seed.wrapping_add(2000);
        let s2 = if w2 == 0 {
            1
        } else {
            w2
        };
        let tag_words = fill_array(2, s1);
        let comb_words = fill_array(3, s2);
        proof {
            lemma_or_one_nonzero(tag_words@[0]);
            lemma_or_one_nonzero(comb_words@[0]);
        }
        let st = OptionState::<T> {
            tag_seed: [tag_words[0] | 1, tag_words[1]],
            combiner_seed: [comb_words[0] | 1, comb_words[1], comb_words[2]],
            inner: T::make_state_const(seed.wrapping_add(3000), num_buckets),
            num_bits: num_bits_for_buckets(num_buckets),
        };
        proof {
            assert(st@.1 =~= spec_option_state_const::<T>(seed, num_buckets).1);
            assert(st@.2 =~= spec_option_state_const::<T>(seed, num_buckets).2);
        }
        st
    }

    fn state_default() -> (st: OptionState<T>) {
        let st = OptionState::<T> {
            tag_seed: [1, 0],
            combiner_seed: [0, 0, 0],
            inner: T::state_default(),
            num_bits: 0,
        };
        proof {
            assert(st@.1 =~= seq![1u64, 0u64]);
            assert(st@.2 =~= seq![0u64, 0u64, 0u64]);
        }
        st
    }

    fn state_num_bits_exec(st: &OptionState<T>) -> (r: u32) {
        st.num_bits
    }

    fn state_hash(st: &OptionState<T>, key: &Option<T>) -> (r: u32) {
        let tag = multiply_shift(
            match key {
                Option::None => 0u32,
                Option::Some(_) => 1u32,
            },
            st.num_bits,
            &st.tag_seed,
        );
        let inner = match key {
            Option::None => 0u32,
            Option::Some(v) => T::state_hash(&st.inner, v),
        };
        let combined = ((tag as u64) << 32u64) | (inner as u64);
        pair_multiply_shift(combined, st.num_bits, &st.combiner_seed)
    }

    fn state_hash_const(st: &OptionState<T>, key: &Option<T>) -> (r: u32) {
        let tag = multiply_shift(
            match key {
                Option::None => 0u32,
                Option::Some(_) => 1u32,
            },
            st.num_bits,
            &st.tag_seed,
        );
        let inner = match key {
            Option::None => 0u32,
            Option::Some(v) => T::state_hash_const(&st.inner, v),
        };
        let combined = ((tag as u64) << 32u64) | (inner as u64);
        pair_multiply_shift(combined, st.num_bits, &st.combiner_seed)
    }
}

} // verus!
