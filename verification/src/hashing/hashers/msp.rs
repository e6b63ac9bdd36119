//! The multiply-shift-and-polynomial (MSP) hasher family: one hasher per
//! supported key type, each backed by the kernel that fits the key's width,
//! with twin runtime and constant-style derivations of the seed material.

pub mod smallint;
pub mod int64;
pub mod bigint;
pub mod string;
pub mod option;

use vstd::prelude::*;

verus! {

use vstd::arithmetic::power2::pow2;
use crate::traits::{MapKey, Hasher, ConstHasher};
use crate::hashing::common::{spec_num_bits_for_buckets, num_buckets_for_bits};

/// A key type the MSP family can hash: it names its state type and ties
/// the state's derivation and use to specification functions over the
/// state's view.
pub trait MSPKey: MapKey {
    /// The seed material and output width for this key type.
    type State: Copy + View;

    /// The state view derived from a seed by the runtime stream.
    spec fn spec_make_state(seed: u64, num_buckets: u32) -> <Self::State as View>::V;

    /// The state view derived from a seed by the constant-style generator.
    spec fn spec_make_state_const(seed: u64, num_buckets: u32) -> <Self::State as View>::V;

    /// The all-default state view.
    spec fn spec_state_default() -> <Self::State as View>::V;

    /// Whether the state is fit for hashing.
    spec fn state_wf(stv: <Self::State as View>::V) -> bool;

    /// The output width of the state.
    spec fn state_num_bits(stv: <Self::State as View>::V) -> u32;

    /// The hash of a key under the state, as a function of the state view
    /// and the key's deep view alone.
    spec fn spec_state_hash(stv: <Self::State as View>::V, key: <Self as DeepView>::V) -> u32;

    proof fn state_wf_bits(stv: <Self::State as View>::V)
        requires
            Self::state_wf(stv),
        ensures
            1 <= Self::state_num_bits(stv) <= 31,
    ;

    /// The hash always lies below the output range, also at the
    /// specification level.
    proof fn state_hash_range(stv: <Self::State as View>::V, key: <Self as DeepView>::V)
        requires
            Self::state_wf(stv),
        ensures
            Self::spec_state_hash(stv, key) < pow2(Self::state_num_bits(stv) as nat),
    ;

    /// Derives the state from a seed with the runtime stream.
    fn make_state(seed: u64, num_buckets: u32) -> (st: Self::State)
        requires
            1 <= num_buckets <= 0x8000_0000,
        ensures
            st@ == Self::spec_make_state(seed, num_buckets),
            Self::state_wf(st@),
            Self::state_num_bits(st@) == spec_num_bits_for_buckets(num_buckets),
    ;

    /// Derives the state from a seed with the constant-style generator.
    fn make_state_const(seed: u64, num_buckets: u32) -> (st: Self::State)
        requires
            1 <= num_buckets <= 0x8000_0000,
        ensures
            st@ == Self::spec_make_state_const(seed, num_buckets),
            Self::state_wf(st@),
            Self::state_num_bits(st@) == spec_num_bits_for_buckets(num_buckets),
    ;

    /// The all-default state.
    fn state_default() -> (st: Self::State)
        ensures
            st@ == Self::spec_state_default(),
    ;

    /// Reads the output width of the state.
    fn state_num_bits_exec(st: &Self::State) -> (r: u32)
        ensures
            r == Self::state_num_bits(st@),
    ;

    /// Hashes the key under the state.
    fn state_hash(st: &Self::State, key: &Self) -> (r: u32)
        requires
            Self::state_wf(st@),
        ensures
            r == Self::spec_state_hash(st@, key.deep_view()),
            r < pow2(Self::state_num_bits(st@) as nat),
    ;

    /// Twin of [`MSPKey::state_hash`] built on the constant-style kernels;
    /// the shared specification states that the outputs agree.
    fn state_hash_const(st: &Self::State, key: &Self) -> (r: u32)
        requires
            Self::state_wf(st@),
        ensures
            r == Self::spec_state_hash(st@, key.deep_view()),
            r < pow2(Self::state_num_bits(st@) as nat),
    ;
}

/// Hasher based on multiply-shift and polynomial hashing.
pub struct MSPHasher<T: MSPKey> {
    state: T::State,
}

impl<T: MSPKey> Clone for MSPHasher<T> {
    fn clone(&self) -> (r: Self)
        ensures
            r.state_view() == self.state_view(),
    {
        MSPHasher { state: self.state }
    }
}

impl<T: MSPKey> Hasher<T> for MSPHasher<T> {
    type State = T::State;

    closed spec fn state_view(&self) -> <T::State as View>::V {
        self.state@
    }

    open spec fn wf(&self) -> bool {
        T::state_wf(self.state_view())
    }

    open spec fn spec_num_bits(&self) -> u32 {
        T::state_num_bits(self.state_view())
    }

    open spec fn spec_hash(&self, key: <T as DeepView>::V) -> u32 {
        T::spec_state_hash(self.state_view(), key)
    }

    open spec fn spec_from_seed_view(seed: u64, num_buckets: u32) -> <T::State as View>::V {
        T::spec_make_state(seed, num_buckets)
    }

    open spec fn spec_from_seed_const_view(seed: u64, num_buckets: u32) -> <T::State as View>::V {
        T::spec_make_state_const(seed, num_buckets)
    }

    proof fn wf_num_bits(&self) {
        T::state_wf_bits(self.state_view());
    }

    proof fn hash_congruence(&self, other: &Self, key: <T as DeepView>::V) {
    }

    proof fn hash_in_range(&self, key: <T as DeepView>::V) {
        T::state_hash_range(self.state_view(), key);
    }

    fn from_seed(seed: u64, num_buckets: u32) -> (r: Self) {
        MSPHasher { state: T::make_state(seed, num_buckets) }
    }

    fn from_seed_const(seed: u64, num_buckets: u32) -> (r: Self) {
        MSPHasher { state: T::make_state_const(seed, num_buckets) }
    }

    fn num_buckets(&self) -> (r: u32) {
        proof {
            T::state_wf_bits(self.state_view());
            vstd::arithmetic::power2::lemma2_to64();
            if 1 < T::state_num_bits(self.state_view()) {
                vstd::arithmetic::power2::lemma_pow2_strictly_increases(
                    1,
                    T::state_num_bits(self.state_view()) as nat,
                );
            }
        }
        num_buckets_for_bits(T::state_num_bits_exec(&self.state))
    }

    fn hash(&self, value: &T) -> (r: u32) {
        T::state_hash(&self.state, value)
    }
}

impl<T: MSPKey> MSPHasher<T> {
    /// Derives seed material for this key type with the runtime stream.
    pub fn make_state(seed: u64, num_buckets: u32) -> (st: T::State)
        requires
            1 <= num_buckets <= 0x8000_0000,
        ensures
            st@ == T::spec_make_state(seed, num_buckets),
            T::state_wf(st@),
            T::state_num_bits(st@) == spec_num_bits_for_buckets(num_buckets),
    {
        T::make_state(seed, num_buckets)
    }

    /// Derives seed material for this key type with the constant-style
    /// generator.
    pub fn make_state_const(seed: u64, num_buckets: u32) -> (st: T::State)
        requires
            1 <= num_buckets <= 0x8000_0000,
        ensures
            st@ == T::spec_make_state_const(seed, num_buckets),
            T::state_wf(st@),
            T::state_num_bits(st@) == spec_num_bits_for_buckets(num_buckets),
    {
        T::make_state_const(seed, num_buckets)
    }

    /// Create a new hasher from the given state.
    pub fn from_state(state: T::State) -> (r: Self)
        ensures
            r.state_view() == state@,
    {
        MSPHasher { state }
    }

    /// Twin of [`MSPHasher::from_state`]; states carry no derivation left
    /// to do, so the twins coincide.
    pub fn from_state_const(state: T::State) -> (r: Self)
        ensures
            r.state_view() == state@,
    {
        MSPHasher { state }
    }

    /// Get the state of the hasher.
    pub fn state(&self) -> (r: &T::State)
        ensures
            r@ == self.state_view(),
    {
        &self.state
    }

    /// The output range, read without the trait.
    pub fn num_buckets_const(&self) -> (r: u32)
        requires
            self.wf(),
        ensures
            r == pow2(self.spec_num_bits() as nat),
            r >= 2,
    {
        proof {
            T::state_wf_bits(self.state_view());
            vstd::arithmetic::power2::lemma2_to64();
            if 1 < T::state_num_bits(self.state_view()) {
                vstd::arithmetic::power2::lemma_pow2_strictly_increases(
                    1,
                    T::state_num_bits(self.state_view()) as nat,
                );
            }
        }
        num_buckets_for_bits(T::state_num_bits_exec(&self.state))
    }

    /// Hash the given value with the constant-style kernels; the shared
    /// specification states that it agrees with [`Hasher::hash`].
    pub fn hash_const(&self, value: &T) -> (r: u32)
        requires
            self.wf(),
        ensures
            r == self.spec_hash(value.deep_view()),
            r < pow2(self.spec_num_bits() as nat),
    {
        T::state_hash_const(&self.state, value)
    }

    /// A copy of the hasher, written as a plain constructor so that it
    /// stays available to a constant evaluator.
    pub fn clone_const(&self) -> (r: Self)
        ensures
            r.state_view() == self.state_view(),
    {
        MSPHasher { state: self.state }
    }
}

impl<T: MSPKey> Default for MSPHasher<T> {
    /// The hasher over the all-default state; not fit for hashing until a
    /// real state is installed.
    fn default() -> (r: Self)
        ensures
            r.state_view() == T::spec_state_default(),
    {
        MSPHasher { state: T::state_default() }
    }
}

/// The constant-style face of the MSP family: the same states, derived
/// with the constant-expression generator and hashed with the
/// constant-style kernels.
pub struct ConstMSPHasher<T: MSPKey> {
    state: T::State,
}

impl<T: MSPKey> Clone for ConstMSPHasher<T> {
    fn clone(&self) -> (r: Self)
        ensures
            r.state_view() == self.state_view(),
    {
        ConstMSPHasher { state: self.state }
    }
}

impl<T: MSPKey> ConstMSPHasher<T> {
    /// The essence of the hasher: its state's view.
    pub closed spec fn state_view(&self) -> <T::State as View>::V {
        self.state@
    }

    /// Whether the hasher is fit for hashing.
    pub open spec fn wf(&self) -> bool {
        T::state_wf(self.state_view())
    }

    /// The number of output bits.
    pub open spec fn spec_num_bits(&self) -> u32 {
        T::state_num_bits(self.state_view())
    }

    /// The hash value as a function of the state view and key view.
    pub open spec fn spec_hash(&self, key: <T as DeepView>::V) -> u32 {
        T::spec_state_hash(self.state_view(), key)
    }

    /// Create a new hasher with a given seed and bucket count.
    pub fn from_seed(seed: u64, num_buckets: u32) -> (r: Self)
        requires
            1 <= num_buckets <= 0x8000_0000,
        ensures
            r.state_view() == T::spec_make_state_const(seed, num_buckets),
            r.wf(),
            r.spec_num_bits() == spec_num_bits_for_buckets(num_buckets),
    {
        ConstMSPHasher { state: T::make_state_const(seed, num_buckets) }
    }

    /// Create a new hasher from the given state.
    pub fn from_state(state: T::State) -> (r: Self)
        ensures
            r.state_view() == state@,
    {
        ConstMSPHasher { state }
    }

    /// Get the state of the hasher.
    pub fn state(&self) -> (r: &T::State)
        ensures
            r@ == self.state_view(),
    {
        &self.state
    }

    /// Get the number of buckets.
    pub fn num_buckets(&self) -> (r: u32)
        requires
            self.wf(),
        ensures
            r == pow2(self.spec_num_bits() as nat),
            r >= 2,
    {
        proof {
            T::state_wf_bits(self.state_view());
            vstd::arithmetic::power2::lemma2_to64();
            if 1 < T::state_num_bits(self.state_view()) {
                vstd::arithmetic::power2::lemma_pow2_strictly_increases(
                    1,
                    T::state_num_bits(self.state_view()) as nat,
                );
            }
        }
        num_buckets_for_bits(T::state_num_bits_exec(&self.state))
    }

    /// Hash the given value.
    pub fn hash(&self, value: &T) -> (r: u32)
        requires
            self.wf(),
        ensures
            r == self.spec_hash(value.deep_view()),
            r < pow2(self.spec_num_bits() as nat),
    {
        T::state_hash_const(&self.state, value)
    }

    /// Turns this hasher into its runtime face, consuming it.
    pub fn into_hasher(self) -> (r: MSPHasher<T>)
        ensures
            r.state_view() == self.state_view(),
    {
        MSPHasher::from_state(self.state)
    }

    /// The runtime face of this hasher.
    pub fn to_hasher(&self) -> (r: MSPHasher<T>)
        ensures
            r.state_view() == self.state_view(),
    {
        MSPHasher::from_state(self.state)
    }
}

impl<T: MSPKey> ConstHasher<T> for ConstMSPHasher<T> {
    type HasherType = MSPHasher<T>;
}

} // verus!
