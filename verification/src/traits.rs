//! Core trait declarations: what a map key must offer and what a typed
//! hasher promises.

use vstd::prelude::*;

verus! {

use vstd::arithmetic::power2::pow2;
use crate::hashing::common::spec_num_bits_for_buckets;

/// A type usable as a key of the static map.
///
/// A key's identity is its deep view; `key_eq` decides that identity at
/// runtime.  Every hasher of the key type hashes through the deep view as
/// well, so keys that compare equal always hash equally.
pub trait MapKey: Eq + DeepView {
    /// Whether the two keys are the same key.
    fn key_eq(&self, other: &Self) -> (r: bool)
        ensures
            r == (self.deep_view() == other.deep_view()),
    ;
}

impl MapKey for u8 {
    fn key_eq(&self, other: &Self) -> (r: bool) {
        *self == *other
    }
}

impl MapKey for i8 {
    fn key_eq(&self, other: &Self) -> (r: bool) {
        *self == *other
    }
}

impl MapKey for u16 {
    fn key_eq(&self, other: &Self) -> (r: bool) {
        *self == *other
    }
}

impl MapKey for i16 {
    fn key_eq(&self, other: &Self) -> (r: bool) {
        *self == *other
    }
}

impl MapKey for u32 {
    fn key_eq(&self, other: &Self) -> (r: bool) {
        *self == *other
    }
}

impl MapKey for i32 {
    fn key_eq(&self, other: &Self) -> (r: bool) {
        *self == *other
    }
}

impl MapKey for u64 {
    fn key_eq(&self, other: &Self) -> (r: bool) {
        *self == *other
    }
}

impl MapKey for i64 {
    fn key_eq(&self, other: &Self) -> (r: bool) {
        *self == *other
    }
}

impl MapKey for u128 {
    fn key_eq(&self, other: &Self) -> (r: bool) {
        *self == *other
    }
}

impl MapKey for i128 {
    fn key_eq(&self, other: &Self) -> (r: bool) {
        *self == *other
    }
}

impl MapKey for usize {
    fn key_eq(&self, other: &Self) -> (r: bool) {
        *self == *other
    }
}

impl MapKey for isize {
    fn key_eq(&self, other: &Self) -> (r: bool) {
        *self == *other
    }
}

impl MapKey for String {
    fn key_eq(&self, other: &Self) -> (r: bool) {
        *self == *other
    }
}

impl<T: MapKey, const N: usize> MapKey for [T; N] {
    fn key_eq(&self, other: &Self) -> (r: bool) {
        let mut i: usize = 0;
        while i < N
            invariant
                0 <= i <= N,
                forall|t: int| 0 <= t < i ==> self@[t].deep_view() == other@[t].deep_view(),
            decreases N - i,
        {
            if !self[i].key_eq(&other[i]) {
                proof {
                    assert(self.deep_view()[i as int] != other.deep_view()[i as int]);
                }
                return false;
            }
            i = i + 1;
        }
        proof {
            assert(self.deep_view() =~= other.deep_view());
        }
        true
    }
}

impl<T: MapKey> MapKey for Option<T> {
    fn key_eq(&self, other: &Self) -> (r: bool) {
        match (self, other) {
            (Option::None, Option::None) => true,
            (Option::Some(a), Option::Some(b)) => a.key_eq(b),
            _ => false,
        }
    }
}

/// Hasher for one specific key type.
///
/// Unlike the universal hasher pairing of the standard library, each
/// implementation is tailored to its key type: the state holds exactly the
/// seed material the kernels for that type need, and there is no
/// indirection on the hashing path.
///
/// All specification functions factor through the state's view, so a hasher
/// is pinned, up to its view, by the seed and bucket count it was derived
/// from — the root of the determinism guarantee of the map construction.
pub trait Hasher<T: MapKey>: Sized + Clone {
    /// State of the hasher instance: seed material plus the output width.
    type State: Copy + View;

    /// The essence of the hasher: its state's view.
    spec fn state_view(&self) -> <Self::State as View>::V;

    /// Whether the hasher is fit for hashing: width in range and seed
    /// material as the kernels demand.
    spec fn wf(&self) -> bool;

    /// The number of output bits; the output range is two to this power.
    spec fn spec_num_bits(&self) -> u32;

    /// The hash value, as a function of the key's deep view alone.
    spec fn spec_hash(&self, key: <T as DeepView>::V) -> u32;

    /// The state view derived from a seed, for the runtime derivation.
    spec fn spec_from_seed_view(seed: u64, num_buckets: u32) -> <Self::State as View>::V;

    /// The state view derived from a seed, for the constant-style twin.
    spec fn spec_from_seed_const_view(seed: u64, num_buckets: u32) -> <Self::State as View>::V;

    proof fn wf_num_bits(&self)
        requires
            self.wf(),
        ensures
            1 <= self.spec_num_bits() <= 31,
    ;

    /// The hash always lies below the output range, also at the
    /// specification level.
    proof fn hash_in_range(&self, key: <T as DeepView>::V)
        requires
            self.wf(),
        ensures
            self.spec_hash(key) < pow2(self.spec_num_bits() as nat),
    ;

    /// Hashing factors through the state view: hashers with one view hash
    /// alike.
    proof fn hash_congruence(&self, other: &Self, key: <T as DeepView>::V)
        requires
            self.state_view() == other.state_view(),
        ensures
            self.spec_hash(key) == other.spec_hash(key),
            self.spec_num_bits() == other.spec_num_bits(),
            self.wf() == other.wf(),
    ;

    /// Create a new hasher with a given `seed` and `num_buckets` buckets.
    fn from_seed(seed: u64, num_buckets: u32) -> (r: Self)
        requires
            1 <= num_buckets <= 0x8000_0000,
        ensures
            r.state_view() == Self::spec_from_seed_view(seed, num_buckets),
            r.wf(),
            r.spec_num_bits() == spec_num_bits_for_buckets(num_buckets),
    ;

    /// Twin of [`Hasher::from_seed`] that derives the seed material with
    /// the constant-expression generator.
    fn from_seed_const(seed: u64, num_buckets: u32) -> (r: Self)
        requires
            1 <= num_buckets <= 0x8000_0000,
        ensures
            r.state_view() == Self::spec_from_seed_const_view(seed, num_buckets),
            r.wf(),
            r.spec_num_bits() == spec_num_bits_for_buckets(num_buckets),
    ;

    /// Get the number of buckets (one past the maximum hash value).
    fn num_buckets(&self) -> (r: u32)
        requires
            self.wf(),
        ensures
            r == pow2(self.spec_num_bits() as nat),
            r >= 2,
    ;

    /// Hash the given `value`.
    fn hash(&self, value: &T) -> (r: u32)
        requires
            self.wf(),
        ensures
            r == self.spec_hash(value.deep_view()),
            r < pow2(self.spec_num_bits() as nat),
    ;
}

/// Marks a hasher family member as having a constant-style twin, and names
/// the runtime hasher it corresponds to.
pub trait ConstHasher<T: MapKey> {
    type HasherType: Hasher<T>;
}

} // verus!
