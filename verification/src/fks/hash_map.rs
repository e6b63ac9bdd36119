//! The read side of the table: lookup and the read-only accessors.

use vstd::prelude::*;

verus! {

use crate::traits::{MapKey, Hasher};
use crate::utils::bit_array::BitStore;
use crate::fks::{FKSMap, Bucket, spec_l2_index, mask_bits, spec_sum_slots};

impl<K: MapKey, V, H: Hasher<K>> FKSMap<K, V, H> {
    /// Get the value associated with the given key.
    ///
    /// One first-level hash, at most one second-level hash, one equality
    /// check: the result is the stored value exactly when the key is in
    /// the map.
    pub fn get(&self, key: &K) -> (r: Option<&V>)
        requires
            self.wf(),
        ensures
            match r {
                Some(v) => self.spec_contains_pair(key.deep_view(), *v),
                None => !self.spec_contains_key(key.deep_view()),
            },
    {
        proof {
            self.spec_l1().wf_num_bits();
        }
        let ghost kv = key.deep_view();
        let bucket_idx = self.l1_hash(key);
        let bucket = self.bucket_at(bucket_idx);
        proof {
            self.lemma_bucket_range(bucket_idx as int);
        }
        let num_slots = bucket.num_slots;
        let data_idx: usize;
        if num_slots == 0 {
            proof {
                self.lemma_absent(kv);
            }
            return None;
        } else if num_slots == 1 {
            data_idx = bucket.offset;
        } else {
            proof {
                bucket.hasher.wf_num_bits();
                if bucket.hasher.spec_num_bits() > 3 {
                    vstd::arithmetic::power2::lemma_pow2_strictly_increases(
                        3,
                        bucket.hasher.spec_num_bits() as nat,
                    );
                }
                vstd::arithmetic::power2::lemma2_to64();
            }
            let cap = self.slots.len();
            let hash = bucket.hasher.hash(key) as usize;
            proof {
                assert(crate::fks::spec_bucket_wf(self.spec_buckets()[bucket_idx as int]));
                assert(hash < bucket.num_slots);
            }
            let is_set = bucket.slots.get_bit(hash);
            if !is_set {
                proof {
                    self.lemma_absent(kv);
                }
                return None;
            }
            data_idx = bucket.offset + hash;
        }
        match self.slot_at(data_idx) {
            Some(pair) => {
                if pair.0.key_eq(key) {
                    Some(&pair.1)
                } else {
                    proof {
                        self.lemma_absent(kv);
                    }
                    None
                }
            },
            None => {
                proof {
                    self.lemma_absent(kv);
                }
                None
            },
        }
    }

    /// The first-level bucket index of a key.
    fn l1_hash(&self, key: &K) -> (r: usize)
        requires
            self.wf(),
        ensures
            r == self.spec_bucket_of(key.deep_view()),
            r < self.spec_buckets().len(),
    {
        self.l1_hasher.hash(key) as usize
    }

    /// The bucket at an index.
    fn bucket_at(&self, b: usize) -> (r: &Bucket<K, H>)
        requires
            self.wf(),
            b < self.spec_buckets().len(),
        ensures
            *r == self.spec_buckets()[b as int],
    {
        &self.buckets[b]
    }

    /// The cell at an index.
    fn slot_at(&self, i: usize) -> (r: &Option<(K, V)>)
        requires
            self.wf(),
            i < self.spec_slots().len(),
        ensures
            *r == self.spec_slots()[i as int],
    {
        &self.slots[i]
    }

    /// If the canonical cell of a key view does not hold that key, no cell
    /// does.
    proof fn lemma_absent(&self, kv: <K as DeepView>::V)
        requires
            self.wf(),
            0 <= self.spec_bucket_of(kv) < self.spec_buckets().len(),
            ({
                let bk = self.spec_buckets()[self.spec_bucket_of(kv)];
                let j = spec_l2_index(bk, kv);
                ||| bk.num_slots == 0
                ||| !(0 <= j < 8)
                ||| !mask_bits(bk.slots)[j]
                ||| (0 <= bk.offset + j < self.spec_slots().len() && (self.spec_slots()[bk.offset
                    + j] matches Some(pair) && pair.0.deep_view() != kv))
                ||| (0 <= bk.offset + j < self.spec_slots().len() && self.spec_slots()[bk.offset
                    + j] is None)
            }),
        ensures
            !self.spec_contains_key(kv),
    {
        if self.spec_contains_key(kv) {
            let i = choose|i: int|
                0 <= i < self.spec_slots().len() && ((#[trigger] self.spec_slots()[i])
                    matches Some(pair) && pair.0.deep_view() == kv);
            self.lemma_stored_at_canonical(i);
            let bk = self.spec_buckets()[self.spec_bucket_of(kv)];
            let j = spec_l2_index(bk, kv);
            assert(self.spec_slot_of(kv) == i);
            assert(0 <= j < bk.num_slots);
            assert(mask_bits(bk.slots)[j]);
            assert(i == bk.offset + j);
            assert(false);
        }
    }

    /// Get the number of keys in the map.
    pub fn len(&self) -> (r: usize)
        ensures
            r == self.spec_len(),
    {
        self.num_keys
    }

    /// Check if the map is empty.
    pub fn is_empty(&self) -> (r: bool)
        ensures
            r == (self.spec_len() == 0),
    {
        self.num_keys == 0
    }

    /// The number of first-level buckets.
    pub fn num_buckets(&self) -> (r: usize)
        ensures
            r == self.spec_buckets().len(),
    {
        self.buckets.len()
    }

    /// The total number of cells backing the buckets.
    pub fn num_slots(&self) -> (r: usize)
        ensures
            r == self.spec_slots().len(),
    {
        self.slots.len()
    }

    /// Get the number of collisions in the map: the cells spent beyond one
    /// per non-empty bucket.  This measures second-level oversizing; true
    /// collisions are zero by construction.
    pub fn num_collisions(&self) -> (r: usize)
        requires
            self.wf(),
        ensures
            r == spec_num_collisions(self.spec_buckets(), self.spec_buckets().len() as int),
    {
        let mut total: usize = 0;
        let mut b: usize = 0;
        let n = self.buckets.len();
        let cap = self.slots.len();
        while b < n
            invariant
                self.wf(),
                n == self.spec_buckets().len(),
                cap == self.spec_slots().len(),
                0 <= b <= n,
                total == spec_num_collisions(self.spec_buckets(), b as int),
                total <= spec_sum_slots(self.spec_buckets(), b as int),
            decreases n - b,
        {
            proof {
                crate::fks::lemma_sum_slots_mono(self.spec_buckets(), b + 1, n as int);
            }
            let ns = self.buckets[b].num_slots;
            if ns > 1 {
                total = total + (ns as usize - 1);
            }
            b = b + 1;
        }
        total
    }
}

/// The cells spent beyond one per non-empty bucket, over the first `t`
/// buckets.
pub open spec fn spec_num_collisions<K: MapKey, H: Hasher<K>>(
    bs: Seq<Bucket<K, H>>,
    t: int,
) -> int
    decreases t,
{
    if t <= 0 {
        0
    } else {
        spec_num_collisions(bs, t - 1) + if bs[t - 1].num_slots > 1 {
            (bs[t - 1].num_slots - 1) as int
        } else {
            0
        }
    }
}

} // verus!
