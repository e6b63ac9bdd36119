//! The FKS two-level static perfect hash table: the data model, its
//! well-formedness invariant, and the lemmas that tie bucket ranges to the
//! flat slot array.

pub mod ctors;
pub mod hash_map;

use vstd::prelude::*;

verus! {

use vstd::arithmetic::power2::pow2;
use std::marker::PhantomData;
use crate::traits::{MapKey, Hasher};
use crate::utils::bit_array::{BitStore, spec_count_ones};

/// The occupancy mask of a bucket as a sequence of eight bits, lowest
/// first.
pub open spec fn mask_bits(m: u8) -> Seq<bool> {
    Seq::new(8, |j: int| m.bit(j))
}

/// A bucket of the hash table.
///
/// Each bucket is associated with one output of the first-level hash
/// function; it owns `num_slots` consecutive cells of the flat slot array
/// starting at `offset`, and `slots` marks which of those cells hold a key.
pub struct Bucket<K: MapKey, H: Hasher<K>> {
    /// The index of the bucket's first cell in the slot array.
    pub offset: usize,
    /// A bit mask of the occupied cells of the bucket.
    pub slots: u8,
    /// The number of cells the bucket owns.
    pub num_slots: u8,
    /// The second-level hasher that places keys within the bucket.
    pub hasher: H,
    pub key_type: PhantomData<K>,
}

impl<K: MapKey, H: Hasher<K>> Bucket<K, H> {
    /// The number of cells the bucket owns, widened.
    #[inline]
    pub fn num_slots(&self) -> (r: usize)
        ensures
            r == self.num_slots,
    {
        self.num_slots as usize
    }
}

/// The cell, within its bucket, where a key with the given view belongs: a
/// single-cell bucket holds its key in that cell directly, a wider bucket
/// places it by the second-level hash.
pub open spec fn spec_l2_index<K: MapKey, H: Hasher<K>>(
    bk: Bucket<K, H>,
    kv: <K as DeepView>::V,
) -> int {
    if bk.num_slots == 1 {
        0
    } else {
        bk.hasher.spec_hash(kv) as int
    }
}

/// A bucket in isolation: the mask covers only owned cells, at most five
/// of them (the first-level occupancy cap), the degenerate sizes have
/// their fixed masks, and a wider bucket carries a hasher whose range is
/// exactly its cell count.
pub open spec fn spec_bucket_wf<K: MapKey, H: Hasher<K>>(bk: Bucket<K, H>) -> bool {
    &&& bk.num_slots <= 8
    &&& (bk.num_slots == 1 ==> mask_bits(bk.slots)[0])
    &&& forall|j: int| bk.num_slots <= j < 8 ==> !(#[trigger] mask_bits(bk.slots)[j])
    &&& spec_count_ones(mask_bits(bk.slots)) <= 5
    &&& (bk.num_slots >= 2 ==> bk.hasher.wf() && pow2(bk.hasher.spec_num_bits() as nat)
        == bk.num_slots)
}

/// The total number of cells owned by the first `t` buckets.
pub open spec fn spec_sum_slots<K: MapKey, H: Hasher<K>>(bs: Seq<Bucket<K, H>>, t: int) -> int
    decreases t,
{
    if t <= 0 {
        0
    } else {
        spec_sum_slots(bs, t - 1) + bs[t - 1].num_slots
    }
}

/// The total number of occupied cells of the first `t` buckets.
pub open spec fn spec_sum_keys<K: MapKey, H: Hasher<K>>(bs: Seq<Bucket<K, H>>, t: int) -> int
    decreases t,
{
    if t <= 0 {
        0
    } else {
        spec_sum_keys(bs, t - 1) + spec_count_ones(mask_bits(bs[t - 1].slots))
    }
}

pub proof fn lemma_sum_slots_mono<K: MapKey, H: Hasher<K>>(
    bs: Seq<Bucket<K, H>>,
    t1: int,
    t2: int,
)
    requires
        t1 <= t2,
    ensures
        spec_sum_slots(bs, t1) <= spec_sum_slots(bs, t2),
    decreases t2 - t1,
{
    if t1 < t2 {
        lemma_sum_slots_mono(bs, t1, t2 - 1);
    }
}

/// Static hash table based on the FKS scheme.
///
/// Lookups run in constant time: one first-level hash picks the bucket,
/// at most one second-level hash picks the cell, and one key comparison
/// decides.
pub struct FKSMap<K: MapKey, V, H: Hasher<K>> {
    l1_hasher: H,
    buckets: Vec<Bucket<K, H>>,
    slots: Vec<Option<(K, V)>>,
    num_keys: usize,
}

impl<K: MapKey, V, H: Hasher<K>> FKSMap<K, V, H> {
    /// The first-level hasher.
    pub closed spec fn spec_l1(&self) -> H {
        self.l1_hasher
    }

    /// The bucket table.
    pub closed spec fn spec_buckets(&self) -> Seq<Bucket<K, H>> {
        self.buckets@
    }

    /// The flat cell array.
    pub closed spec fn spec_slots(&self) -> Seq<Option<(K, V)>> {
        self.slots@
    }

    /// The number of keys the map holds.
    pub closed spec fn spec_len(&self) -> int {
        self.num_keys as int
    }

    /// The bucket a key with the given view belongs to.
    pub open spec fn spec_bucket_of(&self, kv: <K as DeepView>::V) -> int {
        self.spec_l1().spec_hash(kv) as int
    }

    /// The flat cell where a key with the given view belongs.
    pub open spec fn spec_slot_of(&self, kv: <K as DeepView>::V) -> int {
        let bk = self.spec_buckets()[self.spec_bucket_of(kv)];
        bk.offset + spec_l2_index(bk, kv)
    }

    /// The pair is stored in the map: some cell holds exactly it.
    pub open spec fn spec_contains_pair(&self, kv: <K as DeepView>::V, v: V) -> bool {
        exists|i: int|
            0 <= i < self.spec_slots().len() && ((#[trigger] self.spec_slots()[i]) matches Some(
                pair,
            ) && pair.0.deep_view() == kv && pair.1 == v)
    }

    /// Some value is stored for the key view.
    pub open spec fn spec_contains_key(&self, kv: <K as DeepView>::V) -> bool {
        exists|i: int|
            0 <= i < self.spec_slots().len() && ((#[trigger] self.spec_slots()[i]) matches Some(
                pair,
            ) && pair.0.deep_view() == kv)
    }

    /// The well-formedness invariant of the table.
    ///
    /// The bucket count is the first-level range; offsets chain one bucket
    /// after the other over the whole cell array; occupied cells hold
    /// exactly the keys whose two hashes lead to them, and unoccupied
    /// owned cells hold nothing; the key count is the total occupancy.
    pub open spec fn wf(&self) -> bool {
        let bs = self.spec_buckets();
        let b_count = bs.len() as int;
        &&& self.spec_l1().wf()
        &&& b_count == pow2(self.spec_l1().spec_num_bits() as nat)
        &&& forall|b: int| 0 <= b < b_count ==> spec_bucket_wf(#[trigger] bs[b])
        &&& forall|b: int|
            0 <= b < b_count ==> (#[trigger] bs[b].offset) == spec_sum_slots(bs, b)
        &&& self.spec_slots().len() == spec_sum_slots(bs, b_count)
        &&& self.spec_len() == spec_sum_keys(bs, b_count)
        &&& forall|b: int, j: int|
            #![trigger mask_bits(bs[b].slots)[j]]
            0 <= b < b_count && 0 <= j < 8 && mask_bits(bs[b].slots)[j] ==> {
                let bk = bs[b];
                let idx = bk.offset + j;
                &&& j < bk.num_slots
                &&& 0 <= idx < self.spec_slots().len()
                &&& (self.spec_slots()[idx] matches Some(pair) && self.spec_bucket_of(
                    pair.0.deep_view(),
                ) == b && spec_l2_index(bk, pair.0.deep_view()) == j)
            }
        &&& forall|b: int, j: int|
            #![trigger mask_bits(bs[b].slots)[j]]
            0 <= b < b_count && 0 <= j < 8 && j < bs[b].num_slots && !mask_bits(bs[b].slots)[j]
                ==> bs[b].offset + j < self.spec_slots().len() && self.spec_slots()[bs[b].offset
                + j] is None
    }

    /// Every owned cell range lies inside the slot array.
    pub proof fn lemma_bucket_range(&self, b: int)
        requires
            self.wf(),
            0 <= b < self.spec_buckets().len(),
        ensures
            0 <= self.spec_buckets()[b].offset,
            self.spec_buckets()[b].offset + self.spec_buckets()[b].num_slots
                <= self.spec_slots().len(),
            spec_sum_slots(self.spec_buckets(), b) + self.spec_buckets()[b].num_slots
                == spec_sum_slots(self.spec_buckets(), b + 1),
    {
        let bs = self.spec_buckets();
        lemma_sum_slots_mono(bs, 0, b);
        lemma_sum_slots_mono(bs, b + 1, bs.len() as int);
    }

    /// Each flat index below the total belongs to exactly one bucket's
    /// range; returns that bucket.
    pub proof fn lemma_locate(&self, i: int) -> (b: int)
        requires
            self.wf(),
            0 <= i < self.spec_slots().len(),
        ensures
            0 <= b < self.spec_buckets().len(),
            self.spec_buckets()[b].offset <= i < self.spec_buckets()[b].offset
                + self.spec_buckets()[b].num_slots,
    {
        let bs = self.spec_buckets();
        lemma_locate_in_prefix(bs, i, bs.len() as int)
    }

    /// A stored pair sits at the canonical cell of its own key.
    pub proof fn lemma_stored_at_canonical(&self, i: int)
        requires
            self.wf(),
            0 <= i < self.spec_slots().len(),
            self.spec_slots()[i] is Some,
        ensures
            ({
                let pair = self.spec_slots()[i]->Some_0;
                let kv = pair.0.deep_view();
                let bk = self.spec_buckets()[self.spec_bucket_of(kv)];
                &&& 0 <= self.spec_bucket_of(kv) < self.spec_buckets().len()
                &&& self.spec_slot_of(kv) == i
                &&& 0 <= spec_l2_index(bk, kv) < bk.num_slots
                &&& mask_bits(bk.slots)[spec_l2_index(bk, kv)]
            }),
    {
        let bs = self.spec_buckets();
        let b = self.lemma_locate(i);
        let bk = bs[b];
        let j = i - bk.offset;
        // An owned cell that holds a pair must be marked occupied.
        assert(mask_bits(bk.slots)[j]);
        self.lemma_bucket_range(b);
        let pair = self.spec_slots()[i]->Some_0;
        let kv = pair.0.deep_view();
        assert(self.spec_bucket_of(kv) == b && spec_l2_index(bk, kv) == j);
    }
}

impl<K: MapKey, V, H: Hasher<K>> FKSMap<K, V, H> {
    /// The first-level occupancy cap: a well-formed table never stores
    /// more than five keys in one bucket.
    pub proof fn lemma_bucket_occupancy_cap(&self)
        requires
            self.wf(),
        ensures
            forall|b: int|
                0 <= b < self.spec_buckets().len() ==> spec_count_ones(
                    mask_bits((#[trigger] self.spec_buckets()[b]).slots),
                ) <= 5,
    {
    }

    /// The slot accounting of a well-formed table: the occupied cells over
    /// all buckets total the key count, and the owned cells total the cell
    /// array's length.
    pub proof fn lemma_slot_accounting(&self)
        requires
            self.wf(),
        ensures
            spec_sum_keys(self.spec_buckets(), self.spec_buckets().len() as int)
                == self.spec_len(),
            spec_sum_slots(self.spec_buckets(), self.spec_buckets().len() as int)
                == self.spec_slots().len(),
    {
    }

    /// A table that holds exactly some input pairs — as the constructors
    /// ensure — answers for exactly the input keys: every input key is
    /// present, and nothing else is.  Together with the uniqueness of the
    /// stored value per key, lookup's contract then pins every answer to
    /// the one input pair with that key, or to absence.
    pub proof fn lemma_holds_exactly(&self, data: Seq<(K, V)>, kv: <K as DeepView>::V)
        requires
            self.wf(),
            forall|i: int|
                0 <= i < data.len() ==> self.spec_contains_pair(
                    (#[trigger] data[i]).0.deep_view(),
                    data[i].1,
                ),
            forall|i: int|
                0 <= i < self.spec_slots().len() ==> ((#[trigger] self.spec_slots()[i])
                    matches Some(pair) ==> exists|t: int| 0 <= t < data.len() && data[t] == pair),
        ensures
            self.spec_contains_key(kv) <==> exists|i: int|
                0 <= i < data.len() && (#[trigger] data[i]).0.deep_view() == kv,
    {
        if self.spec_contains_key(kv) {
            let c = choose|c: int|
                0 <= c < self.spec_slots().len() && ((#[trigger] self.spec_slots()[c])
                    matches Some(pair) && pair.0.deep_view() == kv);
            let t = choose|t: int|
                0 <= t < data.len() && data[t] == self.spec_slots()[c]->Some_0;
            assert(data[t].0.deep_view() == kv);
        }
        if exists|i: int| 0 <= i < data.len() && (#[trigger] data[i]).0.deep_view() == kv {
            let i = choose|i: int| 0 <= i < data.len() && (#[trigger] data[i]).0.deep_view() == kv;
            assert(self.spec_contains_pair(data[i].0.deep_view(), data[i].1));
        }
    }

    /// At most one value is stored per key view: both cells said to hold
    /// the key are its one canonical cell.
    pub proof fn lemma_at_most_one_value(&self, kv: <K as DeepView>::V, v1: V, v2: V)
        requires
            self.wf(),
            self.spec_contains_pair(kv, v1),
            self.spec_contains_pair(kv, v2),
        ensures
            v1 == v2,
    {
        let i1 = choose|i: int|
            0 <= i < self.spec_slots().len() && ((#[trigger] self.spec_slots()[i]) matches Some(
                pair,
            ) && pair.0.deep_view() == kv && pair.1 == v1);
        let i2 = choose|i: int|
            0 <= i < self.spec_slots().len() && ((#[trigger] self.spec_slots()[i]) matches Some(
                pair,
            ) && pair.0.deep_view() == kv && pair.1 == v2);
        self.lemma_stored_at_canonical(i1);
        self.lemma_stored_at_canonical(i2);
        assert(i1 == self.spec_slot_of(kv) && i2 == self.spec_slot_of(kv));
    }
}

/// Locating helper: scans the offset chain from the back of the prefix.
pub proof fn lemma_locate_in_prefix<K: MapKey, H: Hasher<K>>(
    bs: Seq<Bucket<K, H>>,
    i: int,
    upto: int,
) -> (b: int)
    requires
        0 <= upto <= bs.len(),
        forall|t: int| 0 <= t < bs.len() ==> (#[trigger] bs[t].offset) == spec_sum_slots(bs, t),
        0 <= i < spec_sum_slots(bs, upto),
    ensures
        0 <= b < upto,
        bs[b].offset <= i < bs[b].offset + bs[b].num_slots,
    decreases upto,
{
    if i >= spec_sum_slots(bs, upto - 1) {
        (upto - 1) as int
    } else {
        lemma_locate_in_prefix::<K, H>(bs, i, upto - 1)
    }
}

} // verus!
