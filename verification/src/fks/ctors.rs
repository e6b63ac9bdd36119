//! Construction of the table: the randomized two-level resolver.
//!
//! An outer loop lowers the first-level load factor step by step; for each
//! factor, up to a fixed budget of first-level hashers is tried until one
//! spreads the keys with no bucket over the occupancy cap.  Each bucket
//! then tries up to a fixed budget of second-level hashers until one is
//! injective on the bucket's keys.  All trial seeds come from one stream
//! seeded by the caller, consumed in strictly advancing order.

use vstd::prelude::*;

verus! {

use vstd::arithmetic::power2::pow2;
use std::marker::PhantomData;
use crate::traits::{MapKey, Hasher};
use crate::error::O1Error;
use crate::random::xoshiro::{SeedStream, xoshiro_word};
use crate::random::xorshift::{XorShift, spec_xorshift64_step};
use crate::utils::bit_array::{BitStore, spec_count_ones};
use crate::fks::{FKSMap, Bucket, spec_l2_index, spec_bucket_wf, mask_bits, spec_sum_slots,
    spec_sum_keys, lemma_sum_slots_mono};

/// The first-level occupancy cap: no accepted first-level hasher leaves
/// more keys than this in one bucket.
pub const MAX_KEYS_PER_BUCKET: usize = 5;

/// The budget of first-level trials per load factor.
pub const MAX_L1_TRIALS: usize = 999;

/// The budget of second-level trials per bucket.
pub const MAX_L2_TRIALS: usize = 999;

/// The source of trial seeds: the runtime construction draws from a
/// Xoshiro256++ stream, the generated-table construction from the
/// deterministic xorshift generator.  Either way the next word is a
/// function of the source's view, so one seed pins the whole construction.
pub enum TrialRng {
    Stream(SeedStream),
    Shift(XorShift<u64>),
}

impl TrialRng {
    /// The source's essence: which flavor it is, its seed or state, and
    /// its position.
    pub closed spec fn spec_view(&self) -> (bool, u64, int) {
        match self {
            TrialRng::Stream(s) => (true, s.spec_seed(), s.spec_pos()),
            TrialRng::Shift(x) => (false, x.spec_state(), 0),
        }
    }

    /// The view after one draw.
    pub open spec fn spec_step(v: (bool, u64, int)) -> (bool, u64, int) {
        if v.0 {
            (true, v.1, v.2 + 1)
        } else {
            (false, spec_xorshift64_step(v.1), 0)
        }
    }

    /// The word one draw hands out.
    pub open spec fn spec_word(v: (bool, u64, int)) -> u64 {
        if v.0 {
            xoshiro_word(v.1, v.2)
        } else {
            spec_xorshift64_step(v.1)
        }
    }

    /// Draws the next trial seed.
    pub fn next(&mut self) -> (r: u64)
        ensures
            final(self).spec_view() == Self::spec_step(old(self).spec_view()),
            r == Self::spec_word(old(self).spec_view()),
    {
        match self {
            TrialRng::Stream(s) => s.next_u64(),
            TrialRng::Shift(x) => x.next(),
        }
    }
}

/// A strictly ascending sequence of indices.
pub open spec fn spec_ascending(s: Seq<usize>) -> bool {
    forall|t1: int, t2: int| 0 <= t1 < t2 < s.len() ==> s[t1] < s[t2]
}

/// How many of the hashes equal `b`.
pub open spec fn spec_count_matches(hs: Seq<usize>, b: int) -> int
    decreases hs.len(),
{
    if hs.len() == 0 {
        0
    } else {
        spec_count_matches(hs.drop_last(), b) + if hs.last() == b {
            1int
        } else {
            0int
        }
    }
}

/// The totals of the per-bucket match counts over the first `bcount`
/// buckets.
pub open spec fn spec_sum_counts(hs: Seq<usize>, bcount: int) -> int
    decreases bcount,
{
    if bcount <= 0 {
        0
    } else {
        spec_sum_counts(hs, bcount - 1) + spec_count_matches(hs, bcount - 1)
    }
}

pub proof fn lemma_sum_counts_push(hs: Seq<usize>, x: usize, bcount: int)
    ensures
        spec_sum_counts(hs.push(x), bcount) == spec_sum_counts(hs, bcount) + if x < bcount {
            1int
        } else {
            0int
        },
    decreases bcount,
{
    if bcount > 0 {
        lemma_sum_counts_push(hs, x, bcount - 1);
        assert(hs.push(x).drop_last() =~= hs);
        assert(spec_count_matches(hs.push(x), bcount - 1) == spec_count_matches(hs, bcount - 1)
            + if x == bcount - 1 {
                1int
            } else {
                0int
            });
    }
}

pub proof fn lemma_sum_counts_empty(bcount: int)
    ensures
        spec_sum_counts(Seq::<usize>::empty(), bcount) == 0,
    decreases bcount,
{
    if bcount > 0 {
        lemma_sum_counts_empty(bcount - 1);
    }
}

/// Each hash below the bucket count is counted exactly once over all
/// buckets, so the counts total the number of hashes.
pub proof fn lemma_sum_counts_total(hs: Seq<usize>, bcount: int)
    requires
        forall|i: int| 0 <= i < hs.len() ==> hs[i] < bcount,
    ensures
        spec_sum_counts(hs, bcount) == hs.len(),
    decreases hs.len(),
{
    if hs.len() == 0 {
        assert(hs =~= Seq::<usize>::empty());
        lemma_sum_counts_empty(bcount);
    } else {
        let prefix = hs.drop_last();
        lemma_sum_counts_total(prefix, bcount);
        assert(prefix.push(hs.last()) =~= hs);
        lemma_sum_counts_push(prefix, hs.last(), bcount);
    }
}

/// The total lengths of the first `t` per-bucket index lists.
pub open spec fn spec_sum_btk(btk: Seq<Vec<usize>>, t: int) -> int
    decreases t,
{
    if t <= 0 {
        0
    } else {
        spec_sum_btk(btk, t - 1) + btk[t - 1]@.len()
    }
}

/// The partition of the input keys over the buckets of a hasher: list `b`
/// holds, in ascending order, exactly the input positions whose key hashes
/// to `b`.
pub open spec fn spec_partitioned<K: MapKey, V, H: Hasher<K>>(
    hasher: H,
    data: Seq<(K, V)>,
    btk: Seq<Vec<usize>>,
) -> bool {
    &&& btk.len() == pow2(hasher.spec_num_bits() as nat)
    &&& forall|b: int| 0 <= b < btk.len() ==> spec_ascending(#[trigger] btk[b]@)
    &&& forall|b: int, t: int|
        #![trigger btk[b]@[t]]
        0 <= b < btk.len() && 0 <= t < btk[b]@.len() ==> {
            let i = btk[b]@[t] as int;
            &&& 0 <= i < data.len()
            &&& hasher.spec_hash(data[i].0.deep_view()) == b
        }
    &&& forall|i: int|
        0 <= i < data.len() ==> (#[trigger] btk[hasher.spec_hash(
            data[i].0.deep_view(),
        ) as int]@).contains(i as usize)
}

/// Partitions the input positions by the hash of their key.
fn partition_keys<K: MapKey, V, H: Hasher<K>>(
    hasher: &H,
    data: &Vec<(K, V)>,
    num_buckets: usize,
) -> (btk: Vec<Vec<usize>>)
    requires
        hasher.wf(),
        num_buckets == pow2(hasher.spec_num_bits() as nat),
    ensures
        spec_partitioned(*hasher, data@, btk@),
        spec_sum_btk(btk@, btk@.len() as int) == data@.len(),
{
    let n = data.len();
    let mut hashes: Vec<usize> = Vec::new();
    let mut i: usize = 0;
    while i < n
        invariant
            hasher.wf(),
            n == data@.len(),
            0 <= i <= n,
            hashes@.len() == i,
            forall|t: int|
                0 <= t < i ==> (#[trigger] hashes@[t]) == hasher.spec_hash(
                    data@[t].0.deep_view(),
                ) as int,
            forall|t: int| 0 <= t < i ==> (#[trigger] hashes@[t]) < num_buckets,
            num_buckets == pow2(hasher.spec_num_bits() as nat),
        decreases n - i,
    {
        let h = hasher.hash(&data[i].0) as usize;
        hashes.push(h);
        i = i + 1;
    }

    let mut btk: Vec<Vec<usize>> = Vec::new();
    let mut b: usize = 0;
    while b < num_buckets
        invariant
            hasher.wf(),
            n == data@.len(),
            num_buckets == pow2(hasher.spec_num_bits() as nat),
            hashes@.len() == n,
            forall|t: int|
                0 <= t < n ==> (#[trigger] hashes@[t]) == hasher.spec_hash(
                    data@[t].0.deep_view(),
                ) as int,
            forall|t: int| 0 <= t < n ==> (#[trigger] hashes@[t]) < num_buckets,
            0 <= b <= num_buckets,
            btk@.len() == b,
            forall|t: int| 0 <= t < b ==> spec_ascending(#[trigger] btk@[t]@),
            forall|t: int, u: int|
                #![trigger btk@[t]@[u]]
                0 <= t < b && 0 <= u < btk@[t]@.len() ==> {
                    let i0 = btk@[t]@[u] as int;
                    &&& 0 <= i0 < n
                    &&& hasher.spec_hash(data@[i0].0.deep_view()) == t
                },
            forall|i0: int, t: int|
                #![trigger btk@[t]@.contains(i0 as usize)]
                0 <= i0 < n && 0 <= t < b && hashes@[i0] == t ==> btk@[t]@.contains(
                    i0 as usize,
                ),
            forall|t: int|
                0 <= t < b ==> (#[trigger] btk@[t]@).len() == spec_count_matches(
                    hashes@,
                    t,
                ),
        decreases num_buckets - b,
    {
        let mut inner: Vec<usize> = Vec::new();
        let mut i2: usize = 0;
        while i2 < n
            invariant
                n == data@.len(),
                hashes@.len() == n,
                0 <= i2 <= n,
                forall|t: int|
                    0 <= t < n ==> (#[trigger] hashes@[t]) == hasher.spec_hash(
                        data@[t].0.deep_view(),
                    ) as int,
                spec_ascending(inner@),
                forall|u: int|
                    0 <= u < inner@.len() ==> 0 <= (#[trigger] inner@[u]) < i2
                        && hashes@[inner@[u] as int] == b,
                forall|i0: int|
                    0 <= i0 < i2 && hashes@[i0] == b ==> (#[trigger] inner@).contains(
                        i0 as usize,
                    ),
                inner@.len() == spec_count_matches(hashes@.take(i2 as int), b as int),
            decreases n - i2,
        {
            proof {
                assert(hashes@.take(i2 + 1).drop_last() =~= hashes@.take(i2 as int));
            }
            if hashes[i2] == b {
                let ghost prev = inner@;
                inner.push(i2);
                proof {
                    assert forall|i0: int| 0 <= i0 < i2 + 1 && hashes@[i0] == b implies (
                    #[trigger] inner@).contains(i0 as usize) by {
                        if i0 < i2 {
                            let u = choose|u: int|
                                0 <= u < prev.len() && prev[u] == i0 as usize;
                            assert(inner@[u] == i0 as usize);
                        } else {
                            assert(inner@[prev.len() as int] == i2);
                        }
                    }
                }
            }
            i2 = i2 + 1;
        }
        proof {
            assert(hashes@.take(n as int) =~= hashes@);
        }
        btk.push(inner);
        b = b + 1;
    }
    proof {
        // Per-bucket counts total the number of keys.
        assert forall|t: int| 0 <= t < num_buckets implies (#[trigger] spec_count_matches(
            hashes@,
            t,
        )) == btk@[t]@.len() by {}
        lemma_sum_btk_eq_counts(btk@, hashes@, num_buckets as int);
        lemma_sum_counts_total(hashes@, num_buckets as int);
        assert forall|i: int| 0 <= i < data@.len() implies (#[trigger] btk@[hasher.spec_hash(
            data@[i].0.deep_view(),
        ) as int]@).contains(i as usize) by {
            let t = hasher.spec_hash(data@[i].0.deep_view()) as int;
            assert(hashes@[i] == t);
            assert(0 <= t < num_buckets);
            assert(btk@[t]@.contains(i as usize));
        }
    }
    btk
}

/// When each list's length is the matching count, the partial sums agree.
pub proof fn lemma_sum_btk_eq_counts(btk: Seq<Vec<usize>>, hs: Seq<usize>, t: int)
    requires
        t <= btk.len(),
        forall|u: int| 0 <= u < t ==> (#[trigger] btk[u]@).len() == spec_count_matches(hs, u),
    ensures
        spec_sum_btk(btk, t) == spec_sum_counts(hs, t),
    decreases t,
{
    if t > 0 {
        lemma_sum_btk_eq_counts(btk, hs, t - 1);
    }
}

/// Attempts to find a first-level hasher that spreads the keys so that no
/// bucket holds more than the occupancy cap.
///
/// Each trial draws a fresh seed, derives a hasher for the requested
/// bucket count, partitions the keys and accepts the first partition that
/// meets the cap.  With at most five keys in total no partition can break
/// the cap, so the very first trial is accepted and success is certain.
fn try_resolve_l1<K: MapKey, V, H: Hasher<K>>(
    rng: &mut TrialRng,
    num_buckets_requested: u32,
    num_trials: usize,
    data: &Vec<(K, V)>,
) -> (r: Result<(H, Vec<Vec<usize>>), O1Error>)
    requires
        1 <= num_buckets_requested <= 0x8000_0000,
        num_trials >= 1,
    ensures
        match r {
            Ok(pair) => {
                let (h, btk) = pair;
                &&& h.wf()
                &&& h.spec_num_bits() == crate::hashing::common::spec_num_bits_for_buckets(
                    num_buckets_requested,
                )
                &&& spec_partitioned(h, data@, btk@)
                &&& spec_sum_btk(btk@, btk@.len() as int) == data@.len()
                &&& forall|b: int|
                    0 <= b < btk@.len() ==> (#[trigger] btk@[b]@).len() <= MAX_KEYS_PER_BUCKET
            },
            Err(e) => e == O1Error::UnableToFindHashFunction && data@.len() > MAX_KEYS_PER_BUCKET,
        },
{
    let mut trial: usize = 0;
    while trial < num_trials
        invariant
            1 <= num_buckets_requested <= 0x8000_0000,
            0 <= trial <= num_trials,
            trial > 0 ==> data@.len() > MAX_KEYS_PER_BUCKET,
        decreases num_trials - trial,
    {
        let w = rng.next();
        let l1_hasher = H::from_seed(w, num_buckets_requested);
        let num_buckets = l1_hasher.num_buckets() as usize;
        let btk = partition_keys(&l1_hasher, data, num_buckets);

        let mut max_keys: usize = 0;
        let mut b: usize = 0;
        while b < num_buckets
            invariant
                num_buckets == btk@.len(),
                0 <= b <= num_buckets,
                forall|t: int| 0 <= t < b ==> (#[trigger] btk@[t]@).len() <= max_keys,
                max_keys == 0 || exists|t: int|
                    0 <= t < b && (#[trigger] btk@[t]@).len() == max_keys,
            decreases num_buckets - b,
        {
            let len_b = btk[b].len();
            if len_b > max_keys {
                max_keys = len_b;
            }
            b = b + 1;
        }

        if max_keys <= MAX_KEYS_PER_BUCKET {
            return Ok((l1_hasher, btk));
        }
        proof {
            // A bucket over the cap holds that many distinct positions, so
            // there are more keys than the cap in total.
            lemma_overfull_bucket(btk@, data@.len() as int);
        }
        trial = trial + 1;
    }
    Err(O1Error::UnableToFindHashFunction)
}

/// If some list of the partition is longer than the cap, the input itself
/// has more keys than the cap.
pub proof fn lemma_overfull_bucket(btk: Seq<Vec<usize>>, n: int)
    requires
        exists|b: int|
            0 <= b < btk.len() && (#[trigger] btk[b]@).len() > MAX_KEYS_PER_BUCKET,
        forall|b: int, t: int|
            #![trigger btk[b]@[t]]
            0 <= b < btk.len() && 0 <= t < btk[b]@.len() ==> 0 <= btk[b]@[t] < n,
        forall|b: int| 0 <= b < btk.len() ==> spec_ascending(#[trigger] btk[b]@),
    ensures
        n > MAX_KEYS_PER_BUCKET,
{
    let b = choose|b: int|
        0 <= b < btk.len() && (#[trigger] btk[b]@).len() > MAX_KEYS_PER_BUCKET;
    let s = btk[b]@;
    // Ascending positions grow at least one per step.
    lemma_ascending_gap(s, 0, s.len() - 1);
    assert(0 <= btk[b]@[s.len() - 1] < n);
    assert(s[s.len() - 1] >= s.len() - 1);
}

/// A bucket fully resolved against its keys: the occupancy mask holds one
/// bit per key, the second level places the keys injectively into the
/// owned cells, and every set bit is some key's cell.
pub open spec fn spec_bucket_resolved<K: MapKey, V, H: Hasher<K>>(
    bk: Bucket<K, H>,
    data: Seq<(K, V)>,
    keys: Seq<usize>,
) -> bool {
    &&& spec_count_ones(mask_bits(bk.slots)) == keys.len()
    &&& (keys.len() == 0 <==> bk.num_slots == 0)
    &&& (keys.len() == 1 <==> bk.num_slots == 1)
    &&& forall|t: int|
        #![trigger keys[t]]
        0 <= t < keys.len() ==> {
            let kv = data[keys[t] as int].0.deep_view();
            &&& 0 <= spec_l2_index(bk, kv) < bk.num_slots
            &&& mask_bits(bk.slots)[spec_l2_index(bk, kv)]
        }
    &&& forall|j: int|
        0 <= j < 8 && mask_bits(bk.slots)[j] ==> exists|t: int|
            0 <= t < keys.len() && spec_l2_index(bk, data[#[trigger] keys[t] as int].0.deep_view())
                == j
    &&& forall|t1: int, t2: int|
        0 <= t1 < t2 < keys.len() ==> spec_l2_index(bk, data[keys[t1] as int].0.deep_view())
            != spec_l2_index(bk, data[keys[t2] as int].0.deep_view())
}

/// Attempt to find the second-level hash function for one bucket.
///
/// An empty bucket is installed at once with no cells; a single key gets
/// one cell without any second-level hashing; otherwise seeds are drawn
/// until one hasher places the bucket's keys without collision, each
/// failed trial consuming one seed.
fn try_resolve_bucket<K: MapKey, V, H: Hasher<K>>(
    rng: &mut TrialRng,
    current_offset: usize,
    data: &Vec<(K, V)>,
    keys: &Vec<usize>,
    num_trials: usize,
) -> (r: Result<Bucket<K, H>, O1Error>)
    requires
        keys@.len() <= MAX_KEYS_PER_BUCKET,
        forall|t: int| 0 <= t < keys@.len() ==> (#[trigger] keys@[t]) < data@.len(),
        num_trials >= 1,
    ensures
        match r {
            Ok(bk) => {
                &&& bk.offset == current_offset
                &&& spec_bucket_wf(bk)
                &&& spec_bucket_resolved(bk, data@, keys@)
            },
            Err(e) => e == O1Error::UnableToFindHashFunction && keys@.len() >= 2,
        },
{
    let klen = keys.len();
    if klen == 0 {
        let bk = Bucket::<K, H> {
            offset: current_offset,
            slots: <u8 as BitStore>::zero(),
            num_slots: 0,
            hasher: H::from_seed(1, 1),
            key_type: PhantomData,
        };
        proof {
            crate::utils::bit_array::lemma_count_ones_none(mask_bits(bk.slots));
        }
        return Ok(bk);
    }
    if klen == 1 {
        let w = rng.next();
        let z = <u8 as BitStore>::zero();
        let mask = z.set_bit(0);
        let bk = Bucket::<K, H> {
            offset: current_offset,
            slots: mask,
            num_slots: 1,
            hasher: H::from_seed(w, 1),
            key_type: PhantomData,
        };
        proof {
            let zero_bits = mask_bits(z);
            crate::utils::bit_array::lemma_count_ones_none(zero_bits);
            assert(mask_bits(mask) =~= zero_bits.update(0, true));
            crate::utils::bit_array::lemma_count_ones_set(zero_bits, 0);
            assert(spec_l2_index(bk, data@[keys@[0] as int].0.deep_view()) == 0);
        }
        return Ok(bk);
    }

    let mut trial: usize = 0;
    while trial < num_trials
        invariant
            2 <= keys@.len() <= MAX_KEYS_PER_BUCKET,
            klen == keys@.len(),
            forall|t: int| 0 <= t < keys@.len() ==> (#[trigger] keys@[t]) < data@.len(),
            0 <= trial <= num_trials,
        decreases num_trials - trial,
    {
        let w = rng.next();
        let hasher = H::from_seed(w, klen as u32);
        proof {
            hasher.wf_num_bits();
            crate::hashing::common::lemma_num_buckets_bound(klen as u32);
            vstd::arithmetic::power2::lemma2_to64();
            if hasher.spec_num_bits() > 3 {
                vstd::arithmetic::power2::lemma_pow2_strictly_increases(
                    3,
                    hasher.spec_num_bits() as nat,
                );
            }
        }
        let num_slots_wide = hasher.num_buckets();
        let num_slots = num_slots_wide as u8;

        let mut mask: u8 = <u8 as BitStore>::zero();
        proof {
            crate::utils::bit_array::lemma_count_ones_none(mask_bits(mask));
        }
        let mut collided = false;
        let mut t: usize = 0;
        while t < klen && !collided
            invariant
                2 <= klen == keys@.len() <= MAX_KEYS_PER_BUCKET,
                forall|u: int| 0 <= u < keys@.len() ==> (#[trigger] keys@[u]) < data@.len(),
                hasher.wf(),
                2 <= num_slots <= 8,
                num_slots == pow2(hasher.spec_num_bits() as nat),
                0 <= t <= klen,
                !collided ==> {
                    &&& spec_count_ones(mask_bits(mask)) == t
                    &&& forall|j: int| num_slots <= j < 8 ==> !(#[trigger] mask_bits(mask)[j])
                    &&& forall|u: int|
                        #![trigger keys@[u]]
                        0 <= u < t ==> {
                            let kv = data@[keys@[u] as int].0.deep_view();
                            &&& 0 <= hasher.spec_hash(kv) < num_slots
                            &&& mask_bits(mask)[hasher.spec_hash(kv) as int]
                        }
                    &&& forall|j: int|
                        0 <= j < 8 && mask_bits(mask)[j] ==> exists|u: int|
                            0 <= u < t && hasher.spec_hash(
                                data@[#[trigger] keys@[u] as int].0.deep_view(),
                            ) == j
                    &&& forall|u1: int, u2: int|
                        0 <= u1 < u2 < t ==> hasher.spec_hash(
                            data@[keys@[u1] as int].0.deep_view(),
                        ) != hasher.spec_hash(data@[keys@[u2] as int].0.deep_view())
                },
            decreases klen - t + (if collided {
                0int
            } else {
                1int
            }),
        {
            let key_idx = keys[t];
            let h = hasher.hash(&data[key_idx].0) as usize;
            if mask.get_bit(h) {
                collided = true;
            } else {
                let ghost prev = mask_bits(mask);
                mask = mask.set_bit(h);
                proof {
                    assert(mask_bits(mask) =~= prev.update(h as int, true));
                    crate::utils::bit_array::lemma_count_ones_set(prev, h as int);
                }
                t = t + 1;
            }
        }

        if !collided {
            let bk = Bucket::<K, H> {
                offset: current_offset,
                slots: mask,
                num_slots,
                hasher,
                key_type: PhantomData,
            };
            return Ok(bk);
        }
        trial = trial + 1;
    }
    Err(O1Error::UnableToFindHashFunction)
}

/// Appending a bucket leaves the earlier partial cell sums unchanged.
pub proof fn lemma_sum_slots_snoc<K: MapKey, H: Hasher<K>>(
    bs: Seq<Bucket<K, H>>,
    x: Bucket<K, H>,
    t: int,
)
    requires
        0 <= t <= bs.len(),
    ensures
        spec_sum_slots(bs.push(x), t) == spec_sum_slots(bs, t),
    decreases t,
{
    if t > 0 {
        lemma_sum_slots_snoc(bs, x, t - 1);
    }
}

/// Appending a bucket leaves the earlier partial occupancy sums unchanged.
pub proof fn lemma_sum_keys_snoc<K: MapKey, H: Hasher<K>>(
    bs: Seq<Bucket<K, H>>,
    x: Bucket<K, H>,
    t: int,
)
    requires
        0 <= t <= bs.len(),
    ensures
        spec_sum_keys(bs.push(x), t) == spec_sum_keys(bs, t),
    decreases t,
{
    if t > 0 {
        lemma_sum_keys_snoc(bs, x, t - 1);
    }
}

/// The flat cell where a key with the given view belongs, measured against
/// a bucket table.
pub open spec fn spec_canon<K: MapKey, H: Hasher<K>>(
    l1: H,
    bs: Seq<Bucket<K, H>>,
    kv: <K as DeepView>::V,
) -> int {
    let b = l1.spec_hash(kv) as int;
    bs[b].offset + spec_l2_index(bs[b], kv)
}

/// The facts the bucket-building loop leaves behind, shared by the fill
/// loop and the assembly proof.
pub open spec fn spec_buckets_built<K: MapKey, V, H: Hasher<K>>(
    l1: H,
    bs: Seq<Bucket<K, H>>,
    btk: Seq<Vec<usize>>,
    data: Seq<(K, V)>,
) -> bool {
    &&& l1.wf()
    &&& bs.len() == pow2(l1.spec_num_bits() as nat)
    &&& spec_partitioned(l1, data, btk)
    &&& bs.len() == btk.len()
    &&& forall|t: int| 0 <= t < bs.len() ==> spec_bucket_wf(#[trigger] bs[t])
    &&& forall|t: int| 0 <= t < bs.len() ==> (#[trigger] bs[t]).offset == spec_sum_slots(bs, t)
    &&& forall|t: int|
        0 <= t < bs.len() ==> spec_bucket_resolved(#[trigger] bs[t], data, btk[t]@)
}

/// Keys with distinct views have distinct canonical cells: keys of
/// different buckets land in disjoint cell ranges, and keys of one bucket
/// are separated by the injective second level.
pub proof fn lemma_canon_distinct<K: MapKey, V, H: Hasher<K>>(
    l1: H,
    bs: Seq<Bucket<K, H>>,
    btk: Seq<Vec<usize>>,
    data: Seq<(K, V)>,
    t1: int,
    t2: int,
)
    requires
        spec_buckets_built(l1, bs, btk, data),
        data.len() <= usize::MAX,
        0 <= t1 < data.len(),
        0 <= t2 < data.len(),
        t1 != t2,
        data[t1].0.deep_view() != data[t2].0.deep_view(),
    ensures
        spec_canon(l1, bs, data[t1].0.deep_view()) != spec_canon(l1, bs, data[t2].0.deep_view()),
{
    let kv1 = data[t1].0.deep_view();
    let kv2 = data[t2].0.deep_view();
    let b1 = l1.spec_hash(kv1) as int;
    let b2 = l1.spec_hash(kv2) as int;
    l1.wf_num_bits();
    l1.hash_in_range(kv1);
    l1.hash_in_range(kv2);
    assert(btk[b1]@.contains(t1 as usize));
    assert(btk[b2]@.contains(t2 as usize));
    assert(exists|p: int| 0 <= p < btk[b1]@.len() && btk[b1]@[p] == t1 as usize);
    assert(exists|p: int| 0 <= p < btk[b2]@.len() && btk[b2]@[p] == t2 as usize);
    let pos1 = choose|p: int| 0 <= p < btk[b1]@.len() && btk[b1]@[p] == t1 as usize;
    let pos2 = choose|p: int| 0 <= p < btk[b2]@.len() && btk[b2]@[p] == t2 as usize;
    assert(btk[b1]@[pos1] == t1 as usize);
    assert(btk[b2]@[pos2] == t2 as usize);
    assert(spec_bucket_resolved(bs[b1], data, btk[b1]@));
    assert(spec_bucket_resolved(bs[b2], data, btk[b2]@));
    if b1 == b2 {
        assert(pos1 != pos2);
        assert(spec_l2_index(bs[b1], data[btk[b1]@[pos1] as int].0.deep_view()) != spec_l2_index(
            bs[b1],
            data[btk[b1]@[pos2] as int].0.deep_view(),
        ));
    } else if b1 < b2 {
        lemma_sum_slots_mono(bs, b1 + 1, b2);
        assert(spec_l2_index(bs[b1], kv1) < bs[b1].num_slots);
        assert(0 <= spec_l2_index(bs[b2], kv2));
    } else {
        lemma_sum_slots_mono(bs, b2 + 1, b1);
        assert(spec_l2_index(bs[b2], kv2) < bs[b2].num_slots);
        assert(0 <= spec_l2_index(bs[b1], kv1));
    }
}

impl<K: MapKey, V, H: Hasher<K>> FKSMap<K, V, H> {
    /// Creates a new map from the given data with seeds drawn from a
    /// Xoshiro256++ stream started at `seed`.
    ///
    /// The load factor is handled in hundredths: construction starts at
    /// one hundred and steps down by five until it would fall under
    /// `min_load_factor`, which must lie in `[1, 100]`.  The input keys
    /// must be pairwise distinct; the input length is capped so that no
    /// intermediate count can overflow the machine word.
    pub fn new(data: Vec<(K, V)>, seed: u64, min_load_factor: u32) -> (r: Result<Self, O1Error>)
        requires
            1 <= min_load_factor <= 100,
            data@.len() <= 0x0010_0000,
            forall|i: int, j: int|
                0 <= i < j < data@.len() ==> data@[i].0.deep_view() != data@[j].0.deep_view(),
        ensures
            match r {
                Ok(m) => {
                    &&& m.wf()
                    &&& m.spec_len() == data@.len()
                    &&& forall|i: int|
                        0 <= i < data@.len() ==> m.spec_contains_pair(
                            (#[trigger] data@[i]).0.deep_view(),
                            data@[i].1,
                        )
                    &&& forall|i: int|
                        0 <= i < m.spec_slots().len() ==> ((#[trigger] m.spec_slots()[i])
                            matches Some(pair) ==> exists|t: int|
                            0 <= t < data@.len() && data@[t] == pair)
                },
                Err(e) => e == O1Error::UnableToFindHashFunction && data@.len() >= 2,
            },
    {
        let rng = TrialRng::Stream(SeedStream::new(seed));
        Self::build(data, rng, min_load_factor)
    }

    /// Twin of [`FKSMap::new`] that draws its trial seeds from the
    /// constant-expression xorshift generator, the path a generated-table
    /// build step runs; a zero seed is folded to one.
    pub fn new_const(data: Vec<(K, V)>, seed: u64, min_load_factor: u32) -> (r: Result<
        Self,
        O1Error,
    >)
        requires
            1 <= min_load_factor <= 100,
            data@.len() <= 0x0010_0000,
            forall|i: int, j: int|
                0 <= i < j < data@.len() ==> data@[i].0.deep_view() != data@[j].0.deep_view(),
        ensures
            match r {
                Ok(m) => {
                    &&& m.wf()
                    &&& m.spec_len() == data@.len()
                    &&& forall|i: int|
                        0 <= i < data@.len() ==> m.spec_contains_pair(
                            (#[trigger] data@[i]).0.deep_view(),
                            data@[i].1,
                        )
                    &&& forall|i: int|
                        0 <= i < m.spec_slots().len() ==> ((#[trigger] m.spec_slots()[i])
                            matches Some(pair) ==> exists|t: int|
                            0 <= t < data@.len() && data@[t] == pair)
                },
                Err(e) => e == O1Error::UnableToFindHashFunction && data@.len() >= 2,
            },
    {
        let s = if seed == 0 {
            1
        } else {
            seed
        };
        let rng = TrialRng::Shift(XorShift::<u64>::new(s));
        Self::build(data, rng, min_load_factor)
    }

    /// The construction shared by both seed sources: resolve the first
    /// level under a falling load factor, resolve each bucket, then place
    /// every pair in its one cell.
    fn build(data: Vec<(K, V)>, rng: TrialRng, min_load_factor: u32) -> (r: Result<Self, O1Error>)
        requires
            1 <= min_load_factor <= 100,
            data@.len() <= 0x0010_0000,
            forall|i: int, j: int|
                0 <= i < j < data@.len() ==> data@[i].0.deep_view() != data@[j].0.deep_view(),
        ensures
            match r {
                Ok(m) => {
                    &&& m.wf()
                    &&& m.spec_len() == data@.len()
                    &&& forall|i: int|
                        0 <= i < data@.len() ==> m.spec_contains_pair(
                            (#[trigger] data@[i]).0.deep_view(),
                            data@[i].1,
                        )
                    &&& forall|i: int|
                        0 <= i < m.spec_slots().len() ==> ((#[trigger] m.spec_slots()[i])
                            matches Some(pair) ==> exists|t: int|
                            0 <= t < data@.len() && data@[t] == pair)
                },
                Err(e) => e == O1Error::UnableToFindHashFunction && data@.len() >= 2,
            },
    {
        let n = data.len();
        let ghost orig = data@;
        let mut rng = rng;
        let mut load_factor: u32 = 100;
        let mut found: Option<(H, Vec<Vec<usize>>)> = None;
        while found.is_none()
            invariant
                min_load_factor <= load_factor <= 100,
                1 <= min_load_factor,
                n == data@.len() <= 0x0010_0000,
                data@ == orig,
                found matches Some(pair) ==> {
                    let (h, btk) = pair;
                    &&& h.wf()
                    &&& spec_partitioned(h, data@, btk@)
                    &&& spec_sum_btk(btk@, btk@.len() as int) == data@.len()
                    &&& forall|t: int|
                        0 <= t < btk@.len() ==> (#[trigger] btk@[t]@).len()
                            <= MAX_KEYS_PER_BUCKET
                    &&& btk@.len() <= 0x1000_0000
                },
            decreases (if found is Some {
                0int
            } else {
                load_factor as int + 1
            }),
        {
            let b_req_wide = ((n as u64) * 100 + (load_factor as u64) - 1) / (load_factor as u64);
            proof {
                vstd::arithmetic::div_mod::lemma_div_nonincreasing(
                    ((n as u64) * 100 + (load_factor as u64) - 1) as int,
                    load_factor as int,
                );
            }
            let b_req: u32 = if b_req_wide == 0 {
                1
            } else {
                b_req_wide as u32
            };
            proof {
                crate::hashing::common::lemma_num_buckets_bound(b_req);
            }
            match try_resolve_l1::<K, V, H>(&mut rng, b_req, MAX_L1_TRIALS, &data) {
                Ok(pair) => {
                    found = Some(pair);
                },
                Err(e) => {
                    if load_factor < min_load_factor + 5 {
                        return Err(e);
                    }
                    load_factor = load_factor - 5;
                },
            }
        }
        let pair = found.unwrap();
        let l1_hasher = pair.0;
        let btk = pair.1;
        let num_buckets = btk.len();

        let mut buckets: Vec<Bucket<K, H>> = Vec::new();
        let mut current_offset: usize = 0;
        let mut b: usize = 0;
        while b < num_buckets
            invariant
                l1_hasher.wf(),
                spec_partitioned(l1_hasher, data@, btk@),
                n == data@.len() <= 0x0010_0000,
                data@ == orig,
                num_buckets == btk@.len(),
                num_buckets == pow2(l1_hasher.spec_num_bits() as nat),
                num_buckets <= 0x1000_0000,
                forall|t: int|
                    0 <= t < btk@.len() ==> (#[trigger] btk@[t]@).len() <= MAX_KEYS_PER_BUCKET,
                spec_sum_btk(btk@, num_buckets as int) == n,
                0 <= b <= num_buckets,
                buckets@.len() == b,
                current_offset == spec_sum_slots(buckets@, b as int),
                current_offset <= 8 * b,
                forall|t: int| 0 <= t < b ==> spec_bucket_wf(#[trigger] buckets@[t]),
                forall|t: int|
                    0 <= t < b ==> (#[trigger] buckets@[t]).offset == spec_sum_slots(
                        buckets@,
                        t,
                    ),
                forall|t: int|
                    0 <= t < b ==> spec_bucket_resolved(
                        #[trigger] buckets@[t],
                        data@,
                        btk@[t]@,
                    ),
                spec_sum_keys(buckets@, b as int) == spec_sum_btk(btk@, b as int),
            decreases num_buckets - b,
        {
            let keys = &btk[b];
            let resolved = match try_resolve_bucket::<K, V, H>(
                &mut rng,
                current_offset,
                &data,
                keys,
                MAX_L2_TRIALS,
            ) {
                Ok(bk) => bk,
                Err(e) => {
                    proof {
                        // A bucket can only fail with two or more keys, so
                        // the input has at least two.
                        assert(btk@[b as int]@[0] != btk@[b as int]@[1]);
                    }
                    return Err(e);
                },
            };
            let ghost prev_buckets = buckets@;
            let ns = resolved.num_slots;
            current_offset = current_offset + (ns as usize);
            buckets.push(resolved);
            proof {
                assert(buckets@ =~= prev_buckets.push(resolved));
                assert forall|t: int| 0 <= t <= prev_buckets.len() implies spec_sum_slots(
                    buckets@,
                    t,
                ) == spec_sum_slots(prev_buckets, t) by {
                    lemma_sum_slots_snoc(prev_buckets, resolved, t);
                }
                lemma_sum_keys_snoc(prev_buckets, resolved, b as int);
            }
            b = b + 1;
        }

        let total = current_offset;
        let mut slots: Vec<Option<(K, V)>> = Vec::new();
        while slots.len() < total
            invariant
                slots@.len() <= total,
                forall|i: int| 0 <= i < slots@.len() ==> (#[trigger] slots@[i]) is None,
            decreases total - slots@.len(),
        {
            slots.push(None);
        }

        proof {
            assert(spec_buckets_built(l1_hasher, buckets@, btk@, orig));
            assert(orig.take(orig.len() as int) =~= orig);
        }
        let ghost bs_final = buckets@;
        let mut data = data;
        while data.len() > 0
            invariant
                n == orig.len() <= 0x0010_0000,
                data@.len() <= n,
                data@ == orig.take(data@.len() as int),
                forall|i: int, j: int|
                    0 <= i < j < orig.len() ==> orig[i].0.deep_view() != orig[j].0.deep_view(),
                buckets@ == bs_final,
                spec_buckets_built(l1_hasher, bs_final, btk@, orig),
                num_buckets == bs_final.len(),
                slots@.len() == total,
                total == spec_sum_slots(bs_final, num_buckets as int),
                forall|t: int|
                    data@.len() <= t < n ==> {
                        let c = spec_canon(l1_hasher, bs_final, orig[t].0.deep_view());
                        &&& 0 <= c < total
                        &&& (#[trigger] orig[t]) == slots@[c]->Some_0
                        &&& slots@[c] is Some
                    },
                forall|i: int|
                    0 <= i < total ==> ((#[trigger] slots@[i]) matches Some(pair)
                        ==> exists|t: int|
                        data@.len() <= t < n && orig[t] == pair && spec_canon(
                            l1_hasher,
                            bs_final,
                            orig[t].0.deep_view(),
                        ) == i),
            decreases data@.len(),
        {
            let ghost old_len = data@.len() as int;
            let pair = data.pop().unwrap();
            let ghost t_cur = data@.len() as int;
            proof {
                assert(orig.take(old_len).drop_last() =~= orig.take(t_cur));
                assert(pair == orig[t_cur]);
            }
            let bidx = l1_hasher.hash(&pair.0) as usize;
            proof {
                l1_hasher.wf_num_bits();
                assert(btk@[bidx as int]@.contains(t_cur as usize));
                assert(exists|p: int|
                    0 <= p < btk@[bidx as int]@.len() && btk@[bidx as int]@[p]
                        == t_cur as usize);
                let pos = choose|p: int|
                    0 <= p < btk@[bidx as int]@.len() && btk@[bidx as int]@[p] == t_cur as usize;
                assert(btk@[bidx as int]@[pos] == t_cur as usize);
                assert(spec_bucket_resolved(bs_final[bidx as int], orig, btk@[bidx as int]@));
                assert(0 <= spec_l2_index(bs_final[bidx as int], orig[t_cur].0.deep_view())
                    < bs_final[bidx as int].num_slots);
                lemma_sum_slots_mono(bs_final, bidx + 1, num_buckets as int);
            }
            let bucket = &buckets[bidx];
            let j: usize = if bucket.num_slots == 1 {
                0
            } else {
                proof {
                    assert(spec_bucket_wf(bs_final[bidx as int]));
                }
                bucket.hasher.hash(&pair.0) as usize
            };
            let idx = bucket.offset + j;
            proof {
                assert(j == spec_l2_index(bs_final[bidx as int], orig[t_cur].0.deep_view()));
                assert(idx == spec_canon(l1_hasher, bs_final, orig[t_cur].0.deep_view()));
                assert(idx < total);
                if slots@[idx as int] is Some {
                    let t_prev = choose|t: int|
                        t_cur + 1 <= t < n && orig[t] == slots@[idx as int]->Some_0 && spec_canon(
                            l1_hasher,
                            bs_final,
                            orig[t].0.deep_view(),
                        ) == idx;
                    lemma_canon_distinct(l1_hasher, bs_final, btk@, orig, t_cur, t_prev);
                }
            }
            let ghost prev_slots = slots@;
            slots[idx] = Some(pair);
            proof {
                assert(slots@ =~= prev_slots.update(idx as int, Some(pair)));
            }
        }

        let map = FKSMap::<K, V, H> {
            l1_hasher,
            buckets,
            slots,
            num_keys: n,
        };
        proof {
            map.lemma_assembled(orig, btk@);
        }
        Ok(map)
    }
}

impl<K: MapKey, V, H: Hasher<K>> FKSMap<K, V, H> {
    /// Once every pair sits in its canonical cell and the cells hold
    /// nothing else, the assembled table is well-formed and holds exactly
    /// the input pairs.
    proof fn lemma_assembled(&self, orig: Seq<(K, V)>, btk: Seq<Vec<usize>>)
        requires
            self.spec_len() == orig.len(),
            spec_buckets_built(self.spec_l1(), self.spec_buckets(), btk, orig),
            self.spec_slots().len() == spec_sum_slots(
                self.spec_buckets(),
                self.spec_buckets().len() as int,
            ),
            spec_sum_keys(self.spec_buckets(), self.spec_buckets().len() as int) == orig.len(),
            forall|i: int, j: int|
                0 <= i < j < orig.len() ==> orig[i].0.deep_view() != orig[j].0.deep_view(),
            forall|t: int|
                0 <= t < orig.len() ==> {
                    let c = spec_canon(self.spec_l1(), self.spec_buckets(), orig[t].0.deep_view());
                    &&& 0 <= c < self.spec_slots().len()
                    &&& self.spec_slots()[c] is Some
                    &&& (#[trigger] orig[t]) == self.spec_slots()[c]->Some_0
                },
            forall|i: int|
                0 <= i < self.spec_slots().len() ==> ((#[trigger] self.spec_slots()[i])
                    matches Some(pair) ==> exists|t: int|
                    0 <= t < orig.len() && orig[t] == pair && spec_canon(
                        self.spec_l1(),
                        self.spec_buckets(),
                        orig[t].0.deep_view(),
                    ) == i),
        ensures
            self.wf(),
            forall|i: int|
                0 <= i < orig.len() ==> self.spec_contains_pair(
                    (#[trigger] orig[i]).0.deep_view(),
                    orig[i].1,
                ),
    {
        let bs = self.spec_buckets();
        let b_count = bs.len() as int;
        let l1 = self.spec_l1();

        assert forall|b: int, j: int|
            #![trigger mask_bits(bs[b].slots)[j]]
            0 <= b < b_count && 0 <= j < 8 && mask_bits(bs[b].slots)[j] implies {
            let bk = bs[b];
            let idx = bk.offset + j;
            &&& j < bk.num_slots
            &&& 0 <= idx < self.spec_slots().len()
            &&& (self.spec_slots()[idx] matches Some(pair) && self.spec_bucket_of(
                pair.0.deep_view(),
            ) == b && spec_l2_index(bk, pair.0.deep_view()) == j)
        } by {
            let bk = bs[b];
            assert(spec_bucket_resolved(bk, orig, btk[b]@));
            assert(exists|t: int|
                0 <= t < btk[b]@.len() && spec_l2_index(
                    bk,
                    orig[#[trigger] btk[b]@[t] as int].0.deep_view(),
                ) == j);
            let pos = choose|t: int|
                0 <= t < btk[b]@.len() && spec_l2_index(
                    bk,
                    orig[#[trigger] btk[b]@[t] as int].0.deep_view(),
                ) == j;
            let i0 = btk[b]@[pos] as int;
            assert(0 <= i0 < orig.len());
            let kv = orig[i0].0.deep_view();
            assert(l1.spec_hash(kv) == b);
            assert(0 <= spec_l2_index(bk, kv) < bk.num_slots);
            lemma_sum_slots_mono(bs, b + 1, b_count);
            assert(spec_canon(l1, bs, kv) == bk.offset + j);
            assert(self.spec_slots()[bk.offset + j] is Some);
            assert(orig[i0] == self.spec_slots()[bk.offset + j]->Some_0);
        }

        assert forall|b: int, j: int|
            #![trigger mask_bits(bs[b].slots)[j]]
            0 <= b < b_count && 0 <= j < 8 && j < bs[b].num_slots && !mask_bits(bs[b].slots)[j]
            implies bs[b].offset + j < self.spec_slots().len() && self.spec_slots()[bs[b].offset
            + j] is None by {
            lemma_sum_slots_mono(bs, b + 1, b_count);
            let idx = bs[b].offset + j;
            if self.spec_slots()[idx] is Some {
                let t = choose|t: int|
                    0 <= t < orig.len() && orig[t] == self.spec_slots()[idx]->Some_0
                        && spec_canon(l1, bs, (#[trigger] orig[t]).0.deep_view()) == idx;
                let kv = orig[t].0.deep_view();
                let b2 = l1.spec_hash(kv) as int;
                l1.wf_num_bits();
                l1.hash_in_range(kv);
                assert(btk[b2]@.contains(t as usize));
                assert(exists|p: int| 0 <= p < btk[b2]@.len() && btk[b2]@[p] == t as usize);
                let pos = choose|p: int|
                    0 <= p < btk[b2]@.len() && btk[b2]@[p] == t as usize;
                assert(btk[b2]@[pos] == t as usize);
                assert(spec_bucket_resolved(bs[b2], orig, btk[b2]@));
                assert(0 <= spec_l2_index(bs[b2], kv) < bs[b2].num_slots);
                if b2 < b {
                    lemma_sum_slots_mono(bs, b2 + 1, b);
                    assert(false);
                } else if b < b2 {
                    lemma_sum_slots_mono(bs, b + 1, b2);
                    assert(false);
                } else {
                    assert(spec_l2_index(bs[b], kv) == j);
                    assert(mask_bits(bs[b].slots)[j]);
                    assert(false);
                }
            }
        }

        assert forall|i: int| 0 <= i < orig.len() implies self.spec_contains_pair(
            (#[trigger] orig[i]).0.deep_view(),
            orig[i].1,
        ) by {
            let c = spec_canon(l1, bs, orig[i].0.deep_view());
            assert(self.spec_slots()[c] is Some && orig[i] == self.spec_slots()[c]->Some_0);
        }
    }
}

/// In a strictly ascending sequence the values grow at least as fast as
/// the positions.
pub proof fn lemma_ascending_gap(s: Seq<usize>, t1: int, t2: int)
    requires
        spec_ascending(s),
        0 <= t1 <= t2 < s.len(),
    ensures
        s[t2] >= s[t1] + (t2 - t1),
    decreases t2 - t1,
{
    if t1 < t2 {
        lemma_ascending_gap(s, t1, t2 - 1);
    }
}

} // verus!
