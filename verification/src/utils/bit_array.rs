//! Fixed-capacity bit sets: [`Bits`], a single unsigned word seen as a set
//! of bit positions, and [`BitArray`], a fixed number of such words glued
//! together.  Both expose set, clear, count and iteration over set bits;
//! the iterators are plain state machines with an inherent `next`, the
//! shape that a constant-expression evaluator also accepts.

use vstd::prelude::*;

verus! {

/// An unsigned word usable as bit storage: its width, and the primitive
/// single-bit reads and writes, each pinned down bit by bit.
pub trait BitStore: Copy + Sized {
    /// The number of bits in this storage type.
    spec fn width() -> nat;

    /// Bit `i` of the value.
    spec fn bit(self, i: int) -> bool;

    proof fn width_facts()
        ensures
            8 <= Self::width() <= 128,
    ;

    /// The width as a runtime value.
    fn width_exec() -> (r: usize)
        ensures
            r == Self::width(),
    ;

    /// The all-zero value.
    fn zero() -> (r: Self)
        ensures
            forall|i: int| 0 <= i < Self::width() ==> !r.bit(i),
    ;

    /// The all-one value.
    fn all_ones() -> (r: Self)
        ensures
            forall|i: int| 0 <= i < Self::width() ==> r.bit(i),
    ;

    /// Reads bit `i`.
    fn get_bit(self, i: usize) -> (r: bool)
        requires
            i < Self::width(),
        ensures
            r == self.bit(i as int),
    ;

    /// Sets bit `i` to one.
    fn set_bit(self, i: usize) -> (r: Self)
        requires
            i < Self::width(),
        ensures
            forall|j: int| 0 <= j < Self::width() ==> r.bit(j) == (j == i || self.bit(j)),
    ;

    /// Clears bit `i` to zero.
    fn clear_bit(self, i: usize) -> (r: Self)
        requires
            i < Self::width(),
        ensures
            forall|j: int| 0 <= j < Self::width() ==> r.bit(j) == (j != i && self.bit(j)),
    ;
}

impl BitStore for u8 {
    open spec fn width() -> nat {
        8
    }

    open spec fn bit(self, i: int) -> bool {
        (self >> (i as u8)) & 1 == 1
    }

    proof fn width_facts() {
    }

    fn width_exec() -> usize {
        8
    }

    fn zero() -> (r: Self) {
        proof {
            assert(forall|j: u8| j < 8 ==> ((0u8 >> j) & 1 != 1)) by (bit_vector);
        }
        0
    }

    fn all_ones() -> (r: Self) {
        proof {
            assert(forall|j: u8| j < 8 ==> ((0xFFu8 >> j) & 1 == 1)) by (bit_vector);
        }
        0xFF
    }

    fn get_bit(self, i: usize) -> (r: bool) {
        (self >> (i as u8)) & 1 == 1
    }

    fn set_bit(self, i: usize) -> (r: Self) {
        let v = self;
        let b = i as u8;
        proof {
            assert(forall|j: u8|
                j < 8 && b < 8 ==> (((v | (1u8 << b)) >> j) & 1 == 1) == (j == b || (v >> j) & 1
                    == 1)) by (bit_vector);
        }
        self | (1u8 << b)
    }

    fn clear_bit(self, i: usize) -> (r: Self) {
        let v = self;
        let b = i as u8;
        proof {
            assert(forall|j: u8|
                j < 8 && b < 8 ==> (((v & !(1u8 << b)) >> j) & 1 == 1) == (j != b && (v >> j) & 1
                    == 1)) by (bit_vector);
        }
        self & !(1u8 << b)
    }
}

impl BitStore for u16 {
    open spec fn width() -> nat {
        16
    }

    open spec fn bit(self, i: int) -> bool {
        (self >> (i as u16)) & 1 == 1
    }

    proof fn width_facts() {
    }

    fn width_exec() -> usize {
        16
    }

    fn zero() -> (r: Self) {
        proof {
            assert(forall|j: u16| j < 16 ==> ((0u16 >> j) & 1 != 1)) by (bit_vector);
        }
        0
    }

    fn all_ones() -> (r: Self) {
        proof {
            assert(forall|j: u16| j < 16 ==> ((0xFFFFu16 >> j) & 1 == 1)) by (bit_vector);
        }
        0xFFFF
    }

    fn get_bit(self, i: usize) -> (r: bool) {
        (self >> (i as u16)) & 1 == 1
    }

    fn set_bit(self, i: usize) -> (r: Self) {
        let v = self;
        let b = i as u16;
        proof {
            assert(forall|j: u16|
                j < 16 && b < 16 ==> (((v | (1u16 << b)) >> j) & 1 == 1) == (j == b || (v >> j)
                    & 1 == 1)) by (bit_vector);
        }
        self | (1u16 << b)
    }

    fn clear_bit(self, i: usize) -> (r: Self) {
        let v = self;
        let b = i as u16;
        proof {
            assert(forall|j: u16|
                j < 16 && b < 16 ==> (((v & !(1u16 << b)) >> j) & 1 == 1) == (j != b && (v >> j)
                    & 1 == 1)) by (bit_vector);
        }
        self & !(1u16 << b)
    }
}

impl BitStore for u32 {
    open spec fn width() -> nat {
        32
    }

    open spec fn bit(self, i: int) -> bool {
        (self >> (i as u32)) & 1 == 1
    }

    proof fn width_facts() {
    }

    fn width_exec() -> usize {
        32
    }

    fn zero() -> (r: Self) {
        proof {
            assert(forall|j: u32| j < 32 ==> ((0u32 >> j) & 1 != 1)) by (bit_vector);
        }
        0
    }

    fn all_ones() -> (r: Self) {
        proof {
            assert(forall|j: u32| j < 32 ==> ((0xFFFF_FFFFu32 >> j) & 1 == 1)) by (bit_vector);
        }
        0xFFFF_FFFF
    }

    fn get_bit(self, i: usize) -> (r: bool) {
        (self >> (i as u32)) & 1 == 1
    }

    fn set_bit(self, i: usize) -> (r: Self) {
        let v = self;
        let b = i as u32;
        proof {
            assert(forall|j: u32|
                j < 32 && b < 32 ==> (((v | (1u32 << b)) >> j) & 1 == 1) == (j == b || (v >> j)
                    & 1 == 1)) by (bit_vector);
        }
        self | (1u32 << b)
    }

    fn clear_bit(self, i: usize) -> (r: Self) {
        let v = self;
        let b = i as u32;
        proof {
            assert(forall|j: u32|
                j < 32 && b < 32 ==> (((v & !(1u32 << b)) >> j) & 1 == 1) == (j != b && (v >> j)
                    & 1 == 1)) by (bit_vector);
        }
        self & !(1u32 << b)
    }
}

impl BitStore for u64 {
    open spec fn width() -> nat {
        64
    }

    open spec fn bit(self, i: int) -> bool {
        (self >> (i as u64)) & 1 == 1
    }

    proof fn width_facts() {
    }

    fn width_exec() -> usize {
        64
    }

    fn zero() -> (r: Self) {
        proof {
            assert(forall|j: u64| j < 64 ==> ((0u64 >> j) & 1 != 1)) by (bit_vector);
        }
        0
    }

    fn all_ones() -> (r: Self) {
        proof {
            assert(forall|j: u64|
                j < 64 ==> ((0xFFFF_FFFF_FFFF_FFFFu64 >> j) & 1 == 1)) by (bit_vector);
        }
        0xFFFF_FFFF_FFFF_FFFF
    }

    fn get_bit(self, i: usize) -> (r: bool) {
        (self >> (i as u64)) & 1 == 1
    }

    fn set_bit(self, i: usize) -> (r: Self) {
        let v = self;
        let b = i as u64;
        proof {
            assert(forall|j: u64|
                j < 64 && b < 64 ==> (((v | (1u64 << b)) >> j) & 1 == 1) == (j == b || (v >> j)
                    & 1 == 1)) by (bit_vector);
        }
        self | (1u64 << b)
    }

    fn clear_bit(self, i: usize) -> (r: Self) {
        let v = self;
        let b = i as u64;
        proof {
            assert(forall|j: u64|
                j < 64 && b < 64 ==> (((v & !(1u64 << b)) >> j) & 1 == 1) == (j != b && (v >> j)
                    & 1 == 1)) by (bit_vector);
        }
        self & !(1u64 << b)
    }
}

impl BitStore for u128 {
    open spec fn width() -> nat {
        128
    }

    open spec fn bit(self, i: int) -> bool {
        (self >> (i as u128)) & 1 == 1
    }

    proof fn width_facts() {
    }

    fn width_exec() -> usize {
        128
    }

    fn zero() -> (r: Self) {
        proof {
            assert(forall|j: u128| j < 128 ==> ((0u128 >> j) & 1 != 1)) by (bit_vector);
        }
        0
    }

    fn all_ones() -> (r: Self) {
        proof {
            assert(forall|j: u128|
                j < 128 ==> ((!0u128 >> j) & 1 == 1)) by (bit_vector);
        }
        !0u128
    }

    fn get_bit(self, i: usize) -> (r: bool) {
        (self >> (i as u128)) & 1 == 1
    }

    fn set_bit(self, i: usize) -> (r: Self) {
        let v = self;
        let b = i as u128;
        proof {
            assert(forall|j: u128|
                j < 128 && b < 128 ==> (((v | (1u128 << b)) >> j) & 1 == 1) == (j == b || (v
                    >> j) & 1 == 1)) by (bit_vector);
        }
        self | (1u128 << b)
    }

    fn clear_bit(self, i: usize) -> (r: Self) {
        let v = self;
        let b = i as u128;
        proof {
            assert(forall|j: u128|
                j < 128 && b < 128 ==> (((v & !(1u128 << b)) >> j) & 1 == 1) == (j != b && (v
                    >> j) & 1 == 1)) by (bit_vector);
        }
        self & !(1u128 << b)
    }
}

/// The number of set positions in a bit sequence.
pub open spec fn spec_count_ones(s: Seq<bool>) -> nat
    decreases s.len(),
{
    if s.len() == 0 {
        0
    } else {
        spec_count_ones(s.drop_last()) + if s.last() {
            1nat
        } else {
            0nat
        }
    }
}

/// A sequence with no set positions counts zero.
pub proof fn lemma_count_ones_none(s: Seq<bool>)
    requires
        forall|i: int| 0 <= i < s.len() ==> !s[i],
    ensures
        spec_count_ones(s) == 0,
    decreases s.len(),
{
    if s.len() > 0 {
        lemma_count_ones_none(s.drop_last());
    }
}

/// Counting distributes over an update that sets a clear bit.
pub proof fn lemma_count_ones_set(s: Seq<bool>, i: int)
    requires
        0 <= i < s.len(),
        !s[i],
    ensures
        spec_count_ones(s.update(i, true)) == spec_count_ones(s) + 1,
    decreases s.len(),
{
    if i == s.len() - 1 {
        assert(s.update(i, true).drop_last() =~= s.drop_last());
    } else {
        assert(s.update(i, true).drop_last() =~= s.drop_last().update(i, true));
        lemma_count_ones_set(s.drop_last(), i);
    }
}

/// Counting distributes over an update that clears a set bit.
pub proof fn lemma_count_ones_clear(s: Seq<bool>, i: int)
    requires
        0 <= i < s.len(),
        s[i],
    ensures
        spec_count_ones(s) == spec_count_ones(s.update(i, false)) + 1,
    decreases s.len(),
{
    if i == s.len() - 1 {
        assert(s.update(i, false).drop_last() =~= s.drop_last());
    } else {
        assert(s.update(i, false).drop_last() =~= s.drop_last().update(i, false));
        lemma_count_ones_clear(s.drop_last(), i);
    }
}

/// A wrapper over a single unsigned integer that provides bit-set
/// operations; its view is the sequence of its bits, lowest first.
#[derive(Clone, Copy, PartialEq, Eq)]
pub struct Bits<T: BitStore> {
    value: T,
}

impl<T: BitStore> View for Bits<T> {
    type V = Seq<bool>;

    closed spec fn view(&self) -> Seq<bool> {
        Seq::new(T::width(), |i: int| self.value.bit(i))
    }
}

/// The first set position at or after `from`, or the length if there is
/// none.
pub open spec fn spec_first_one(s: Seq<bool>, from: int) -> int
    recommends
        0 <= from <= s.len(),
    decreases s.len() - from,
{
    if from < 0 || from >= s.len() {
        s.len() as int
    } else if s[from] {
        from
    } else {
        spec_first_one(s, from + 1)
    }
}

pub proof fn lemma_first_one(s: Seq<bool>, from: int)
    requires
        0 <= from <= s.len(),
    ensures
        from <= spec_first_one(s, from) <= s.len(),
        spec_first_one(s, from) < s.len() ==> s[spec_first_one(s, from)],
        forall|t: int| from <= t < spec_first_one(s, from) ==> !s[t],
        spec_first_one(s, from) == s.len() ==> forall|t: int| from <= t < s.len() ==> !s[t],
    decreases s.len() - from,
{
    if from < s.len() && !s[from] {
        lemma_first_one(s, from + 1);
    }
}

impl<T: BitStore> Bits<T> {
    /// Creates a new value with all bits clear.
    pub fn new() -> (r: Self)
        ensures
            r@.len() == T::width(),
            forall|i: int| 0 <= i < T::width() ==> !r@[i],
    {
        Bits { value: T::zero() }
    }

    /// Wraps an existing storage value.
    pub fn from_value(value: T) -> (r: Self)
        ensures
            r@ == Seq::new(T::width(), |i: int| value.bit(i)),
    {
        Bits { value }
    }

    /// Returns the raw underlying value.
    pub fn value(&self) -> (r: T)
        ensures
            r == self.spec_value(),
    {
        self.value
    }

    /// The raw underlying value.
    pub closed spec fn spec_value(&self) -> T {
        self.value
    }

    /// Returns the total number of bits.
    pub fn len(&self) -> (r: usize)
        ensures
            r == self@.len(),
    {
        T::width_exec()
    }

    /// A bit set over a word always has at least one position.
    pub fn is_empty(&self) -> (r: bool)
        ensures
            r == (self@.len() == 0),
    {
        proof {
            T::width_facts();
        }
        false
    }

    /// Gets the value of the bit at the given index, if it is in range.
    pub fn get(&self, index: usize) -> (r: Option<bool>)
        ensures
            index < self@.len() ==> r == Some(self@[index as int]),
            index >= self@.len() ==> r is None,
    {
        if index >= self.len() {
            return None;
        }
        Some(self.value.get_bit(index))
    }

    /// Sets the bit at the given index to one; an index out of range
    /// changes nothing.
    pub fn set(&mut self, index: usize)
        ensures
            index < old(self)@.len() ==> final(self)@ == old(self)@.update(index as int, true),
            index >= old(self)@.len() ==> final(self)@ == old(self)@,
    {
        if index >= self.len() {
            return ;
        }
        self.value = self.value.set_bit(index);
        proof {
            assert(self@ =~= old(self)@.update(index as int, true));
        }
    }

    /// Clears the bit at the given index; an index out of range changes
    /// nothing.
    pub fn clear(&mut self, index: usize)
        ensures
            index < old(self)@.len() ==> final(self)@ == old(self)@.update(index as int, false),
            index >= old(self)@.len() ==> final(self)@ == old(self)@,
    {
        if index >= self.len() {
            return ;
        }
        self.value = self.value.clear_bit(index);
        proof {
            assert(self@ =~= old(self)@.update(index as int, false));
        }
    }

    /// Sets all bits to zero.
    pub fn clear_all(&mut self)
        ensures
            final(self)@.len() == T::width(),
            forall|i: int| 0 <= i < T::width() ==> !final(self)@[i],
    {
        self.value = T::zero();
    }

    /// Sets all bits to one.
    pub fn set_all(&mut self)
        ensures
            final(self)@.len() == T::width(),
            forall|i: int| 0 <= i < T::width() ==> final(self)@[i],
    {
        self.value = T::all_ones();
    }

    /// Counts the bits set to one.
    pub fn count_ones(&self) -> (r: usize)
        ensures
            r == spec_count_ones(self@),
    {
        proof {
            T::width_facts();
        }
        let w = T::width_exec();
        let mut count: usize = 0;
        let mut i: usize = 0;
        while i < w
            invariant
                w == T::width(),
                w == self@.len(),
                0 <= i <= w,
                count == spec_count_ones(self@.take(i as int)),
                count <= i,
            decreases w - i,
        {
            proof {
                assert(self@.take(i + 1).drop_last() =~= self@.take(i as int));
            }
            if self.value.get_bit(i) {
                count = count + 1;
            }
            i = i + 1;
        }
        proof {
            assert(self@.take(w as int) =~= self@);
        }
        count
    }

    /// Returns an iterator over the indices of the set bits.
    pub fn iter_ones(&self) -> (r: BitsOnesIter<T>)
        ensures
            r.remaining_view() == self@,
    {
        BitsOnesIter { remaining: *self }
    }

    /// Returns the constant-evaluator-style iterator over the indices of
    /// the set bits.
    pub fn iter_ones_const(&self) -> (r: BitsOnesConstIter<T>)
        ensures
            r.remaining_view() == self@,
    {
        BitsOnesConstIter { remaining: *self }
    }
}

impl<T: BitStore> Default for Bits<T> {
    /// The all-clear value.
    fn default() -> (r: Self)
        ensures
            r@.len() == T::width(),
            forall|i: int| 0 <= i < T::width() ==> !r@[i],
    {
        Bits::new()
    }
}

/// Iterator over the indices of set bits in a [`Bits`] value, yielding them
/// in ascending order by clearing each reported bit.
pub struct BitsOnesIter<T: BitStore> {
    remaining: Bits<T>,
}

impl<T: BitStore> BitsOnesIter<T> {
    /// The bits not yet reported.
    pub closed spec fn remaining_view(&self) -> Seq<bool> {
        self.remaining@
    }

    /// The lowest still-set index, cleared from the iterator's state; or
    /// nothing once no set bits are left.
    pub fn next(&mut self) -> (r: Option<usize>)
        ensures
            ({
                let s = old(self).remaining_view();
                let f = spec_first_one(s, 0);
                if f < s.len() {
                    r == Some(f as usize) && final(self).remaining_view() == s.update(f, false)
                } else {
                    r is None && final(self).remaining_view() == s
                }
            }),
    {
        proof {
            T::width_facts();
            lemma_first_one(old(self).remaining_view(), 0);
        }
        let w = T::width_exec();
        let mut i: usize = 0;
        while i < w
            invariant
                w == T::width(),
                *self == *old(self),
                w == self.remaining_view().len(),
                0 <= i <= w,
                forall|t: int| 0 <= t < i ==> !self.remaining_view()[t],
                spec_first_one(self.remaining_view(), 0) >= i,
            decreases w - i,
        {
            if self.remaining.value.get_bit(i) {
                proof {
                    let s = old(self).remaining_view();
                    assert(s[i as int]);
                    assert(forall|t: int| 0 <= t < i ==> !s[t]);
                    lemma_first_one(s, 0);
                    assert(spec_first_one(s, 0) == i as int);
                }
                self.remaining.value = self.remaining.value.clear_bit(i);
                proof {
                    assert(self.remaining_view() =~= old(self).remaining_view().update(
                        i as int,
                        false,
                    ));
                }
                return Some(i);
            }
            proof {
                lemma_first_one(self.remaining_view(), 0);
            }
            i = i + 1;
        }
        None
    }
}

/// A flat index below `n * w` has its word index below `n`.
pub proof fn lemma_flat_split(i: int, w: int, n: int)
    requires
        w > 0,
        n >= 0,
        0 <= i < n * w,
    ensures
        0 <= i / w < n,
        0 <= i % w < w,
        i == (i / w) * w + (i % w),
{
    vstd::arithmetic::div_mod::lemma_fundamental_div_mod(i, w);
    vstd::arithmetic::div_mod::lemma_mod_bound(i, w);
    vstd::arithmetic::div_mod::lemma_div_pos_is_pos(i, w);
    vstd::arithmetic::mul::lemma_mul_is_commutative(i / w, w);
    if i / w >= n {
        vstd::arithmetic::mul::lemma_mul_inequality(n, i / w, w);
        vstd::arithmetic::mul::lemma_mul_is_commutative(n, w);
    }
}

/// A bit array of `N` words of storage type `T`; its view is the flat
/// sequence of all its bits, index `i` living in word `i / width` at
/// position `i % width`.
#[derive(Clone, Copy, PartialEq, Eq)]
pub struct BitArray<T: BitStore, const N: usize> {
    buckets: [Bits<T>; N],
}

impl<T: BitStore, const N: usize> View for BitArray<T, N> {
    type V = Seq<bool>;

    closed spec fn view(&self) -> Seq<bool> {
        Seq::new(
            (N as nat) * T::width(),
            |i: int| self.buckets@[i / (T::width() as int)]@[i % (T::width() as int)],
        )
    }
}

impl<T: BitStore, const N: usize> BitArray<T, N> {
    /// Creates a new array with all bits clear.
    pub fn new() -> (r: Self)
        ensures
            r@.len() == (N as nat) * T::width(),
            forall|i: int| 0 <= i < r@.len() ==> !r@[i],
    {
        proof {
            T::width_facts();
        }
        let r = BitArray::<T, N> { buckets: [Bits::<T>::new(); N] };
        proof {
            assert forall|i: int| 0 <= i < r@.len() implies !r@[i] by {
                let w = T::width() as int;
                lemma_flat_split(i, w, N as int);
            }
        }
        r
    }

    /// Returns the total number of bits in the array.
    pub fn len(&self) -> (r: usize)
        requires
            (N as nat) * T::width() <= usize::MAX,
        ensures
            r == self@.len(),
    {
        proof {
            T::width_facts();
        }
        N * T::width_exec()
    }

    /// Whether the array has no storage at all.
    pub fn is_empty(&self) -> (r: bool)
        ensures
            r == (N == 0),
    {
        N == 0
    }

    /// Gets the value of the bit at the given index, if it is in range.
    pub fn get(&self, index: usize) -> (r: Option<bool>)
        requires
            (N as nat) * T::width() <= usize::MAX,
        ensures
            index < self@.len() ==> r == Some(self@[index as int]),
            index >= self@.len() ==> r is None,
    {
        proof {
            T::width_facts();
        }
        if index >= self.len() {
            return None;
        }
        let w = T::width_exec();
        let b = index / w;
        let j = index % w;
        proof {
            lemma_flat_split(index as int, w as int, N as int);
        }
        Some(self.buckets[b].value.get_bit(j))
    }

    /// Sets the bit at the given index to one; an index out of range
    /// changes nothing.
    pub fn set(&mut self, index: usize)
        requires
            (N as nat) * T::width() <= usize::MAX,
        ensures
            index < old(self)@.len() ==> final(self)@ == old(self)@.update(index as int, true),
            index >= old(self)@.len() ==> final(self)@ == old(self)@,
    {
        proof {
            T::width_facts();
        }
        if index >= self.len() {
            return ;
        }
        let w = T::width_exec();
        let b = index / w;
        let j = index % w;
        proof {
            lemma_flat_split(index as int, w as int, N as int);
        }
        let updated = self.buckets[b].value.set_bit(j);
        self.buckets[b] = Bits { value: updated };
        proof {
            assert forall|i: int| 0 <= i < self@.len() implies self@[i] == old(self)@.update(
                index as int,
                true,
            )[i] by {
                let wi = T::width() as int;
                lemma_flat_split(i, wi, N as int);
                lemma_flat_split(index as int, wi, N as int);
            }
            assert(self@ =~= old(self)@.update(index as int, true));
        }
    }

    /// Clears the bit at the given index; an index out of range changes
    /// nothing.
    pub fn clear(&mut self, index: usize)
        requires
            (N as nat) * T::width() <= usize::MAX,
        ensures
            index < old(self)@.len() ==> final(self)@ == old(self)@.update(index as int, false),
            index >= old(self)@.len() ==> final(self)@ == old(self)@,
    {
        proof {
            T::width_facts();
        }
        if index >= self.len() {
            return ;
        }
        let w = T::width_exec();
        let b = index / w;
        let j = index % w;
        proof {
            lemma_flat_split(index as int, w as int, N as int);
        }
        let updated = self.buckets[b].value.clear_bit(j);
        self.buckets[b] = Bits { value: updated };
        proof {
            assert forall|i: int| 0 <= i < self@.len() implies self@[i] == old(self)@.update(
                index as int,
                false,
            )[i] by {
                let wi = T::width() as int;
                lemma_flat_split(i, wi, N as int);
                lemma_flat_split(index as int, wi, N as int);
            }
            assert(self@ =~= old(self)@.update(index as int, false));
        }
    }

    /// Sets all bits to zero.
    pub fn clear_all(&mut self)
        ensures
            final(self)@.len() == old(self)@.len(),
            forall|i: int| 0 <= i < final(self)@.len() ==> !final(self)@[i],
    {
        proof {
            T::width_facts();
        }
        let mut b: usize = 0;
        while b < N
            invariant
                0 <= b <= N,
                forall|t: int, j: int|
                    0 <= t < b && 0 <= j < T::width() ==> !(#[trigger] self.buckets@[t]@[j]),
            decreases N - b,
        {
            self.buckets[b] = Bits::new();
            b = b + 1;
        }
        proof {
            assert forall|i: int| 0 <= i < self@.len() implies !self@[i] by {
                let wi = T::width() as int;
                lemma_flat_split(i, wi, N as int);
            }
        }
    }

    /// Sets all bits to one.
    pub fn set_all(&mut self)
        ensures
            final(self)@.len() == old(self)@.len(),
            forall|i: int| 0 <= i < final(self)@.len() ==> final(self)@[i],
    {
        proof {
            T::width_facts();
        }
        let mut b: usize = 0;
        while b < N
            invariant
                0 <= b <= N,
                forall|t: int, j: int|
                    0 <= t < b && 0 <= j < T::width() ==> #[trigger] self.buckets@[t]@[j],
            decreases N - b,
        {
            let mut filled = Bits::<T>::new();
            filled.set_all();
            self.buckets[b] = filled;
            b = b + 1;
        }
        proof {
            assert forall|i: int| 0 <= i < self@.len() implies self@[i] by {
                let wi = T::width() as int;
                lemma_flat_split(i, wi, N as int);
            }
        }
    }

    /// Counts the bits set to one.
    pub fn count_ones(&self) -> (r: usize)
        requires
            (N as nat) * T::width() <= usize::MAX,
        ensures
            r == spec_count_ones(self@),
    {
        proof {
            T::width_facts();
        }
        let n = self.len();
        let w = T::width_exec();
        let mut count: usize = 0;
        let mut i: usize = 0;
        while i < n
            invariant
                w == T::width(),
                n == self@.len(),
                n <= usize::MAX,
                0 <= i <= n,
                count == spec_count_ones(self@.take(i as int)),
                count <= i,
            decreases n - i,
        {
            let b = i / w;
            let j = i % w;
            proof {
                lemma_flat_split(i as int, w as int, N as int);
                assert(self@.take(i + 1).drop_last() =~= self@.take(i as int));
            }
            if self.buckets[b].value.get_bit(j) {
                count = count + 1;
            }
            i = i + 1;
        }
        proof {
            assert(self@.take(n as int) =~= self@);
        }
        count
    }

    /// Returns an iterator over the indices of the set bits.
    pub fn iter_ones(&self) -> (r: BitArrayOnesIter<T, N>)
        ensures
            r.remaining_view() == self@,
    {
        BitArrayOnesIter { bit_array: *self }
    }

    /// Returns the constant-evaluator-style iterator over the indices of
    /// the set bits.
    pub fn iter_ones_const(&self) -> (r: BitArrayOnesConstIter<T, N>)
        ensures
            r.remaining_view() == self@,
    {
        BitArrayOnesConstIter { bit_array: *self }
    }
}

impl<T: BitStore, const N: usize> Default for BitArray<T, N> {
    /// The all-clear array.
    fn default() -> (r: Self)
        ensures
            r@.len() == (N as nat) * T::width(),
            forall|i: int| 0 <= i < r@.len() ==> !r@[i],
    {
        BitArray::new()
    }
}

/// Iterator over the indices of set bits in a [`BitArray`], yielding them
/// in ascending order by clearing each reported bit from its own copy.
pub struct BitArrayOnesIter<T: BitStore, const N: usize> {
    bit_array: BitArray<T, N>,
}

impl<T: BitStore, const N: usize> BitArrayOnesIter<T, N> {
    /// The bits not yet reported.
    pub closed spec fn remaining_view(&self) -> Seq<bool> {
        self.bit_array@
    }

    /// The lowest still-set index, cleared from the iterator's state; or
    /// nothing once no set bits are left.
    pub fn next(&mut self) -> (r: Option<usize>)
        requires
            (N as nat) * T::width() <= usize::MAX,
        ensures
            ({
                let s = old(self).remaining_view();
                let f = spec_first_one(s, 0);
                if f < s.len() {
                    r == Some(f as usize) && final(self).remaining_view() == s.update(f, false)
                } else {
                    r is None && final(self).remaining_view() == s
                }
            }),
    {
        proof {
            T::width_facts();
            lemma_first_one(old(self).remaining_view(), 0);
        }
        let n = self.bit_array.len();
        let w = T::width_exec();
        let mut i: usize = 0;
        while i < n
            invariant
                w == T::width(),
                *self == *old(self),
                n == self.remaining_view().len(),
                n <= usize::MAX,
                0 <= i <= n,
                forall|t: int| 0 <= t < i ==> !self.remaining_view()[t],
                spec_first_one(self.remaining_view(), 0) >= i,
            decreases n - i,
        {
            let b = i / w;
            let j = i % w;
            proof {
                lemma_flat_split(i as int, w as int, N as int);
            }
            if self.bit_array.buckets[b].value.get_bit(j) {
                proof {
                    let s = old(self).remaining_view();
                    assert(s[i as int]);
                    assert(forall|t: int| 0 <= t < i ==> !s[t]);
                    lemma_first_one(s, 0);
                    assert(spec_first_one(s, 0) == i as int);
                }
                self.bit_array.clear(i);
                return Some(i);
            }
            proof {
                lemma_first_one(self.remaining_view(), 0);
            }
            i = i + 1;
        }
        None
    }
}

/// Constant-evaluator-style iterator over the indices of set bits in a
/// [`BitArray`]; the same state machine as [`BitArrayOnesIter`].
pub struct BitArrayOnesConstIter<T: BitStore, const N: usize> {
    bit_array: BitArray<T, N>,
}

impl<T: BitStore, const N: usize> BitArrayOnesConstIter<T, N> {
    /// The bits not yet reported.
    pub closed spec fn remaining_view(&self) -> Seq<bool> {
        self.bit_array@
    }

    /// The lowest still-set index, cleared from the iterator's state; or
    /// nothing once no set bits are left.
    pub fn next(&mut self) -> (r: Option<usize>)
        requires
            (N as nat) * T::width() <= usize::MAX,
        ensures
            ({
                let s = old(self).remaining_view();
                let f = spec_first_one(s, 0);
                if f < s.len() {
                    r == Some(f as usize) && final(self).remaining_view() == s.update(f, false)
                } else {
                    r is None && final(self).remaining_view() == s
                }
            }),
    {
        proof {
            T::width_facts();
            lemma_first_one(old(self).remaining_view(), 0);
        }
        let n = self.bit_array.len();
        let w = T::width_exec();
        let mut i: usize = 0;
        while i < n
            invariant
                w == T::width(),
                *self == *old(self),
                n == self.remaining_view().len(),
                n <= usize::MAX,
                0 <= i <= n,
                forall|t: int| 0 <= t < i ==> !self.remaining_view()[t],
                spec_first_one(self.remaining_view(), 0) >= i,
            decreases n - i,
        {
            let b = i / w;
            let j = i % w;
            proof {
                lemma_flat_split(i as int, w as int, N as int);
            }
            if self.bit_array.buckets[b].value.get_bit(j) {
                proof {
                    let s = old(self).remaining_view();
                    assert(s[i as int]);
                    assert(forall|t: int| 0 <= t < i ==> !s[t]);
                    lemma_first_one(s, 0);
                    assert(spec_first_one(s, 0) == i as int);
                }
                self.bit_array.clear(i);
                return Some(i);
            }
            proof {
                lemma_first_one(self.remaining_view(), 0);
            }
            i = i + 1;
        }
        None
    }
}

/// Constant-evaluator-style iterator over the indices of set bits in a
/// [`Bits`] value; the same state machine as [`BitsOnesIter`].
pub struct BitsOnesConstIter<T: BitStore> {
    remaining: Bits<T>,
}

impl<T: BitStore> BitsOnesConstIter<T> {
    /// The bits not yet reported.
    pub closed spec fn remaining_view(&self) -> Seq<bool> {
        self.remaining@
    }

    /// The lowest still-set index, cleared from the iterator's state; or
    /// nothing once no set bits are left.
    pub fn next(&mut self) -> (r: Option<usize>)
        ensures
            ({
                let s = old(self).remaining_view();
                let f = spec_first_one(s, 0);
                if f < s.len() {
                    r == Some(f as usize) && final(self).remaining_view() == s.update(f, false)
                } else {
                    r is None && final(self).remaining_view() == s
                }
            }),
    {
        proof {
            T::width_facts();
            lemma_first_one(old(self).remaining_view(), 0);
        }
        let w = T::width_exec();
        let mut i: usize = 0;
        while i < w
            invariant
                w == T::width(),
                *self == *old(self),
                w == self.remaining_view().len(),
                0 <= i <= w,
                forall|t: int| 0 <= t < i ==> !self.remaining_view()[t],
                spec_first_one(self.remaining_view(), 0) >= i,
            decreases w - i,
        {
            if self.remaining.value.get_bit(i) {
                proof {
                    let s = old(self).remaining_view();
                    assert(s[i as int]);
                    assert(forall|t: int| 0 <= t < i ==> !s[t]);
                    lemma_first_one(s, 0);
                    assert(spec_first_one(s, 0) == i as int);
                }
                self.remaining.value = self.remaining.value.clear_bit(i);
                proof {
                    assert(self.remaining_view() =~= old(self).remaining_view().update(
                        i as int,
                        false,
                    ));
                }
                return Some(i);
            }
            proof {
                lemma_first_one(self.remaining_view(), 0);
            }
            i = i + 1;
        }
        None
    }
}

} // verus!
