//! Index bookkeeping for a fixed-capacity circular buffer.
//!
//! A `RingState` tracks a `head` (the slot of the logical front), a `tail`
//! (the next write position at the back) and an `is_full` flag that
//! disambiguates the `head == tail` coincidence.  It owns no storage: the
//! `will_*` operations advance the indices and hand the caller the physical
//! slot to read or write, so that a container can keep its cells in sync.

use vstd::prelude::*;

verus! {

/// Overflow policy marker, chosen once at the type level.
pub trait Behavior {}

/// `RingState<_, Saturating>` never suggests displacing existing elements:
/// a push on a full buffer reports an error.
#[derive(Debug)]
pub struct Saturating;

impl Behavior for Saturating {}

/// `RingState<_, Overwriting>` suggests displacing the oldest element once
/// the capacity is exhausted: push operations never fail.
#[derive(Debug)]
pub struct Overwriting;

impl Behavior for Overwriting {}

/// Whether a push stayed within the capacity or displaces an element.
#[derive(Copy, Clone, PartialEq, Eq, Structural, Debug)]
pub enum Push {
    WithinCapacity,
    Overwriting,
}

/// The recoverable capacity errors of a ring buffer.
#[derive(Copy, Clone, PartialEq, Eq, Structural, Debug)]
pub enum Error {
    Full,
    Empty,
}

#[derive(Debug)]
pub struct RingState<const N: usize, B: Behavior> {
    /// Also known as the read index.
    head: usize,
    /// Also known as the write index.
    tail: usize,
    /// The flag is only relevant when the head and tail indices match.
    is_full: bool,
    mode: core::marker::PhantomData<B>,
}

impl<const N: usize, B: Behavior> RingState<N, B> {
    pub closed spec fn spec_head(&self) -> usize {
        self.head
    }

    pub closed spec fn spec_tail(&self) -> usize {
        self.tail
    }

    pub closed spec fn full_flag(&self) -> bool {
        self.is_full
    }

    /// Validity of the bookkeeping: both indices address a slot, and a
    /// zero-capacity state is pinned to its single (permanently full) shape.
    pub open spec fn inv(&self) -> bool {
        if N == 0 {
            self.spec_head() == 0 && self.spec_tail() == 0 && self.full_flag()
        } else {
            self.spec_head() < N && self.spec_tail() < N
        }
    }

    /// The number of elements currently accounted for.
    pub open spec fn spec_count(&self) -> int {
        if self.full_flag() && self.spec_head() == self.spec_tail() {
            N as int
        } else if self.spec_head() <= self.spec_tail() {
            self.spec_tail() - self.spec_head()
        } else {
            N - self.spec_head() + self.spec_tail()
        }
    }

    /// The physical slot that holds logical position `k`, counted from the
    /// front: `(head + k) mod N`, written without `%` since `0 <= k < N`.
    pub open spec fn slot_at(&self, k: int) -> int {
        if self.spec_head() + k < N {
            self.spec_head() + k
        } else {
            self.spec_head() + k - N
        }
    }

    /// The index one step forward of `i`, wrapping at the capacity.
    pub open spec fn spec_inc(i: usize) -> int {
        if i + 1 < N {
            i + 1
        } else {
            i + 1 - N
        }
    }

    /// The index one step backward of `i`, wrapping at the capacity.
    pub open spec fn spec_dec(i: usize) -> int {
        if i == 0 {
            N - 1
        } else {
            i - 1
        }
    }

    pub proof fn lemma_count_bounds(&self)
        requires
            self.inv(),
        ensures
            0 <= self.spec_count() <= N,
    {
    }

    /// Distinct logical positions map to distinct physical slots.
    pub proof fn lemma_slot_at_injective(&self, j: int, k: int)
        requires
            self.inv(),
            0 <= j < N,
            0 <= k < N,
            j != k,
        ensures
            self.slot_at(j) != self.slot_at(k),
    {
    }

    pub fn new_with(head: usize, tail: usize, is_full: bool) -> (r: Self)
        requires
            head < N,
            tail < N,
        ensures
            r.inv(),
            r.spec_head() == head,
            r.spec_tail() == tail,
            r.full_flag() == is_full,
    {
        Self { head, tail, is_full, mode: core::marker::PhantomData }
    }

    pub fn capacity() -> (r: usize)
        ensures
            r == N,
    {
        N
    }

    pub fn is_empty(&self) -> (r: bool)
        requires
            self.inv(),
        ensures
            r == (N > 0 && self.spec_count() == 0),
    {
        self.head == self.tail && !self.is_full
    }

    pub fn is_full(&self) -> (r: bool)
        requires
            self.inv(),
        ensures
            r == (self.spec_count() == N),
    {
        self.head == self.tail && self.is_full
    }

    pub fn count(&self) -> (r: usize)
        requires
            self.inv(),
        ensures
            r == self.spec_count(),
    {
        let head = self.head;
        let tail = self.tail;
        if tail >= head && !self.is_full() {
            tail - head
        } else {
            tail + (N - head)
        }
    }

    pub fn head(&self) -> (r: usize)
        ensures
            r == self.spec_head(),
    {
        self.head
    }

    pub fn tail(&self) -> (r: usize)
        ensures
            r == self.spec_tail(),
    {
        self.tail
    }

    /// Translates a logical index (0-based from the front) to the physical
    /// slot that holds it, or `None` when the index is out of range.
    pub fn index(&self, index: usize) -> (r: Option<usize>)
        requires
            self.inv(),
        ensures
            index < self.spec_count() ==> r == Some(self.slot_at(index as int) as usize),
            index >= self.spec_count() ==> r is None,
    {
        if index < self.count() {
            let gap = N - self.head;
            if index < gap {
                Some(self.head + index)
            } else {
                Some(index - gap)
            }
        } else {
            None
        }
    }

    /// Returns the slot to pop the back element from, or an error when the
    /// buffer holds no elements.
    pub fn will_pop_back(&mut self) -> (r: Result<usize, Error>)
        requires
            old(self).inv(),
        ensures
            final(self).inv(),
            old(self).spec_count() == 0 ==> {
                &&& r matches Err(e) && e == Error::Empty
                &&& *final(self) == *old(self)
            },
            old(self).spec_count() > 0 ==> {
                &&& r matches Ok(i) && i == old(self).slot_at(old(self).spec_count() - 1)
                &&& final(self).spec_count() == old(self).spec_count() - 1
                &&& final(self).spec_head() == old(self).spec_head()
                &&& final(self).spec_tail() == Self::spec_dec(old(self).spec_tail())
                &&& forall|k: int| 0 <= k < N ==> final(self).slot_at(k) == old(self).slot_at(k)
            },
    {
        if self.count() > 0 {
            self.tail = Self::dec_index(self.tail);
            self.is_full = false;
            Ok(self.tail)
        } else {
            Err(Error::Empty)
        }
    }

    /// Returns the slot to pop the front element from, or an error when the
    /// buffer holds no elements.
    pub fn will_pop_front(&mut self) -> (r: Result<usize, Error>)
        requires
            old(self).inv(),
        ensures
            final(self).inv(),
            old(self).spec_count() == 0 ==> {
                &&& r matches Err(e) && e == Error::Empty
                &&& *final(self) == *old(self)
            },
            old(self).spec_count() > 0 ==> {
                &&& r matches Ok(i) && i == old(self).slot_at(0)
                &&& final(self).spec_count() == old(self).spec_count() - 1
                &&& final(self).spec_tail() == old(self).spec_tail()
                &&& final(self).spec_head() == Self::spec_inc(old(self).spec_head())
                &&& forall|k: int| 0 <= k < final(self).spec_count() ==> final(self).slot_at(k) == old(
                    self,
                ).slot_at(k + 1)
            },
    {
        if self.count() > 0 {
            let popped = self.head;
            self.head = Self::inc_index(self.head);
            self.is_full = false;
            Ok(popped)
        } else {
            Err(Error::Empty)
        }
    }

    fn inc_index(i: usize) -> (r: usize)
        requires
            N >= 1,
            i < N,
        ensures
            r == Self::spec_inc(i),
            r < N,
    {
        let j = i + 1;
        if j < N {
            j
        } else {
            j - N
        }
    }

    fn dec_index(i: usize) -> (r: usize)
        requires
            N >= 1,
            i < N,
        ensures
            r == Self::spec_dec(i),
            r < N,
    {
        if i == 0 {
            N - 1
        } else {
            i - 1
        }
    }
}

impl<const N: usize> RingState<N, Saturating> {
    /// Returns the slot to write a pushed back element to, or `Full` when
    /// the capacity is exhausted.
    pub fn will_push_back(&mut self) -> (r: Result<usize, Error>)
        requires
            old(self).inv(),
        ensures
            final(self).inv(),
            old(self).spec_count() == N ==> {
                &&& r matches Err(e) && e == Error::Full
                &&& *final(self) == *old(self)
            },
            old(self).spec_count() < N ==> {
                &&& r matches Ok(i) && i == old(self).slot_at(old(self).spec_count())
                &&& final(self).spec_count() == old(self).spec_count() + 1
                &&& final(self).spec_head() == old(self).spec_head()
                &&& final(self).spec_tail() == Self::spec_inc(old(self).spec_tail())
                &&& forall|k: int| 0 <= k < N ==> final(self).slot_at(k) == old(self).slot_at(k)
            },
    {
        if !self.is_full() {
            let original_tail = self.tail;
            self.tail = Self::inc_index(original_tail);
            self.is_full = self.head == self.tail;
            Ok(original_tail)
        } else {
            Err(Error::Full)
        }
    }

    /// Returns the slot to write a pushed front element to, or `Full` when
    /// the capacity is exhausted.
    pub fn will_push_front(&mut self) -> (r: Result<usize, Error>)
        requires
            old(self).inv(),
        ensures
            final(self).inv(),
            old(self).spec_count() == N ==> {
                &&& r matches Err(e) && e == Error::Full
                &&& *final(self) == *old(self)
            },
            old(self).spec_count() < N ==> {
                &&& r matches Ok(i) && i == final(self).slot_at(0)
                &&& final(self).spec_count() == old(self).spec_count() + 1
                &&& final(self).spec_tail() == old(self).spec_tail()
                &&& final(self).spec_head() == Self::spec_dec(old(self).spec_head())
                &&& forall|k: int| 0 <= k < old(self).spec_count() ==> final(self).slot_at(k + 1) == old(
                    self,
                ).slot_at(k)
            },
    {
        if !self.is_full() {
            self.head = Self::dec_index(self.head);
            self.is_full = self.head == self.tail;
            Ok(self.head)
        } else {
            Err(Error::Full)
        }
    }
}

impl<const N: usize> RingState<N, Overwriting> {
    /// Returns the slot to write a pushed back element to; when the buffer
    /// was full, the slot still holds the displaced front element, which the
    /// caller must dispose of first.
    pub fn will_push_back(&mut self) -> (r: (usize, Push))
        requires
            old(self).inv(),
            N >= 1,
        ensures
            final(self).inv(),
            old(self).spec_count() < N ==> {
                &&& r == (old(self).slot_at(old(self).spec_count()) as usize, Push::WithinCapacity)
                &&& final(self).spec_count() == old(self).spec_count() + 1
                &&& final(self).spec_head() == old(self).spec_head()
                &&& forall|k: int| 0 <= k < N ==> final(self).slot_at(k) == old(self).slot_at(k)
            },
            old(self).spec_count() == N ==> {
                &&& r == (old(self).slot_at(0) as usize, Push::Overwriting)
                &&& final(self).spec_count() == N
                &&& forall|k: int| 0 <= k < N - 1 ==> final(self).slot_at(k) == old(self).slot_at(k + 1)
                &&& final(self).slot_at(N - 1) == old(self).slot_at(0)
            },
    {
        let is_full = self.is_full();
        let original_tail = self.tail;
        self.tail = Self::inc_index(original_tail);
        if !is_full {
            self.is_full = self.head == self.tail;
            (original_tail, Push::WithinCapacity)
        } else {
            self.head = self.tail;
            (original_tail, Push::Overwriting)
        }
    }

    /// Returns the slot to write a pushed front element to; when the buffer
    /// was full, the slot still holds the displaced back element, which the
    /// caller must dispose of first.
    pub fn will_push_front(&mut self) -> (r: (usize, Push))
        requires
            old(self).inv(),
            N >= 1,
        ensures
            final(self).inv(),
            old(self).spec_count() < N ==> {
                &&& r == (final(self).slot_at(0) as usize, Push::WithinCapacity)
                &&& final(self).spec_count() == old(self).spec_count() + 1
                &&& final(self).spec_tail() == old(self).spec_tail()
                &&& forall|k: int| 0 <= k < old(self).spec_count() ==> final(self).slot_at(k + 1) == old(
                    self,
                ).slot_at(k)
            },
            old(self).spec_count() == N ==> {
                &&& r == (old(self).slot_at(N - 1) as usize, Push::Overwriting)
                &&& final(self).spec_count() == N
                &&& final(self).slot_at(0) == old(self).slot_at(N - 1)
                &&& forall|k: int| 1 <= k < N ==> final(self).slot_at(k) == old(self).slot_at(k - 1)
            },
    {
        let is_full = self.is_full();
        self.head = Self::dec_index(self.head);
        if !is_full {
            self.is_full = self.head == self.tail;
            (self.head, Push::WithinCapacity)
        } else {
            self.tail = self.head;
            (self.head, Push::Overwriting)
        }
    }
}

impl<const N: usize, B: Behavior> Default for RingState<N, B> {
    /// The empty state; a zero-capacity state is born full instead.
    fn default() -> (r: Self)
        ensures
            r.inv(),
            r.spec_head() == 0,
            r.spec_tail() == 0,
            r.full_flag() == (N == 0),
            r.spec_count() == 0,
    {
        Self { head: 0, tail: 0, is_full: N == 0, mode: core::marker::PhantomData }
    }
}


/// A policy-erased interface over the ring-state bookkeeping, for code that
/// is generic over the overflow policy.  A push on a full state either
/// reports `Full` (saturating) or displaces the oldest element (overwriting):
/// the contract states what holds either way.
pub trait AnyRingState: Sized {
    spec fn st_inv(&self) -> bool;

    spec fn st_count(&self) -> int;

    spec fn st_capacity() -> int;

    fn capacity() -> (r: usize)
        ensures
            r == Self::st_capacity(),
    ;

    fn is_empty(&self) -> (r: bool)
        requires
            self.st_inv(),
        ensures
            r == (Self::st_capacity() > 0 && self.st_count() == 0),
    ;

    fn is_full(&self) -> (r: bool)
        requires
            self.st_inv(),
        ensures
            r == (self.st_count() == Self::st_capacity()),
    ;

    fn count(&self) -> (r: usize)
        requires
            self.st_inv(),
        ensures
            r == self.st_count(),
    ;

    fn head(&self) -> usize;

    fn tail(&self) -> usize;

    fn will_pop_back(&mut self) -> (r: Result<usize, Error>)
        requires
            old(self).st_inv(),
        ensures
            final(self).st_inv(),
            old(self).st_count() == 0 ==> {
                &&& r matches Err(e) && e == Error::Empty
                &&& *final(self) == *old(self)
            },
            old(self).st_count() > 0 ==> {
                &&& r matches Ok(i) && i < Self::st_capacity()
                &&& final(self).st_count() == old(self).st_count() - 1
            },
    ;

    fn will_pop_front(&mut self) -> (r: Result<usize, Error>)
        requires
            old(self).st_inv(),
        ensures
            final(self).st_inv(),
            old(self).st_count() == 0 ==> {
                &&& r matches Err(e) && e == Error::Empty
                &&& *final(self) == *old(self)
            },
            old(self).st_count() > 0 ==> {
                &&& r matches Ok(i) && i < Self::st_capacity()
                &&& final(self).st_count() == old(self).st_count() - 1
            },
    ;

    fn will_push_back(&mut self) -> (r: Result<(usize, Push), Error>)
        requires
            old(self).st_inv(),
        ensures
            final(self).st_inv(),
            old(self).st_count() < Self::st_capacity() ==> {
                &&& r matches Ok(p) && p.1 == Push::WithinCapacity && p.0 < Self::st_capacity()
                &&& final(self).st_count() == old(self).st_count() + 1
            },
            old(self).st_count() == Self::st_capacity() ==> {
                ||| {
                    &&& r matches Err(e) && e == Error::Full
                    &&& *final(self) == *old(self)
                }
                ||| {
                    &&& r matches Ok(p) && p.1 == Push::Overwriting && p.0 < Self::st_capacity()
                    &&& final(self).st_count() == Self::st_capacity()
                }
            },
    ;

    fn will_push_front(&mut self) -> (r: Result<(usize, Push), Error>)
        requires
            old(self).st_inv(),
        ensures
            final(self).st_inv(),
            old(self).st_count() < Self::st_capacity() ==> {
                &&& r matches Ok(p) && p.1 == Push::WithinCapacity && p.0 < Self::st_capacity()
                &&& final(self).st_count() == old(self).st_count() + 1
            },
            old(self).st_count() == Self::st_capacity() ==> {
                ||| {
                    &&& r matches Err(e) && e == Error::Full
                    &&& *final(self) == *old(self)
                }
                ||| {
                    &&& r matches Ok(p) && p.1 == Push::Overwriting && p.0 < Self::st_capacity()
                    &&& final(self).st_count() == Self::st_capacity()
                }
            },
    ;
}

impl<const N: usize> AnyRingState for RingState<N, Saturating> {
    open spec fn st_inv(&self) -> bool {
        self.inv()
    }

    open spec fn st_count(&self) -> int {
        self.spec_count()
    }

    open spec fn st_capacity() -> int {
        N as int
    }

    fn capacity() -> usize {
        RingState::<N, Saturating>::capacity()
    }

    fn is_empty(&self) -> bool {
        RingState::is_empty(self)
    }

    fn is_full(&self) -> bool {
        RingState::is_full(self)
    }

    fn count(&self) -> usize {
        RingState::count(self)
    }

    fn head(&self) -> usize {
        RingState::head(self)
    }

    fn tail(&self) -> usize {
        RingState::tail(self)
    }

    fn will_pop_back(&mut self) -> Result<usize, Error> {
        RingState::will_pop_back(self)
    }

    fn will_pop_front(&mut self) -> Result<usize, Error> {
        RingState::will_pop_front(self)
    }

    fn will_push_back(&mut self) -> Result<(usize, Push), Error> {
        match RingState::<N, Saturating>::will_push_back(self) {
            Ok(i) => Ok((i, Push::WithinCapacity)),
            Err(e) => Err(e),
        }
    }

    fn will_push_front(&mut self) -> Result<(usize, Push), Error> {
        match RingState::<N, Saturating>::will_push_front(self) {
            Ok(i) => Ok((i, Push::WithinCapacity)),
            Err(e) => Err(e),
        }
    }
}

impl<const N: usize> AnyRingState for RingState<N, Overwriting> {
    open spec fn st_inv(&self) -> bool {
        self.inv()
    }

    open spec fn st_count(&self) -> int {
        self.spec_count()
    }

    open spec fn st_capacity() -> int {
        N as int
    }

    fn capacity() -> usize {
        RingState::<N, Overwriting>::capacity()
    }

    fn is_empty(&self) -> bool {
        RingState::is_empty(self)
    }

    fn is_full(&self) -> bool {
        RingState::is_full(self)
    }

    fn count(&self) -> usize {
        RingState::count(self)
    }

    fn head(&self) -> usize {
        RingState::head(self)
    }

    fn tail(&self) -> usize {
        RingState::tail(self)
    }

    fn will_pop_back(&mut self) -> Result<usize, Error> {
        RingState::will_pop_back(self)
    }

    fn will_pop_front(&mut self) -> Result<usize, Error> {
        RingState::will_pop_front(self)
    }

    fn will_push_back(&mut self) -> Result<(usize, Push), Error> {
        if N == 0 {
            Err(Error::Full)
        } else {
            Ok(RingState::<N, Overwriting>::will_push_back(self))
        }
    }

    fn will_push_front(&mut self) -> Result<(usize, Push), Error> {
        if N == 0 {
            Err(Error::Full)
        } else {
            Ok(RingState::<N, Overwriting>::will_push_front(self))
        }
    }
}

} // verus!
