//! A fixed-capacity circular buffer over an array of maybe-initialized slots.
//!
//! The slot array may legitimately hold vacant cells beyond the logical
//! occupancy; every read and write is gated by the `RingState` bookkeeping,
//! never by inspecting cell contents.  The view of a buffer is the sequence
//! of its elements in logical front-to-back order.

use vstd::prelude::*;

use crate::ring_state::{Behavior, Error, Overwriting, Push, RingState, Saturating};

verus! {

/// The subsequence of `s` at the positions marked true in `keep`,
/// in unchanged order.
pub open spec fn filter_by<T>(s: Seq<T>, keep: Seq<bool>) -> Seq<T>
    recommends
        s.len() == keep.len(),
    decreases s.len(),
{
    if s.len() == 0 {
        Seq::empty()
    } else if keep[s.len() - 1] {
        filter_by(s.drop_last(), keep.drop_last()).push(s.last())
    } else {
        filter_by(s.drop_last(), keep.drop_last())
    }
}

/// The decisions a predicate `f` can make about the elements of `s`:
/// one boolean per element, each a possible result of calling `f` on it.
pub open spec fn retain_decides<T, F: Fn(&T) -> bool>(f: F, s: Seq<T>, keep: Seq<bool>) -> bool {
    &&& keep.len() == s.len()
    &&& forall|k: int| 0 <= k < keep.len() ==> call_ensures(f, (&s[k],), keep[k])
}

/// The last `n` elements of `s`, or all of `s` when it is shorter.
pub open spec fn last_n<T>(s: Seq<T>, n: int) -> Seq<T> {
    if s.len() <= n {
        s
    } else {
        s.subrange(s.len() - n, s.len() as int)
    }
}

/// A keep mask that marks every position keeps the whole sequence.
pub proof fn lemma_filter_by_all_true<T>(s: Seq<T>, keep: Seq<bool>)
    requires
        keep.len() == s.len(),
        forall|k: int| 0 <= k < keep.len() ==> keep[k],
    ensures
        filter_by(s, keep) == s,
    decreases s.len(),
{
    if s.len() > 0 {
        lemma_filter_by_all_true(s.drop_last(), keep.drop_last());
    }
    assert(filter_by(s, keep) =~= s);
}

/// `retain` is idempotent under a predicate that accepts everything: every
/// keep decision such a predicate can make is true, so the contents and
/// their order are unchanged.
pub proof fn lemma_retain_accept_all<T, F: Fn(&T) -> bool>(f: F, s: Seq<T>, keep: Seq<bool>)
    requires
        forall|t: &T, b: bool| call_ensures(f, (t,), b) ==> b,
        retain_decides(f, s, keep),
    ensures
        filter_by(s, keep) == s,
{
    assert forall|k: int| 0 <= k < keep.len() implies keep[k] by {
        assert(call_ensures(f, (&s[k],), keep[k]));
    }
    lemma_filter_by_all_true(s, keep);
}

pub struct Ring<T, const N: usize, B: Behavior> {
    data: Vec<Option<T>>,
    state: RingState<N, B>,
}

impl<T, const N: usize, B: Behavior> View for Ring<T, N, B> {
    type V = Seq<T>;

    /// The elements in logical front-to-back order.
    closed spec fn view(&self) -> Seq<T> {
        Seq::new(
            self.state.spec_count() as nat,
            |k: int| self.data@[self.state.slot_at(k)]->0,
        )
    }
}

impl<T, const N: usize, B: Behavior> Ring<T, N, B> {
    /// Well-formedness: the bookkeeping is valid, there is one cell per slot,
    /// and every logically occupied slot actually holds an element.
    pub closed spec fn wf(&self) -> bool {
        &&& self.state.inv()
        &&& self.data@.len() == N
        &&& forall|k: int|
            0 <= k < self.state.spec_count() ==> self.data@[self.state.slot_at(k)] is Some
    }

    /// A well-formed buffer never holds more than its capacity.
    pub proof fn lemma_len_bounded(&self)
        requires
            self.wf(),
        ensures
            self@.len() <= N,
    {
        self.state.lemma_count_bounds();
    }

    pub fn capacity() -> (r: usize)
        ensures
            r == N,
    {
        RingState::<N, B>::capacity()
    }

    pub fn is_empty(&self) -> (r: bool)
        requires
            self.wf(),
        ensures
            r == (N > 0 && self@.len() == 0),
    {
        self.state.is_empty()
    }

    pub fn is_full(&self) -> (r: bool)
        requires
            self.wf(),
        ensures
            r == (self@.len() == N),
    {
        proof {
            self.state.lemma_count_bounds();
        }
        self.state.is_full()
    }

    pub fn count(&self) -> (r: usize)
        requires
            self.wf(),
        ensures
            r == self@.len(),
    {
        proof {
            self.state.lemma_count_bounds();
        }
        self.state.count()
    }

    /// A shared borrow of the front element.
    pub fn first(&self) -> (r: Option<&T>)
        requires
            self.wf(),
        ensures
            self@.len() == 0 ==> r is None,
            self@.len() > 0 ==> (r matches Some(v) && *v == self@[0]),
    {
        if self.count() > 0 {
            let i = self.state.head();
            proof {
                assert(self.data@[self.state.slot_at(0)] is Some);
                assert(self@[0] == self.data@[self.state.slot_at(0)]->0);
            }
            match &self.data[i] {
                Some(v) => Some(v),
                None => unreached(),
            }
        } else {
            None
        }
    }

    /// A shared borrow of the back element.
    pub fn last(&self) -> (r: Option<&T>)
        requires
            self.wf(),
        ensures
            self@.len() == 0 ==> r is None,
            self@.len() > 0 ==> (r matches Some(v) && *v == self@[self@.len() - 1]),
    {
        let c = self.count();
        if c > 0 {
            let i = match self.state.index(c - 1) {
                Some(i) => i,
                None => unreached(),
            };
            match &self.data[i] {
                Some(v) => Some(v),
                None => unreached(),
            }
        } else {
            None
        }
    }

    /// A mutable borrow of the back element.
    pub fn last_mut(&mut self) -> (r: Option<&mut T>)
        requires
            old(self).wf(),
        ensures
            old(self)@.len() == 0 ==> r is None && *final(self) == *old(self),
            old(self)@.len() > 0 ==> {
                &&& r is Some
                &&& *r.unwrap() == old(self)@.last()
                &&& final(self).wf()
                &&& final(self)@ == old(self)@.update(
                    old(self)@.len() - 1,
                    *final(r.unwrap()),
                )
            },
    {
        let c = self.count();
        if c > 0 {
            Some(self.index_mut(c - 1))
        } else {
            None
        }
    }

    /// A shared borrow of the element at logical position `index`.
    pub fn index(&self, index: usize) -> (r: &T)
        requires
            self.wf(),
            index < self@.len(),
        ensures
            *r == self@[index as int],
    {
        let i = match self.state.index(index) {
            Some(i) => i,
            None => unreached(),
        };
        match &self.data[i] {
            Some(v) => Some(v),
            None => unreached(),
        }.unwrap()
    }

    /// A mutable borrow of the element at logical position `index`.
    pub fn index_mut(&mut self, index: usize) -> (r: &mut T)
        requires
            old(self).wf(),
            index < old(self)@.len(),
        ensures
            *r == old(self)@[index as int],
            final(self).wf(),
            final(self)@ == old(self)@.update(index as int, *final(r)),
    {
        let ghost pre = *self;
        let i = match self.state.index(index) {
            Some(i) => i,
            None => unreached(),
        };
        let slot = &mut self.data[i];
        let r = match slot.as_mut() {
            Some(v) => v,
            None => unreached(),
        };
        proof {
            assert forall|k: int| 0 <= k < pre.state.spec_count() && k != index implies pre.state.slot_at(
                k,
            ) != i as int by {
                pre.state.lemma_count_bounds();
                pre.state.lemma_slot_at_injective(k, index as int);
            }
        }
        r
    }


    /// Visits the elements front to back, keeps those satisfying the
    /// predicate in their relative order, compacting the occupied slots in
    /// place by neighbour shifting; removed elements are dropped.
    pub fn retain<F: Fn(&T) -> bool>(&mut self, f: F)
        requires
            old(self).wf(),
            forall|t: &T| call_requires(f, (t,)),
        ensures
            final(self).wf(),
            exists|keep: Seq<bool>| #![trigger retain_decides(f, old(self)@, keep)]
                retain_decides(f, old(self)@, keep) && final(self)@ == filter_by(
                    old(self)@,
                    keep,
                ),
    {
        let ghost pre = *self;
        let total = self.count();
        let mut kept: usize = 0;
        let mut removed: usize = 0;
        let ghost mut keep: Seq<bool> = Seq::empty();
        proof {
            pre.state.lemma_count_bounds();
            assert(pre@.take(0) =~= Seq::<T>::empty());
        }
        while kept + removed < total
            invariant
                forall|t: &T| call_requires(f, (t,)),
                pre.wf(),
                total == pre@.len(),
                self.state == pre.state,
                self.data@.len() == N,
                total <= N,
                kept + removed <= total,
                keep.len() == kept + removed,
                kept == filter_by(pre@.take((kept + removed) as int), keep).len(),
                forall|k: int| 0 <= k < keep.len() ==> call_ensures(f, (&pre@[k],), keep[k]),
                forall|k: int|
                    0 <= k < kept ==> self.data@[self.state.slot_at(k)] == Some(
                        filter_by(pre@.take((kept + removed) as int), keep)[k],
                    ),
                forall|k: int|
                    kept + removed <= k < total ==> self.data@[self.state.slot_at(k)] == Some(
                        pre@[k],
                    ),
            decreases total - kept - removed,
        {
            let ghost visited = (kept + removed) as int;
            let ghost keep0 = keep;
            let ghost filtered0 = filter_by(pre@.take(visited), keep0);
            let src = match self.state.index(kept + removed) {
                Some(i) => i,
                None => unreached(),
            };
            let keep_it = match &self.data[src] {
                Some(x) => f(x),
                None => unreached(),
            };
            proof {
                keep = keep.push(keep_it);
                assert(pre@.take(visited + 1).drop_last() =~= pre@.take(visited));
                assert(keep.drop_last() =~= keep0);
                assert(pre@.take(visited + 1).last() == pre@[visited]);
            }
            if keep_it {
                if removed > 0 {
                    let v = {
                        let slot = &mut self.data[src];
                        slot.take()
                    };
                    let dst = match self.state.index(kept) {
                        Some(i) => i,
                        None => unreached(),
                    };
                    let slot2 = &mut self.data[dst];
                    *slot2 = v;
                    proof {
                        assert forall|k: int|
                            0 <= k < N && k != kept && k != visited implies self.state.slot_at(k)
                            != self.state.slot_at(kept as int) && self.state.slot_at(k)
                            != self.state.slot_at(visited) by {
                            self.state.lemma_slot_at_injective(k, kept as int);
                            self.state.lemma_slot_at_injective(k, visited);
                        }
                        assert(self.state.slot_at(kept as int) != self.state.slot_at(visited)) by {
                            self.state.lemma_slot_at_injective(kept as int, visited);
                        }
                        assert(self.data@[self.state.slot_at(kept as int)] == Some(pre@[visited]));
                    }
                }
                kept += 1;
                proof {
                    assert(filter_by(pre@.take(visited + 1), keep) =~= filtered0.push(
                        pre@[visited],
                    ));
                }
            } else {
                let slot = &mut self.data[src];
                let _ = slot.take();
                removed += 1;
                proof {
                    assert forall|k: int| 0 <= k < N && k != visited implies self.state.slot_at(k)
                        != self.state.slot_at(visited) by {
                        self.state.lemma_slot_at_injective(k, visited);
                    }
                    assert(filter_by(pre@.take(visited + 1), keep) =~= filtered0);
                }
            }
        }
        proof {
            assert(pre@.take(total as int) =~= pre@);
        }
        let ghost filtered = filter_by(pre@, keep);
        let mut j: usize = 0;
        while j < removed
            invariant
                j <= removed,
                kept + removed == total,
                total <= N,
                kept == filtered.len(),
                self.data@.len() == N,
                self.state.inv(),
                self.state.spec_count() == total - j,
                forall|k: int| 0 <= k < N ==> self.state.slot_at(k) == pre.state.slot_at(k),
                forall|k: int|
                    0 <= k < kept ==> self.data@[self.state.slot_at(k)] == Some(filtered[k]),
            decreases removed - j,
        {
            let _ = self.state.will_pop_back();
            j += 1;
        }
        proof {
            assert(self@ =~= filtered);
            assert(retain_decides(f, pre@, keep));
            assert forall|k: int|
                0 <= k < self.state.spec_count() implies self.data@[self.state.slot_at(k)]
                is Some by {
                assert(self.data@[self.state.slot_at(k)] == Some(filtered[k]));
            }
            assert(self.wf());
        }
    }

    /// Removes and returns the back element, or `Empty` if there is none.
    pub fn pop(&mut self) -> (r: Result<T, Error>)
        requires
            old(self).wf(),
        ensures
            final(self).wf(),
            old(self)@.len() == 0 ==> {
                &&& r matches Err(e) && e == Error::Empty
                &&& final(self)@ == old(self)@
            },
            old(self)@.len() > 0 ==> {
                &&& r matches Ok(v) && v == old(self)@.last()
                &&& final(self)@ == old(self)@.drop_last()
            },
    {
        let ghost pre = *self;
        match self.state.will_pop_back() {
            Ok(i) => {
                let slot = &mut self.data[i];
                let v = slot.take();
                proof {
                    assert forall|k: int| 0 <= k < self.state.spec_count() implies self.data@[self.state.slot_at(
                        k,
                    )] == pre.data@[pre.state.slot_at(k)] by {
                        pre.state.lemma_count_bounds();
                        pre.state.lemma_slot_at_injective(k, pre.state.spec_count() - 1);
                    }
                    assert(self@ =~= pre@.drop_last());
                }
                match v {
                    Some(x) => Ok(x),
                    None => unreached(),
                }
            },
            Err(e) => Err(e),
        }
    }

    /// Removes and returns the front element, or `Empty` if there is none.
    pub fn pop_front(&mut self) -> (r: Result<T, Error>)
        requires
            old(self).wf(),
        ensures
            final(self).wf(),
            old(self)@.len() == 0 ==> {
                &&& r matches Err(e) && e == Error::Empty
                &&& final(self)@ == old(self)@
            },
            old(self)@.len() > 0 ==> {
                &&& r matches Ok(v) && v == old(self)@[0]
                &&& final(self)@ == old(self)@.subrange(1, old(self)@.len() as int)
            },
    {
        let ghost pre = *self;
        match self.state.will_pop_front() {
            Ok(i) => {
                let slot = &mut self.data[i];
                let v = slot.take();
                proof {
                    assert forall|k: int| 0 <= k < self.state.spec_count() implies self.data@[self.state.slot_at(
                        k,
                    )] == pre.data@[pre.state.slot_at(k + 1)] by {
                        pre.state.lemma_count_bounds();
                        pre.state.lemma_slot_at_injective(k + 1, 0);
                    }
                    assert(self@ =~= pre@.subrange(1, pre@.len() as int));
                }
                match v {
                    Some(x) => Ok(x),
                    None => unreached(),
                }
            },
            Err(e) => Err(e),
        }
    }
}

impl<T, const N: usize> Ring<T, N, Saturating> {
    /// Appends `value` at the back; fails with `Full`, mutating nothing,
    /// when the buffer already holds `N` elements.
    pub fn push(&mut self, value: T) -> (r: Result<(), Error>)
        requires
            old(self).wf(),
        ensures
            final(self).wf(),
            old(self)@.len() == N ==> {
                &&& r matches Err(e) && e == Error::Full
                &&& final(self)@ == old(self)@
            },
            old(self)@.len() < N ==> {
                &&& r is Ok
                &&& final(self)@ == old(self)@.push(value)
            },
    {
        let ghost pre = *self;
        match self.state.will_push_back() {
            Ok(i) => {
                let slot = &mut self.data[i];
                *slot = Some(value);
                proof {
                    assert forall|k: int| 0 <= k < pre.state.spec_count() implies self.data@[self.state.slot_at(
                        k,
                    )] == pre.data@[pre.state.slot_at(k)] by {
                        pre.state.lemma_count_bounds();
                        pre.state.lemma_slot_at_injective(k, pre.state.spec_count());
                    }
                    assert(self@ =~= pre@.push(value));
                }
                Ok(())
            },
            Err(e) => Err(e),
        }
    }

    /// Inserts `value` at the front; fails with `Full`, mutating nothing,
    /// when the buffer already holds `N` elements.
    pub fn push_front(&mut self, value: T) -> (r: Result<(), Error>)
        requires
            old(self).wf(),
        ensures
            final(self).wf(),
            old(self)@.len() == N ==> {
                &&& r matches Err(e) && e == Error::Full
                &&& final(self)@ == old(self)@
            },
            old(self)@.len() < N ==> {
                &&& r is Ok
                &&& final(self)@ == seq![value] + old(self)@
            },
    {
        let ghost pre = *self;
        match self.state.will_push_front() {
            Ok(i) => {
                let slot = &mut self.data[i];
                *slot = Some(value);
                proof {
                    assert forall|k: int| 1 <= k < self.state.spec_count() implies self.data@[self.state.slot_at(
                        k,
                    )] == pre.data@[pre.state.slot_at(k - 1)] by {
                        pre.state.lemma_count_bounds();
                        self.state.lemma_slot_at_injective(k, 0);
                    }
                    assert(self@ =~= seq![value] + pre@);
                }
                Ok(())
            },
            Err(e) => Err(e),
        }
    }

    /// Pushes the items in order until one no longer fits; the first failure
    /// is returned and the items already pushed stay in the buffer.
    #[verifier::loop_isolation(false)]
    pub fn append(&mut self, items: Vec<T>) -> (r: Result<(), Error>)
        requires
            old(self).wf(),
        ensures
            final(self).wf(),
            old(self)@.len() + items@.len() <= N ==> {
                &&& r is Ok
                &&& final(self)@ == old(self)@ + items@
            },
            old(self)@.len() + items@.len() > N ==> {
                &&& r matches Err(e) && e == Error::Full
                &&& final(self)@ == old(self)@ + items@.take(N - old(self)@.len())
            },
    {
        let ghost pre_view = self@;
        let ghost all = items@;
        let mut rest = items;
        proof {
            old(self).lemma_len_bounded();
            assert(pre_view + all.take(0) =~= pre_view);
        }
        while rest.len() > 0
            invariant
                self.wf(),
                all.len() >= rest@.len(),
                rest@ == all.skip(all.len() - rest@.len()),
                self@ == pre_view + all.take(all.len() - rest@.len()),
                self@.len() == pre_view.len() + all.len() - rest@.len(),
            decreases rest@.len(),
        {
            let ghost j = all.len() - rest@.len();
            let item = rest.remove(0);
            proof {
                self.lemma_len_bounded();
                assert(item == all[j]);
                assert(rest@ =~= all.skip(j + 1));
                assert(all.take(j + 1) =~= all.take(j).push(all[j]));
                assert(pre_view + all.take(j + 1) =~= (pre_view + all.take(j)).push(all[j]));
            }
            match self.push(item) {
                Ok(_) => {},
                Err(e) => {
                    proof {
                        assert(all.take(j) =~= all.take(N - pre_view.len()));
                    }
                    return Err(e);
                },
            }
        }
        proof {
            self.lemma_len_bounded();
            assert(all.take(all.len() as int) =~= all);
        }
        Ok(())
    }
}

impl<T, const N: usize> Ring<T, N, Overwriting> {
    /// Appends `value` at the back; when the buffer was full, the displaced
    /// front element is handed back to the caller for proper disposal.
    pub fn push(&mut self, value: T) -> (r: Result<Option<T>, Error>)
        requires
            old(self).wf(),
            N >= 1,
        ensures
            final(self).wf(),
            r is Ok,
            old(self)@.len() < N ==> {
                &&& r matches Ok(d) && d is None
                &&& final(self)@ == old(self)@.push(value)
            },
            old(self)@.len() == N ==> {
                &&& r matches Ok(d) && d == Some(old(self)@[0])
                &&& final(self)@ == old(self)@.subrange(1, N as int).push(value)
            },
    {
        let ghost pre = *self;
        let (i, push) = self.state.will_push_back();
        let displaced = match push {
            Push::WithinCapacity => None,
            Push::Overwriting => {
                let slot = &mut self.data[i];
                slot.take()
            },
        };
        let slot = &mut self.data[i];
        *slot = Some(value);
        proof {
            pre.state.lemma_count_bounds();
            if pre.state.spec_count() < N {
                assert forall|k: int| 0 <= k < pre.state.spec_count() implies self.data@[self.state.slot_at(
                    k,
                )] == pre.data@[pre.state.slot_at(k)] by {
                    pre.state.lemma_slot_at_injective(k, pre.state.spec_count());
                }
                assert(self@ =~= pre@.push(value));
            } else {
                assert forall|k: int| 0 <= k < N - 1 implies self.data@[self.state.slot_at(k)]
                    == pre.data@[pre.state.slot_at(k + 1)] by {
                    pre.state.lemma_slot_at_injective(k + 1, 0);
                }
                assert(self@ =~= pre@.subrange(1, N as int).push(value));
            }
        }
        Ok(displaced)
    }

    /// Inserts `value` at the front; when the buffer was full, the displaced
    /// back element is handed back to the caller for proper disposal.
    pub fn push_front(&mut self, value: T) -> (r: Result<Option<T>, Error>)
        requires
            old(self).wf(),
            N >= 1,
        ensures
            final(self).wf(),
            r is Ok,
            old(self)@.len() < N ==> {
                &&& r matches Ok(d) && d is None
                &&& final(self)@ == seq![value] + old(self)@
            },
            old(self)@.len() == N ==> {
                &&& r matches Ok(d) && d == Some(old(self)@[N - 1])
                &&& final(self)@ == seq![value] + old(self)@.subrange(0, N - 1)
            },
    {
        let ghost pre = *self;
        let (i, push) = self.state.will_push_front();
        let displaced = match push {
            Push::WithinCapacity => None,
            Push::Overwriting => {
                let slot = &mut self.data[i];
                slot.take()
            },
        };
        let slot = &mut self.data[i];
        *slot = Some(value);
        proof {
            pre.state.lemma_count_bounds();
            if pre.state.spec_count() < N {
                assert forall|k: int| 1 <= k < self.state.spec_count() implies self.data@[self.state.slot_at(
                    k,
                )] == pre.data@[pre.state.slot_at(k - 1)] by {
                    self.state.lemma_slot_at_injective(k, 0);
                }
                assert(self@ =~= seq![value] + pre@);
            } else {
                assert forall|k: int| 1 <= k < N implies self.data@[self.state.slot_at(k)]
                    == pre.data@[pre.state.slot_at(k - 1)] by {
                    self.state.lemma_slot_at_injective(k, 0);
                }
                assert(self@ =~= seq![value] + pre@.subrange(0, N - 1));
            }
        }
        Ok(displaced)
    }

    /// Pushes the items in order; elements displaced once the capacity is
    /// exhausted are dropped, so the buffer keeps the most recent `N`.
    #[verifier::loop_isolation(false)]
    pub fn append(&mut self, items: Vec<T>)
        requires
            old(self).wf(),
            N >= 1,
        ensures
            final(self).wf(),
            final(self)@ == last_n(old(self)@ + items@, N as int),
    {
        let ghost pre_view = self@;
        let ghost all = items@;
        let mut rest = items;
        proof {
            old(self).lemma_len_bounded();
            assert(pre_view + all.take(0) =~= pre_view);
            assert(last_n(pre_view + all.take(0), N as int) == pre_view);
        }
        while rest.len() > 0
            invariant
                self.wf(),
                N >= 1,
                all.len() >= rest@.len(),
                rest@ == all.skip(all.len() - rest@.len()),
                self@ == last_n(pre_view + all.take(all.len() - rest@.len()), N as int),
            decreases rest@.len(),
        {
            let ghost j = all.len() - rest@.len();
            let ghost concat = pre_view + all.take(j);
            let item = rest.remove(0);
            proof {
                assert(item == all[j]);
                assert(rest@ =~= all.skip(j + 1));
                assert(all.take(j + 1) =~= all.take(j).push(all[j]));
                assert(pre_view + all.take(j + 1) =~= concat.push(all[j]));
                self.lemma_len_bounded();
            }
            let _ = self.push(item);
            proof {
                if concat.len() < N {
                    assert(self@ =~= last_n(concat.push(all[j]), N as int));
                } else {
                    assert(self@ =~= last_n(concat.push(all[j]), N as int));
                }
            }
        }
        proof {
            assert(all.take(all.len() as int) =~= all);
        }
    }
}

impl<T, const N: usize, B: Behavior> Default for Ring<T, N, B> {
    /// The empty buffer, with every slot vacant.
    fn default() -> (r: Self)
        ensures
            r.wf(),
            r@ == Seq::<T>::empty(),
    {
        let mut data: Vec<Option<T>> = Vec::new();
        let mut i: usize = 0;
        while i < N
            invariant
                i <= N,
                data@.len() == i,
            decreases N - i,
        {
            data.push(None);
            i += 1;
        }
        let r = Ring { data, state: RingState::default() };
        proof {
            assert(r@ =~= Seq::<T>::empty());
        }
        r
    }
}

} // verus!
