//! A fixed-size sample window that also remembers whether it has wrapped at
//! least once, i.e. whether every slot has been written since the last reset.
//! A reading (an average, say) is only meaningful once the window is filled.

use vstd::prelude::*;

verus! {

#[derive(Debug)]
pub struct SimpleRing<T, const N: usize> {
    pub data: Vec<T>,
    end: usize,
    is_filled: bool,
}

impl<T, const N: usize> View for SimpleRing<T, N> {
    type V = Seq<T>;

    /// The stored values, oldest first.
    closed spec fn view(&self) -> Seq<T> {
        self.data@.skip(self.spec_end() as int) + self.data@.take(self.spec_end() as int)
    }
}

impl<T, const N: usize> SimpleRing<T, N> {
    /// The slot the next push writes to.
    pub closed spec fn spec_end(&self) -> usize {
        self.end
    }

    /// Whether the write position has wrapped since the last reset.
    pub closed spec fn spec_is_filled(&self) -> bool {
        self.is_filled
    }

    pub closed spec fn wf(&self) -> bool {
        &&& self.data@.len() == N
        &&& if N == 0 {
            self.spec_end() == 0
        } else {
            self.spec_end() < N
        }
    }

    pub fn is_filled(&self) -> (r: bool)
        ensures
            r == self.spec_is_filled(),
    {
        self.is_filled
    }

    /// Writes `value` into every slot and marks the window unfilled again.
    pub fn reset(&mut self, value: T) where T: Copy
        requires
            old(self).wf(),
        ensures
            final(self).wf(),
            final(self)@.len() == N,
            forall|k: int| 0 <= k < N ==> final(self)@[k] == value,
            !final(self).spec_is_filled(),
            final(self).spec_end() == old(self).spec_end(),
    {
        let mut i: usize = 0;
        while i < N
            invariant
                old(self).wf(),
                self.data@.len() == N,
                self.spec_end() == old(self).spec_end(),
                self.is_filled == old(self).is_filled,
                i <= N,
                forall|k: int| 0 <= k < i ==> self.data@[k] == value,
            decreases N - i,
        {
            let slot = &mut self.data[i];
            *slot = value;
            i += 1;
        }
        self.is_filled = false;
    }

    /// Overwrites the oldest value and moves the write position on; the
    /// window counts as filled once the position wraps for the first time.
    pub fn push(&mut self, value: T)
        requires
            old(self).wf(),
            N >= 1,
        ensures
            final(self).wf(),
            final(self)@ == old(self)@.subrange(1, N as int).push(value),
            final(self).spec_end() == if old(self).spec_end() + 1 < N {
                old(self).spec_end() + 1 as int
            } else {
                0
            },
            final(self).spec_is_filled() == (old(self).spec_is_filled() || old(self).spec_end()
                == N - 1),
    {
        let ghost pre = *self;
        let slot = &mut self.data[self.end];
        *slot = value;
        self.advance_end();
        proof {
            assert(self@ =~= pre@.subrange(1, N as int).push(value));
        }
    }

    /// Moves the write position on one slot, wrapping at the capacity, and
    /// latches the filled flag on wraparound.
    fn advance_end(&mut self)
        requires
            old(self).wf(),
            N >= 1,
        ensures
            final(self).data == old(self).data,
            final(self).wf(),
            final(self).spec_end() == if old(self).spec_end() + 1 < N {
                old(self).spec_end() + 1 as int
            } else {
                0
            },
            final(self).spec_is_filled() == (old(self).spec_is_filled() || old(self).spec_end()
                == N - 1),
    {
        let new_end = if self.end + 1 < N {
            self.end + 1
        } else {
            0
        };
        if !self.is_filled && new_end <= self.end {
            self.is_filled = true;
        }
        self.end = new_end;
    }
}

impl<T: Copy, const N: usize> SimpleRing<T, N> {
    /// The stored values, oldest first, as a fresh vector.
    pub fn iter(&self) -> (r: Vec<T>)
        requires
            self.wf(),
        ensures
            r@ == self@,
    {
        let mut out: Vec<T> = Vec::new();
        let mut i = self.end;
        while i < N
            invariant
                self.wf(),
                self.spec_end() <= i <= N,
                out@ == self.data@.subrange(self.spec_end() as int, i as int),
            decreases N - i,
        {
            out.push(self.data[i]);
            proof {
                assert(out@ =~= self.data@.subrange(self.spec_end() as int, i + 1));
            }
            i += 1;
        }
        let mut j: usize = 0;
        while j < self.end
            invariant
                self.wf(),
                j <= self.spec_end(),
                out@ == self.data@.skip(self.spec_end() as int) + self.data@.subrange(
                    0,
                    j as int,
                ),
            decreases self.spec_end() - j,
        {
            out.push(self.data[j]);
            proof {
                assert(out@ =~= self.data@.skip(self.spec_end() as int) + self.data@.subrange(
                    0,
                    j + 1,
                ));
            }
            j += 1;
        }
        proof {
            assert(out@ =~= self@);
        }
        out
    }
}

impl<T: Copy + Default, const N: usize> Default for SimpleRing<T, N> {
    /// An unfilled window of `N` copies of the type's default value.
    fn default() -> (r: Self)
        ensures
            r.wf(),
            r@.len() == N,
            r.spec_end() == 0,
            !r.spec_is_filled(),
            forall|i: int, j: int| 0 <= i < N && 0 <= j < N ==> r@[i] == r@[j],
    {
        let d = T::default();
        let mut data: Vec<T> = Vec::new();
        let mut i: usize = 0;
        while i < N
            invariant
                i <= N,
                data@ =~= Seq::new(i as nat, |k: int| d),
            decreases N - i,
        {
            data.push(d);
            proof {
                assert(data@ =~= Seq::new((i + 1) as nat, |k: int| d));
            }
            i += 1;
        }
        let r = SimpleRing { data, end: 0, is_filled: false };
        proof {
            assert(r@ =~= data@);
        }
        r
    }
}

} // verus!
