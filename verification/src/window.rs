//! A fixed-size sample window: a ring that always holds exactly `N` values
//! and overwrites the oldest on every push.  Its view lists the values oldest
//! first, so the most recent `N` samples can be read in arrival order.

use vstd::prelude::*;

verus! {

pub struct Ring<T, const N: usize> {
    pub data: Vec<T>,
    end: usize,
}

impl<T, const N: usize> View for Ring<T, N> {
    type V = Seq<T>;

    /// The stored values, oldest first.
    closed spec fn view(&self) -> Seq<T> {
        self.data@.skip(self.spec_end() as int) + self.data@.take(self.spec_end() as int)
    }
}

impl<T, const N: usize> Ring<T, N> {
    /// The slot the next push writes to, which holds the oldest value.
    pub closed spec fn spec_end(&self) -> usize {
        self.end
    }

    pub closed spec fn wf(&self) -> bool {
        &&& self.data@.len() == N
        &&& if N == 0 {
            self.spec_end() == 0
        } else {
            self.spec_end() < N
        }
    }

    pub fn new(data: Vec<T>) -> (r: Self)
        requires
            data@.len() == N,
        ensures
            r.wf(),
            r.spec_end() == 0,
            r@ == data@,
    {
        let r = Ring { data, end: 0 };
        proof {
            assert(r@ =~= r.data@);
        }
        r
    }

    /// Overwrites the oldest value with `value` and moves the write position
    /// on, so the window keeps the most recent `N` values in arrival order.
    pub fn push(&mut self, value: T)
        requires
            old(self).wf(),
            N >= 1,
        ensures
            final(self).wf(),
            final(self)@ == old(self)@.subrange(1, N as int).push(value),
            final(self).spec_end() == if old(self).spec_end() + 1 < N {
                old(self).spec_end() + 1 as int
            } else {
                0
            },
    {
        let ghost pre = *self;
        let slot = &mut self.data[self.end];
        *slot = value;
        self.end = if self.end + 1 < N {
            self.end + 1
        } else {
            0
        };
        proof {
            assert(self@ =~= pre@.subrange(1, N as int).push(value));
        }
    }
}

impl<T: Copy, const N: usize> Ring<T, N> {
    /// The stored values, oldest first, as a fresh vector.
    pub fn iter(&self) -> (r: Vec<T>)
        requires
            self.wf(),
        ensures
            r@ == self@,
    {
        let mut out: Vec<T> = Vec::new();
        let mut i = self.end;
        while i < N
            invariant
                self.wf(),
                self.spec_end() <= i <= N,
                out@ == self.data@.subrange(self.spec_end() as int, i as int),
            decreases N - i,
        {
            out.push(self.data[i]);
            proof {
                assert(out@ =~= self.data@.subrange(self.spec_end() as int, i + 1));
            }
            i += 1;
        }
        let mut j: usize = 0;
        while j < self.end
            invariant
                self.wf(),
                j <= self.spec_end(),
                out@ == self.data@.skip(self.spec_end() as int) + self.data@.subrange(
                    0,
                    j as int,
                ),
            decreases self.spec_end() - j,
        {
            out.push(self.data[j]);
            proof {
                assert(out@ =~= self.data@.skip(self.spec_end() as int) + self.data@.subrange(
                    0,
                    j + 1,
                ));
            }
            j += 1;
        }
        proof {
            assert(out@ =~= self@);
        }
        out
    }
}

impl<T: Copy + Default, const N: usize> Default for Ring<T, N> {
    /// A window of `N` copies of the type's default value.
    fn default() -> (r: Self)
        ensures
            r.wf(),
            r@.len() == N,
            r.spec_end() == 0,
            forall|i: int, j: int| 0 <= i < N && 0 <= j < N ==> r@[i] == r@[j],
    {
        let d = T::default();
        let mut data: Vec<T> = Vec::new();
        let mut i: usize = 0;
        while i < N
            invariant
                i <= N,
                data@ =~= Seq::new(i as nat, |k: int| d),
            decreases N - i,
        {
            data.push(d);
            proof {
                assert(data@ =~= Seq::new((i + 1) as nat, |k: int| d));
            }
            i += 1;
        }
        let r = Ring { data, end: 0 };
        proof {
            assert(r@ =~= data@);
        }
        r
    }
}

} // verus!
