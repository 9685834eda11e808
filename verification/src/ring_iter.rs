//! A lazy, restartable cursor over the elements of a ring buffer, in logical
//! front-to-back order.  It borrows the buffer for its whole lifetime, so no
//! mutating operation can be interleaved with the traversal.

use vstd::prelude::*;

use crate::ring::Ring;
use crate::ring_state::Behavior;

verus! {

pub struct RingIter<'a, T, const N: usize, B: Behavior> {
    ring: &'a Ring<T, N, B>,
    index: usize,
}

impl<'a, T, const N: usize, B: Behavior> RingIter<'a, T, N, B> {
    pub closed spec fn wf(&self) -> bool {
        &&& self.ring.wf()
        &&& self.index <= self.ring@.len()
    }

    /// The elements not yet visited, front first.
    pub closed spec fn remaining(&self) -> Seq<T> {
        self.ring@.skip(self.index as int)
    }

    pub fn new(ring: &'a Ring<T, N, B>) -> (r: Self)
        requires
            ring.wf(),
        ensures
            r.wf(),
            r.remaining() == ring@,
    {
        let r = RingIter { ring, index: 0 };
        proof {
            assert(r.remaining() =~= ring@);
        }
        r
    }

    /// The next unvisited element, or `None` once all have been seen.
    pub fn next(&mut self) -> (r: Option<&'a T>)
        requires
            old(self).wf(),
        ensures
            final(self).wf(),
            old(self).remaining().len() == 0 ==> {
                &&& r is None
                &&& *final(self) == *old(self)
            },
            old(self).remaining().len() > 0 ==> {
                &&& r matches Some(v) && *v == old(self).remaining()[0]
                &&& final(self).remaining() == old(self).remaining().skip(1)
            },
    {
        if self.index < self.ring.count() {
            let v = self.ring.index(self.index);
            self.index = self.index + 1;
            proof {
                assert(self.remaining() =~= old(self).remaining().skip(1));
            }
            Some(v)
        } else {
            None
        }
    }
}

} // verus!
