//! A reentrant, at-most-capacity message relay over an overwriting ring.
//!
//! `push` never fails: under backpressure the oldest unread message is
//! silently dropped, favouring recency over completeness.  `process` visits
//! every message present at the start of the pass exactly once, front to
//! back; the handler either keeps a message in the bus (`Ignored`) or removes
//! it (`Processed`), and may return follow-up messages, which are appended
//! only after the whole pass finishes and are therefore never visited within
//! the pass that created them.

use vstd::prelude::*;

use crate::ring::{filter_by, last_n, Ring};
use crate::ring_state::Overwriting;

verus! {

pub struct MessageQueue<M, const N: usize> {
    msgs: Ring<M, N, Overwriting>,
}

pub enum MessageProcessingStatus {
    Ignored,
    Processed,
}

/// Which positions a pass keeps: those whose outcome was `Ignored`.
pub open spec fn ignored_mask<M>(outs: Seq<(MessageProcessingStatus, Vec<M>)>) -> Seq<bool> {
    Seq::new(outs.len(), |k: int| outs[k].0 is Ignored)
}

/// The messages a pass keeps, in their original order.
pub open spec fn kept_msgs<M>(s: Seq<M>, outs: Seq<(MessageProcessingStatus, Vec<M>)>) -> Seq<M> {
    filter_by(s, ignored_mask(outs))
}

/// The follow-up messages of a pass, in the order they were produced.
pub open spec fn followup_msgs<M>(outs: Seq<(MessageProcessingStatus, Vec<M>)>) -> Seq<M>
    decreases outs.len(),
{
    if outs.len() == 0 {
        Seq::empty()
    } else {
        followup_msgs(outs.drop_last()) + outs.last().1@
    }
}

/// The outcomes a handler `f` can produce for the messages of `s`: one
/// status and follow-up batch per message, each a possible result of
/// calling `f` on it.
pub open spec fn mq_outcomes<M, F: Fn(&M) -> (MessageProcessingStatus, Vec<M>)>(
    f: F,
    s: Seq<M>,
    outs: Seq<(MessageProcessingStatus, Vec<M>)>,
) -> bool {
    &&& outs.len() == s.len()
    &&& forall|k: int| 0 <= k < outs.len() ==> call_ensures(f, (&s[k],), outs[k])
}

impl<M, const N: usize> View for MessageQueue<M, N> {
    type V = Seq<M>;

    /// The buffered messages, oldest first.
    closed spec fn view(&self) -> Seq<M> {
        self.msgs@
    }
}

impl<M, const N: usize> MessageQueue<M, N> {
    pub closed spec fn wf(&self) -> bool {
        self.msgs.wf()
    }

    /// A well-formed bus never holds more than its capacity.
    pub proof fn lemma_len_bounded(&self)
        requires
            self.wf(),
        ensures
            self@.len() <= N,
    {
        self.msgs.lemma_len_bounded();
    }

    /// Enqueues unconditionally; once the bus is saturated the oldest unread
    /// message is dropped to make room.
    pub fn push(&mut self, msg: M)
        requires
            old(self).wf(),
            N >= 1,
        ensures
            final(self).wf(),
            final(self)@ == last_n(old(self)@.push(msg), N as int),
    {
        proof {
            self.msgs.lemma_len_bounded();
        }
        let ghost pre = self@;
        let _ = self.msgs.push(msg);
        proof {
            if pre.len() < N {
                assert(self@ =~= last_n(pre.push(msg), N as int));
            } else {
                assert(self@ =~= last_n(pre.push(msg), N as int));
            }
        }
    }

    /// One pass: visits every message currently in the bus exactly once, in
    /// front-to-back order, keeping the `Ignored` ones in order and dropping
    /// the `Processed` ones; the follow-up messages of the whole pass are
    /// then appended, overwriting the oldest entries if the bus saturates.
    #[verifier::loop_isolation(false)]
    pub fn process<F: Fn(&M) -> (MessageProcessingStatus, Vec<M>)>(&mut self, f: F)
        requires
            old(self).wf(),
            forall|m: &M| call_requires(f, (m,)),
        ensures
            final(self).wf(),
            exists|outs: Seq<(MessageProcessingStatus, Vec<M>)>|
                #![trigger mq_outcomes(f, old(self)@, outs)]
                mq_outcomes(f, old(self)@, outs) && final(self)@ == last_n(
                    kept_msgs(old(self)@, outs) + followup_msgs(outs),
                    N as int,
                ),
    {
        let ghost pre = self@;
        let total = self.msgs.count();
        proof {
            self.msgs.lemma_len_bounded();
            assert(ignored_mask(Seq::<(MessageProcessingStatus, Vec<M>)>::empty())
                =~= Seq::<bool>::empty());
            assert(self.msgs@ =~= pre.skip(0) + kept_msgs(
                pre.take(0),
                Seq::<(MessageProcessingStatus, Vec<M>)>::empty(),
            ));
        }
        let mut followups: Vec<M> = Vec::new();
        let ghost mut outs: Seq<(MessageProcessingStatus, Vec<M>)> = Seq::empty();
        let mut k: usize = 0;
        while k < total
            invariant
                k <= total,
                self.msgs.wf(),
                outs.len() == k,
                forall|j: int| 0 <= j < k ==> call_ensures(f, (&pre[j],), outs[j]),
                self.msgs@ == pre.skip(k as int) + kept_msgs(pre.take(k as int), outs),
                followups@ == followup_msgs(outs),
            decreases total - k,
        {
            let ghost outs0 = outs;
            let ghost kept0 = kept_msgs(pre.take(k as int), outs0);
            proof {
                self.msgs.lemma_len_bounded();
            }
            let msg = match self.msgs.pop_front() {
                Ok(m) => m,
                Err(_) => unreached(),
            };
            proof {
                assert(msg == pre[k as int]);
                assert(self.msgs@ =~= pre.skip(k + 1) + kept0);
            }
            let ret = f(&msg);
            let ghost gret = ret;
            let (st, mut fol) = ret;
            proof {
                outs = outs.push(gret);
                assert(pre.take(k + 1).drop_last() =~= pre.take(k as int));
                assert(outs.drop_last() =~= outs0);
                assert(ignored_mask(outs).drop_last() =~= ignored_mask(outs0));
            }
            match st {
                MessageProcessingStatus::Ignored => {
                    let _ = self.msgs.push(msg);
                    proof {
                        assert(kept_msgs(pre.take(k + 1), outs) =~= kept0.push(pre[k as int]));
                        assert(self.msgs@ =~= pre.skip(k + 1) + kept_msgs(pre.take(k + 1), outs));
                    }
                },
                MessageProcessingStatus::Processed => {
                    proof {
                        assert(kept_msgs(pre.take(k + 1), outs) =~= kept0);
                    }
                },
            }
            followups.append(&mut fol);
            proof {
                assert(followup_msgs(outs) =~= followup_msgs(outs0) + gret.1@);
            }
            k += 1;
        }
        proof {
            assert(pre.take(total as int) =~= pre);
            assert(pre.skip(total as int) =~= Seq::<M>::empty());
            assert(self.msgs@ =~= kept_msgs(pre, outs));
            self.msgs.lemma_len_bounded();
        }
        let ghost kept_final = kept_msgs(pre, outs);
        if followups.len() > 0 {
            self.msgs.append(followups);
        } else {
            proof {
                assert(kept_final + followup_msgs(outs) =~= kept_final);
            }
        }
        proof {
            assert(mq_outcomes(f, pre, outs));
        }
    }
}


/// One pass advances exactly one generation: a bus holding just the message
/// `a`, processed by a handler that removes `a` and enqueues `b`, holds
/// exactly `b` afterwards — the follow-up is appended after the pass and is
/// never visited within the pass that created it.
pub proof fn lemma_process_one_generation<M>(
    pre: Seq<M>,
    outs: Seq<(MessageProcessingStatus, Vec<M>)>,
    post: Seq<M>,
    n: int,
    a: M,
    b: M,
)
    requires
        n >= 1,
        pre == seq![a],
        outs.len() == 1,
        outs[0].0 is Processed,
        outs[0].1@ == seq![b],
        post == last_n(kept_msgs(pre, outs) + followup_msgs(outs), n),
    ensures
        post == seq![b],
{
    assert(ignored_mask(outs) =~= seq![false]);
    assert(pre.drop_last() =~= Seq::<M>::empty());
    assert(outs.drop_last() =~= Seq::<(MessageProcessingStatus, Vec<M>)>::empty());
    assert(filter_by(pre.drop_last(), ignored_mask(outs).drop_last()) =~= Seq::<M>::empty());
    assert(kept_msgs(pre, outs) =~= Seq::<M>::empty());
    assert(followup_msgs(outs.drop_last()) =~= Seq::<M>::empty());
    assert(followup_msgs(outs) =~= seq![b]);
    assert(kept_msgs(pre, outs) + followup_msgs(outs) =~= seq![b]);
}

impl<M, const N: usize> Default for MessageQueue<M, N> {
    /// The empty bus.
    fn default() -> (r: Self)
        ensures
            r.wf(),
            r@ == Seq::<M>::empty(),
    {
        MessageQueue { msgs: Default::default() }
    }
}

} // verus!
