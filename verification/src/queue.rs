//! The directive queue: it pulls directives from a producer one at a time
//! and, once the producer has run out, answers `Unlimited` for good. The
//! producer may have an end or not; nothing is pulled ahead of need.

use vstd::prelude::*;
use vstd::std_specs::iter::IteratorSpec;
use crate::op::PartialOp;

verus! {

/// The directive that a pull yields from a queue that still holds `pending`.
pub open spec fn head_op(pending: Seq<PartialOp>) -> PartialOp {
    if pending.len() > 0 {
        pending[0]
    } else {
        PartialOp::Unlimited
    }
}

/// What a queue that held `pending` holds after one pull.
pub open spec fn rest_ops(pending: Seq<PartialOp>) -> Seq<PartialOp> {
    if pending.len() > 0 {
        pending.drop_first()
    } else {
        pending
    }
}

/// What a queue that held `pending` holds after `pulls` pulls.
pub open spec fn ops_after(pending: Seq<PartialOp>, pulls: nat) -> Seq<PartialOp>
    decreases pulls,
{
    if pulls == 0 {
        pending
    } else {
        ops_after(rest_ops(pending), (pulls - 1) as nat)
    }
}

/// The directive that pull number `index`, counted from zero, yields from a
/// queue that holds `pending`.
pub open spec fn nth_op(pending: Seq<PartialOp>, index: nat) -> PartialOp {
    head_op(ops_after(pending, index))
}

/// What a queue still has to yield: nothing once it is exhausted, and what
/// its producer has left before that.
pub open spec fn pending_ops(exhausted: bool, left: Seq<PartialOp>) -> Seq<PartialOp> {
    if exhausted {
        Seq::empty()
    } else {
        left
    }
}

/// A producer of directives, pulled one directive at a time. Once the
/// producer has signalled its end the queue is exhausted: it yields
/// `Unlimited` from then on and never asks the producer again.
pub struct OpQueue<I: Iterator<Item = PartialOp>> {
    source: I,
    exhausted: bool,
}

impl<I: Iterator<Item = PartialOp>> OpQueue<I> {
    /// The producer, as it stands after the pulls made so far.
    pub closed spec fn source(&self) -> I {
        self.source
    }

    /// Whether the producer has signalled its end.
    pub closed spec fn exhausted(&self) -> bool {
        self.exhausted
    }

    /// Pulls one directive, without looking further ahead. An exhausted
    /// queue yields `Unlimited` and leaves its producer alone. Of a producer
    /// that keeps the iterator laws the next directive is yielded, or
    /// `Unlimited` when it has none left, which exhausts the queue.
    pub fn next(&mut self) -> (op: PartialOp)
        ensures
            old(self).exhausted() ==> op == PartialOp::Unlimited && final(self).exhausted() && final(self).source() == old(self).source(),
            final(self).exhausted() ==> op == PartialOp::Unlimited,
            final(self).source().obeys_prophetic_iter_laws() == old(self).source().obeys_prophetic_iter_laws(),
            old(self).source().obeys_prophetic_iter_laws() ==> (final(self).source().decrease()
                is Some <==> old(self).source().decrease() is Some),
            !old(self).exhausted() && old(self).source().obeys_prophetic_iter_laws() ==> {
                &&& op == head_op(old(self).source().remaining())
                &&& final(self).source().remaining() == rest_ops(old(self).source().remaining())
                &&& (final(self).exhausted() <==> old(self).source().remaining().len() == 0)
                &&& (old(self).source().remaining().len() > 0 && old(self).source().decrease()
                    is Some ==> decreases_to!(old(self).source().decrease()->0 =>
                        final(self).source().decrease()->0))
            },
    {
        if self.exhausted {
            return PartialOp::Unlimited;
        }
        match self.source.next() {
            Some(op) => op,
            None => {
                self.exhausted = true;
                PartialOp::Unlimited
            },
        }
    }

    /// Drops the producer with what it still holds and starts over with
    /// `iter`, of which nothing is pulled yet.
    pub fn replace(&mut self, iter: I)
        ensures
            final(self).source() == iter,
            !final(self).exhausted(),
    {
        self.source = iter;
        self.exhausted = false;
    }
}

/// Makes a queue that yields the directives of `iter` in order. Nothing is
/// pulled from `iter` here.
pub fn make_ops<I: Iterator<Item = PartialOp>>(iter: I) -> (ops: OpQueue<I>)
    ensures
        ops.source() == iter,
        !ops.exhausted(),
{
    OpQueue { source: iter, exhausted: false }
}

/// Pulling never brings a queue back: after `pulls` pulls it holds what is
/// left of `pending` behind the first `pulls` directives, or nothing.
pub proof fn lemma_ops_after(pending: Seq<PartialOp>, pulls: nat)
    ensures
        pulls <= pending.len() ==> ops_after(pending, pulls) == pending.skip(pulls as int),
        pulls >= pending.len() ==> ops_after(pending, pulls) == Seq::<PartialOp>::empty(),
    decreases pulls,
{
    if pulls == 0 {
        assert(pending.skip(0) =~= pending);
        if pending.len() == 0 {
            assert(pending =~= Seq::<PartialOp>::empty());
        }
    } else {
        lemma_ops_after(rest_ops(pending), (pulls - 1) as nat);
        if 0 < pulls <= pending.len() {
            assert(pending.drop_first().skip(pulls - 1) =~= pending.skip(pulls as int));
        }
    }
}

/// The queue is fused. Pull number `index` yields the directive at `index`
/// while there is one; every pull from then on yields `Unlimited`, however
/// many follow.
pub proof fn lemma_queue_is_fused(pending: Seq<PartialOp>, index: nat)
    ensures
        index < pending.len() ==> nth_op(pending, index) == pending[index as int],
        index >= pending.len() ==> nth_op(pending, index) == PartialOp::Unlimited,
{
    lemma_ops_after(pending, index);
}

} // verus!
