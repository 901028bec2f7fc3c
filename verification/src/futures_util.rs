//! Decisions for non-blocking wrappers.
//!
//! A poll of a non-blocking wrapper may not hand `Interrupted` or `WouldBlock`
//! to its caller as an error. `Interrupted` is retried on the spot; on
//! `WouldBlock` the task is woken and told that the operation is not ready.
//! [`FuturesOps`] decides which of these applies to one poll. Its caller then
//! acts on the [`PollStep`]: it polls the wrapped resource, wakes the task, or
//! returns the error.

use vstd::prelude::*;
use vstd::std_specs::iter::IteratorSpec;
use crate::op::{bound_len, min_len, ErrorKind, InjectedError, PartialOp};
use crate::queue::{head_op, make_ops, pending_ops, rest_ops, OpQueue};

verus! {

/// What the caller of [`FuturesOps::poll_impl`] has to do to finish its poll.
#[derive(Clone, Copy, Debug, PartialEq, Eq)]
pub enum PollStep {
    /// Poll the wrapped resource, with at most this many bytes if a bound is
    /// given, and return what it returns.
    Proceed(Option<usize>),
    /// Wake the current task, so that it is polled again, and return "not
    /// ready" without touching the wrapped resource.
    Pending,
    /// Return this error without touching the wrapped resource.
    Fail(InjectedError),
}

/// How many directives at the front of `pending` are `Fail(Interrupted)`.
pub open spec fn interrupted_run(pending: Seq<PartialOp>) -> nat
    decreases pending.len(),
{
    if pending.len() > 0 && pending[0] == PartialOp::Fail(ErrorKind::Interrupted) {
        1 + interrupted_run(pending.drop_first())
    } else {
        0
    }
}

/// What one poll decides on directive `op`, which is not `Fail(Interrupted)`.
pub open spec fn step_for(op: PartialOp, remaining: usize, err_str: &'static str) -> PollStep {
    match op {
        PartialOp::Limited(n) => PollStep::Proceed(Some(min_len(n, remaining))),
        PartialOp::Unlimited => PollStep::Proceed(None),
        PartialOp::Fail(kind) => if kind == ErrorKind::WouldBlock {
            PollStep::Pending
        } else {
            PollStep::Fail(InjectedError { kind, message: err_str })
        },
    }
}

/// What one poll decides on directive `op` where the operation has no byte
/// count: a limit counts as no limit.
pub open spec fn step_for_no_limit(op: PartialOp, err_str: &'static str) -> PollStep {
    match op {
        PartialOp::Limited(_) => PollStep::Proceed(None),
        PartialOp::Unlimited => PollStep::Proceed(None),
        PartialOp::Fail(kind) => if kind == ErrorKind::WouldBlock {
            PollStep::Pending
        } else {
            PollStep::Fail(InjectedError { kind, message: err_str })
        },
    }
}

/// The directive that ends a poll of a queue holding `pending`: the first one
/// that is not `Fail(Interrupted)`, or `Unlimited` if there is none.
pub open spec fn deciding_op(pending: Seq<PartialOp>) -> PartialOp {
    let skipped = interrupted_run(pending);
    if skipped < pending.len() {
        pending[skipped as int]
    } else {
        PartialOp::Unlimited
    }
}

/// How many directives one poll takes from a queue holding `pending`: the
/// interrupted ones at the front and the one that decides, as far as there
/// are any.
pub open spec fn poll_consumed(pending: Seq<PartialOp>) -> nat {
    let skipped = interrupted_run(pending);
    if skipped < pending.len() {
        skipped + 1
    } else {
        skipped
    }
}

/// What one poll of a queue holding `pending` decides.
pub open spec fn poll_outcome(
    pending: Seq<PartialOp>,
    remaining: usize,
    err_str: &'static str,
) -> PollStep {
    step_for(deciding_op(pending), remaining, err_str)
}

/// What one poll of a queue holding `pending` decides where the operation has
/// no byte count.
pub open spec fn poll_outcome_no_limit(pending: Seq<PartialOp>, err_str: &'static str) -> PollStep {
    step_for_no_limit(deciding_op(pending), err_str)
}

/// What a queue that held `pending` holds after one poll.
pub open spec fn poll_rest(pending: Seq<PartialOp>) -> Seq<PartialOp> {
    pending.skip(poll_consumed(pending) as int)
}

/// How many directives of `ops` are `Fail(WouldBlock)`.
pub open spec fn would_block_count(ops: Seq<PartialOp>) -> nat
    decreases ops.len(),
{
    if ops.len() == 0 {
        0
    } else if ops.last() == PartialOp::Fail(ErrorKind::WouldBlock) {
        1 + would_block_count(ops.drop_last())
    } else {
        would_block_count(ops.drop_last())
    }
}

/// How many polls answer `Pending` when a queue that holds `pending` is
/// polled until it is empty.
pub open spec fn suspensions(pending: Seq<PartialOp>) -> nat
    decreases pending.len(),
{
    if pending.len() == 0 {
        0
    } else {
        proof {
            lemma_interrupted_run_bound(pending);
        }
        let here: nat = if deciding_op(pending) == PartialOp::Fail(ErrorKind::WouldBlock) {
            1
        } else {
            0
        };
        here + suspensions(poll_rest(pending))
    }
}

/// What one pull of a poll decides on directive `op`: nothing yet for
/// `Fail(Interrupted)`, which asks for another pull, and otherwise the step
/// that ends the poll.
pub open spec fn step_or_retry(op: PartialOp, remaining: usize, err_str: &'static str) -> Option<
    PollStep,
> {
    if op == PartialOp::Fail(ErrorKind::Interrupted) {
        None
    } else {
        Some(step_for(op, remaining, err_str))
    }
}

/// What one pull of a poll decides on directive `op` where the operation has
/// no byte count.
pub open spec fn step_or_retry_no_limit(op: PartialOp, err_str: &'static str) -> Option<PollStep> {
    if op == PartialOp::Fail(ErrorKind::Interrupted) {
        None
    } else {
        Some(step_for_no_limit(op, err_str))
    }
}

/// Decides on one directive that a poll has pulled: retry, that is nothing
/// yet, on `Fail(Interrupted)`, and otherwise the step that ends the poll.
pub fn decide(op: PartialOp, remaining: usize, err_str: &'static str) -> (step: Option<PollStep>)
    ensures
        step == step_or_retry(op, remaining, err_str),
{
    match op {
        PartialOp::Limited(n) => {
            let len = bound_len(n, remaining);
            Some(PollStep::Proceed(Some(len)))
        },
        PartialOp::Fail(kind) => {
            if kind == ErrorKind::WouldBlock {
                // A non-blocking wrapper turns this into "not ready" and has
                // the task woken.
                Some(PollStep::Pending)
            } else if kind == ErrorKind::Interrupted {
                // A non-blocking wrapper retries on interruption.
                None
            } else {
                Some(PollStep::Fail(InjectedError { kind, message: err_str }))
            }
        },
        PartialOp::Unlimited => Some(PollStep::Proceed(None)),
    }
}

/// Decides on one directive that a poll without a byte count has pulled.
pub fn decide_no_limit(op: PartialOp, err_str: &'static str) -> (step: Option<PollStep>)
    ensures
        step == step_or_retry_no_limit(op, err_str),
{
    match op {
        PartialOp::Fail(kind) => {
            if kind == ErrorKind::WouldBlock {
                Some(PollStep::Pending)
            } else if kind == ErrorKind::Interrupted {
                None
            } else {
                Some(PollStep::Fail(InjectedError { kind, message: err_str }))
            }
        },
        _ => Some(PollStep::Proceed(None)),
    }
}

/// The directive queue of a non-blocking wrapper.
pub struct FuturesOps<I: Iterator<Item = PartialOp>> {
    ops: OpQueue<I>,
}

impl<I: Iterator<Item = PartialOp>> FuturesOps<I> {
    /// The producer, as it stands after the pulls made so far.
    pub closed spec fn source(&self) -> I {
        self.ops.source()
    }

    /// Whether the producer has signalled its end.
    pub closed spec fn exhausted(&self) -> bool {
        self.ops.exhausted()
    }

    /// Creates a new instance that will consume the directives of `iter`.
    /// Nothing is pulled from `iter` here.
    pub fn new(iter: I) -> (ops: Self)
        ensures
            ops.source() == iter,
            !ops.exhausted(),
    {
        FuturesOps { ops: make_ops(iter) }
    }

    /// Replaces the producer with `iter`, of which nothing is pulled yet.
    pub fn replace(&mut self, iter: I)
        ensures
            final(self).source() == iter,
            !final(self).exhausted(),
    {
        self.ops = make_ops(iter);
    }

    /// Pulls one directive and decides on it: nothing yet if it is
    /// `Fail(Interrupted)`, so that the caller pulls again, and otherwise the
    /// step that ends the poll. An exhausted queue decides as `Unlimited`.
    pub fn poll_step(&mut self, remaining: usize, err_str: &'static str) -> (step: Option<PollStep>)
        ensures
            old(self).exhausted() ==> step == Some(PollStep::Proceed(None)) && final(
                self).exhausted() && final(self).source() == old(self).source(),
            final(self).exhausted() ==> step == Some(PollStep::Proceed(None)),
            final(self).source().obeys_prophetic_iter_laws() == old(
                self).source().obeys_prophetic_iter_laws(),
            old(self).source().obeys_prophetic_iter_laws() ==> (final(self).source().decrease()
                is Some <==> old(self).source().decrease() is Some),
            old(self).source().obeys_prophetic_iter_laws() ==> {
                &&& step == step_or_retry(
                    head_op(pending_ops(old(self).exhausted(), old(self).source().remaining())),
                    remaining,
                    err_str,
                )
                &&& pending_ops(final(self).exhausted(), final(self).source().remaining())
                    == rest_ops(pending_ops(old(self).exhausted(), old(self).source().remaining()))
                &&& (step is None && old(self).source().decrease() is Some ==> decreases_to!(
                    old(self).source().decrease()->0 => final(self).source().decrease()->0))
            },
    {
        let op = self.ops.next();
        decide(op, remaining, err_str)
    }

    /// Pulls one directive and decides on it where the operation has no byte
    /// count: as [`FuturesOps::poll_step`], but a limit sets no bound.
    pub fn poll_step_no_limit(&mut self, err_str: &'static str) -> (step: Option<PollStep>)
        ensures
            old(self).exhausted() ==> step == Some(PollStep::Proceed(None)) && final(
                self).exhausted() && final(self).source() == old(self).source(),
            final(self).exhausted() ==> step == Some(PollStep::Proceed(None)),
            final(self).source().obeys_prophetic_iter_laws() == old(
                self).source().obeys_prophetic_iter_laws(),
            old(self).source().obeys_prophetic_iter_laws() ==> (final(self).source().decrease()
                is Some <==> old(self).source().decrease() is Some),
            old(self).source().obeys_prophetic_iter_laws() ==> {
                &&& step == step_or_retry_no_limit(
                    head_op(pending_ops(old(self).exhausted(), old(self).source().remaining())),
                    err_str,
                )
                &&& pending_ops(final(self).exhausted(), final(self).source().remaining())
                    == rest_ops(pending_ops(old(self).exhausted(), old(self).source().remaining()))
                &&& (step is None && old(self).source().decrease() is Some ==> decreases_to!(
                    old(self).source().decrease()->0 => final(self).source().decrease()->0))
            },
    {
        let op = self.ops.next();
        decide_no_limit(op, err_str)
    }

    /// Decides one poll of an operation that can take up to `remaining` bytes.
    ///
    /// Directives are pulled one by one until one is not `Fail(Interrupted)`.
    /// A limit is bounded by `remaining`; `Unlimited`, or an exhausted queue,
    /// sets no bound; `Fail(WouldBlock)` suspends the caller; any other
    /// failure is reported with `err_str` as its text. Nothing behind the
    /// directive that decides is pulled.
    ///
    /// The producer has to keep the iterator laws and to have a measure: a
    /// producer that yields `Fail(Interrupted)` without end would keep this
    /// function pulling for ever.
    pub fn poll_impl(&mut self, remaining: usize, err_str: &'static str) -> (step: PollStep)
        requires
            old(self).source().obeys_prophetic_iter_laws(),
            old(self).source().decrease() is Some,
        ensures
            step == poll_outcome(
                pending_ops(old(self).exhausted(), old(self).source().remaining()),
                remaining,
                err_str,
            ),
            pending_ops(final(self).exhausted(), final(self).source().remaining()) == poll_rest(
                pending_ops(old(self).exhausted(), old(self).source().remaining()),
            ),
            final(self).source().obeys_prophetic_iter_laws(),
            final(self).source().decrease() is Some,
    {
        loop
            invariant
                self.source().obeys_prophetic_iter_laws(),
                self.source().decrease() is Some,
                poll_outcome(
                    pending_ops(self.exhausted(), self.source().remaining()),
                    remaining,
                    err_str,
                ) == poll_outcome(
                    pending_ops(old(self).exhausted(), old(self).source().remaining()),
                    remaining,
                    err_str,
                ),
                poll_rest(pending_ops(self.exhausted(), self.source().remaining())) == poll_rest(
                    pending_ops(old(self).exhausted(), old(self).source().remaining()),
                ),
            decreases self.source().decrease()->0,
        {
            proof {
                lemma_poll_unfold(pending_ops(self.exhausted(), self.source().remaining()));
            }
            match self.poll_step(remaining, err_str) {
                Some(step) => {
                    return step;
                },
                None => {},
            }
        }
    }

    /// Decides one poll of an operation that has no byte count, such as a
    /// flush: as [`FuturesOps::poll_impl`], but a limit sets no bound.
    pub fn poll_impl_no_limit(&mut self, err_str: &'static str) -> (step: PollStep)
        requires
            old(self).source().obeys_prophetic_iter_laws(),
            old(self).source().decrease() is Some,
        ensures
            step == poll_outcome_no_limit(
                pending_ops(old(self).exhausted(), old(self).source().remaining()),
                err_str,
            ),
            pending_ops(final(self).exhausted(), final(self).source().remaining()) == poll_rest(
                pending_ops(old(self).exhausted(), old(self).source().remaining()),
            ),
            final(self).source().obeys_prophetic_iter_laws(),
            final(self).source().decrease() is Some,
    {
        loop
            invariant
                self.source().obeys_prophetic_iter_laws(),
                self.source().decrease() is Some,
                poll_outcome_no_limit(
                    pending_ops(self.exhausted(), self.source().remaining()),
                    err_str,
                ) == poll_outcome_no_limit(
                    pending_ops(old(self).exhausted(), old(self).source().remaining()),
                    err_str,
                ),
                poll_rest(pending_ops(self.exhausted(), self.source().remaining())) == poll_rest(
                    pending_ops(old(self).exhausted(), old(self).source().remaining()),
                ),
            decreases self.source().decrease()->0,
        {
            proof {
                lemma_poll_unfold(pending_ops(self.exhausted(), self.source().remaining()));
            }
            match self.poll_step_no_limit(err_str) {
                Some(step) => {
                    return step;
                },
                None => {},
            }
        }
    }
}

/// One pull of a poll: an interrupted directive at the front is skipped and
/// the poll goes on with the rest; any other directive at the front decides;
/// an empty queue decides as `Unlimited` and stays empty.
pub proof fn lemma_poll_unfold(pending: Seq<PartialOp>)
    ensures
        pending.len() == 0 ==> deciding_op(pending) == PartialOp::Unlimited && poll_rest(pending)
            == pending,
        pending.len() > 0 && pending[0] == PartialOp::Fail(ErrorKind::Interrupted) ==> deciding_op(
            pending,
        ) == deciding_op(pending.drop_first()) && poll_rest(pending) == poll_rest(
            pending.drop_first(),
        ),
        pending.len() > 0 && pending[0] != PartialOp::Fail(ErrorKind::Interrupted) ==> deciding_op(
            pending,
        ) == pending[0] && poll_rest(pending) == pending.drop_first(),
{
    if pending.len() == 0 {
        assert(pending.skip(0) =~= pending);
    } else if pending[0] == PartialOp::Fail(ErrorKind::Interrupted) {
        let tail = pending.drop_first();
        let skipped = interrupted_run(tail);
        assert(interrupted_run(pending) == skipped + 1);
        lemma_interrupted_run_bound(tail);
        if skipped < tail.len() {
            assert(pending[skipped as int + 1] == tail[skipped as int]);
        }
        assert(pending.skip(poll_consumed(pending) as int) =~= tail.skip(
            poll_consumed(tail) as int,
        ));
    } else {
        assert(pending.skip(1) =~= pending.drop_first());
    }
}

/// The interrupted run at the front is made of `Fail(Interrupted)` only, is
/// no longer than the sequence, and ends before anything else.
pub proof fn lemma_interrupted_run_bound(pending: Seq<PartialOp>)
    ensures
        interrupted_run(pending) <= pending.len(),
        forall|i: int|
            0 <= i < interrupted_run(pending) ==> pending[i] == PartialOp::Fail(
                ErrorKind::Interrupted,
            ),
        interrupted_run(pending) < pending.len() ==> pending[interrupted_run(pending) as int]
            != PartialOp::Fail(ErrorKind::Interrupted),
    decreases pending.len(),
{
    if pending.len() > 0 && pending[0] == PartialOp::Fail(ErrorKind::Interrupted) {
        let tail = pending.drop_first();
        lemma_interrupted_run_bound(tail);
        assert forall|i: int| 0 <= i < interrupted_run(pending) implies pending[i]
            == PartialOp::Fail(ErrorKind::Interrupted) by {
            if i > 0 {
                assert(pending[i] == tail[i - 1]);
            }
        }
        if interrupted_run(pending) < pending.len() {
            assert(pending[interrupted_run(pending) as int] == tail[interrupted_run(tail) as int]);
        }
    }
}

/// A poll that finds `retries` interrupted directives in front of `op`, which
/// is not one of them, decides on `op` alone and leaves what stood behind it.
pub proof fn lemma_poll_skips_interrupted(
    retries: nat,
    op: PartialOp,
    rest: Seq<PartialOp>,
)
    requires
        op != PartialOp::Fail(ErrorKind::Interrupted),
    ensures
        ({
            let pending = Seq::new(retries, |i: int| PartialOp::Fail(ErrorKind::Interrupted)).push(
                op,
            ) + rest;
            &&& interrupted_run(pending) == retries
            &&& deciding_op(pending) == op
            &&& poll_consumed(pending) == retries + 1
            &&& poll_rest(pending) == rest
        }),
    decreases retries,
{
    let front = Seq::new(retries, |i: int| PartialOp::Fail(ErrorKind::Interrupted));
    let pending = front.push(op) + rest;
    if retries == 0 {
        assert(pending[0] == op);
        assert(pending.skip(1) =~= rest);
    } else {
        let shorter = Seq::new((retries - 1) as nat, |i: int| PartialOp::Fail(ErrorKind::Interrupted));
        assert(pending[0] == PartialOp::Fail(ErrorKind::Interrupted));
        assert(pending.drop_first() =~= shorter.push(op) + rest);
        lemma_poll_skips_interrupted((retries - 1) as nat, op, rest);
        lemma_poll_unfold(pending);
        assert(pending[retries as int] == op);
    }
}

/// Interruption is never seen by the caller of a poll. However many
/// `Fail(Interrupted)` directives stand in front of one `Unlimited`, a single
/// poll consumes them all and decides to proceed without a bound.
pub proof fn lemma_interrupted_then_unlimited(retries: nat, remaining: usize, err_str: &'static str)
    ensures
        ({
            let pending = Seq::new(retries, |i: int| PartialOp::Fail(ErrorKind::Interrupted)).push(
                PartialOp::Unlimited,
            );
            &&& poll_outcome(pending, remaining, err_str) == PollStep::Proceed(None)
            &&& poll_outcome_no_limit(pending, err_str) == PollStep::Proceed(None)
            &&& poll_consumed(pending) == pending.len()
            &&& poll_rest(pending) == Seq::<PartialOp>::empty()
        }),
{
    let pending = Seq::new(retries, |i: int| PartialOp::Fail(ErrorKind::Interrupted)).push(
        PartialOp::Unlimited,
    );
    lemma_poll_skips_interrupted(retries, PartialOp::Unlimited, Seq::empty());
    assert(pending + Seq::<PartialOp>::empty() =~= pending);
}

/// No poll reports `Interrupted` or `WouldBlock` as an error, whatever the
/// queue holds.
pub proof fn lemma_poll_hides_transient_kinds(
    pending: Seq<PartialOp>,
    remaining: usize,
    err_str: &'static str,
)
    ensures
        poll_outcome(pending, remaining, err_str) matches PollStep::Fail(e) ==> e.kind
            != ErrorKind::Interrupted && e.kind != ErrorKind::WouldBlock,
        poll_outcome_no_limit(pending, err_str) matches PollStep::Fail(e) ==> e.kind
            != ErrorKind::Interrupted && e.kind != ErrorKind::WouldBlock,
{
    lemma_interrupted_run_bound(pending);
}

/// A run of `Fail(Interrupted)` holds no `Fail(WouldBlock)`.
proof fn lemma_no_would_block_in_run(ops: Seq<PartialOp>)
    requires
        forall|i: int| 0 <= i < ops.len() ==> ops[i] == PartialOp::Fail(ErrorKind::Interrupted),
    ensures
        would_block_count(ops) == 0,
    decreases ops.len(),
{
    if ops.len() > 0 {
        lemma_no_would_block_in_run(ops.drop_last());
    }
}

/// One suspension per `Fail(WouldBlock)` consumed. A poll answers `Pending`
/// exactly when the directive that decides it is `Fail(WouldBlock)`; the
/// directives it consumed then hold that one `Fail(WouldBlock)` and no other,
/// and a poll that answers anything else consumed none.
pub proof fn lemma_one_suspension_per_would_block(
    pending: Seq<PartialOp>,
    remaining: usize,
    err_str: &'static str,
)
    ensures
        poll_outcome(pending, remaining, err_str) is Pending <==> deciding_op(pending)
            == PartialOp::Fail(ErrorKind::WouldBlock),
        poll_outcome_no_limit(pending, err_str) is Pending <==> deciding_op(pending)
            == PartialOp::Fail(ErrorKind::WouldBlock),
        would_block_count(pending.take(poll_consumed(pending) as int)) == (if deciding_op(pending)
            == PartialOp::Fail(ErrorKind::WouldBlock) {
            1nat
        } else {
            0nat
        }),
{
    lemma_interrupted_run_bound(pending);
    let skipped = interrupted_run(pending);
    let used = pending.take(poll_consumed(pending) as int);
    if skipped < pending.len() {
        assert(used.last() == pending[skipped as int]);
        assert(used.drop_last() =~= pending.take(skipped as int));
        lemma_no_would_block_in_run(pending.take(skipped as int));
    } else {
        lemma_no_would_block_in_run(used);
    }
}

/// The `Fail(WouldBlock)` directives of two sequences add up.
proof fn lemma_would_block_count_add(front: Seq<PartialOp>, back: Seq<PartialOp>)
    ensures
        would_block_count(front + back) == would_block_count(front) + would_block_count(back),
    decreases back.len(),
{
    if back.len() == 0 {
        assert(front + back =~= front);
    } else {
        assert((front + back).drop_last() =~= front + back.drop_last());
        lemma_would_block_count_add(front, back.drop_last());
    }
}

/// Over the life of a queue, the polls that answer `Pending` are as many as
/// the `Fail(WouldBlock)` directives it held: each of them suspends the
/// caller once, and nothing else does.
pub proof fn lemma_suspensions_match_would_blocks(pending: Seq<PartialOp>)
    ensures
        suspensions(pending) == would_block_count(pending),
    decreases pending.len(),
{
    if pending.len() > 0 {
        lemma_interrupted_run_bound(pending);
        let consumed = poll_consumed(pending) as int;
        let used = pending.take(consumed);
        let rest = poll_rest(pending);
        lemma_one_suspension_per_would_block(pending, 0, "");
        lemma_suspensions_match_would_blocks(rest);
        lemma_would_block_count_add(used, rest);
        assert(used + rest =~= pending);
    }
}

} // verus!
