//! Decisions for blocking wrappers.
//!
//! Each call of a blocking wrapper consumes exactly one directive and makes
//! at most one call of the wrapped resource. [`SyncOps`] decides what that
//! call is. Nothing is retried here: a caller that is told `Interrupted` has
//! to call again itself.

use vstd::prelude::*;
use vstd::std_specs::iter::IteratorSpec;
use crate::op::{bound_len, min_len, InjectedError, PartialOp};
use crate::queue::{head_op, make_ops, pending_ops, rest_ops, OpQueue};

verus! {

/// The text of an error injected into a read.
pub const READ_ERROR: &'static str = "error during read, generated by partial-io";

/// The text of an error injected into a write.
pub const WRITE_ERROR: &'static str = "error during write, generated by partial-io";

/// The text of an error injected into a flush.
pub const FLUSH_ERROR: &'static str = "error during flush, generated by partial-io";

/// What a blocking read or write has to do.
#[derive(Clone, Copy, Debug, PartialEq, Eq)]
pub enum IoStep {
    /// Hand the first this many bytes of the caller's buffer to the wrapped
    /// resource and return what it returns.
    Proceed(usize),
    /// Return this error without touching the wrapped resource.
    Fail(InjectedError),
}

/// What a blocking flush has to do.
#[derive(Clone, Copy, Debug, PartialEq, Eq)]
pub enum FlushStep {
    /// Flush the wrapped resource and return what it returns.
    Proceed,
    /// Return this error without touching the wrapped resource.
    Fail(InjectedError),
}

/// What directive `op` decides for a read or write of `requested` bytes whose
/// injected errors carry `message`.
pub open spec fn io_step_for(op: PartialOp, requested: usize, message: &'static str) -> IoStep {
    match op {
        PartialOp::Limited(n) => IoStep::Proceed(min_len(n, requested)),
        PartialOp::Unlimited => IoStep::Proceed(requested),
        PartialOp::Fail(kind) => IoStep::Fail(InjectedError { kind, message }),
    }
}

/// What directive `op` decides for a flush: only a failure stops it.
pub open spec fn flush_step_for(op: PartialOp) -> FlushStep {
    match op {
        PartialOp::Fail(kind) => FlushStep::Fail(InjectedError { kind, message: FLUSH_ERROR }),
        _ => FlushStep::Proceed,
    }
}

/// Decides a read or write of `requested` bytes on the directive pulled for
/// it; an injected error carries `message`.
pub fn decide_io(op: PartialOp, requested: usize, message: &'static str) -> (step: IoStep)
    ensures
        step == io_step_for(op, requested, message),
{
    match op {
        PartialOp::Limited(n) => IoStep::Proceed(bound_len(n, requested)),
        PartialOp::Unlimited => IoStep::Proceed(requested),
        PartialOp::Fail(kind) => IoStep::Fail(InjectedError { kind, message }),
    }
}

/// Decides a flush on the directive pulled for it.
pub fn decide_flush(op: PartialOp) -> (step: FlushStep)
    ensures
        step == flush_step_for(op),
{
    match op {
        PartialOp::Fail(kind) => FlushStep::Fail(InjectedError { kind, message: FLUSH_ERROR }),
        _ => FlushStep::Proceed,
    }
}

/// The directive queue of a blocking wrapper.
pub struct SyncOps<I: Iterator<Item = PartialOp>> {
    ops: OpQueue<I>,
}

impl<I: Iterator<Item = PartialOp>> SyncOps<I> {
    /// The producer, as it stands after the pulls made so far.
    pub closed spec fn source(&self) -> I {
        self.ops.source()
    }

    /// Whether the producer has signalled its end.
    pub closed spec fn exhausted(&self) -> bool {
        self.ops.exhausted()
    }

    /// Creates a new instance that will consume the directives of `iter`.
    /// Nothing is pulled from `iter` here.
    pub fn new(iter: I) -> (ops: Self)
        ensures
            ops.source() == iter,
            !ops.exhausted(),
    {
        SyncOps { ops: make_ops(iter) }
    }

    /// Replaces the producer with `iter`, of which nothing is pulled yet.
    pub fn replace(&mut self, iter: I)
        ensures
            final(self).source() == iter,
            !final(self).exhausted(),
    {
        self.ops = make_ops(iter);
    }

    /// Decides a read into a buffer of `requested` bytes, on one directive.
    pub fn next_read(&mut self, requested: usize) -> (step: IoStep)
        ensures
            step matches IoStep::Proceed(len) ==> len <= requested,
            step matches IoStep::Fail(err) ==> err.message == READ_ERROR,
            old(self).exhausted() ==> step == IoStep::Proceed(requested) && final(self).exhausted()
                && final(self).source() == old(self).source(),
            final(self).exhausted() ==> step == IoStep::Proceed(requested),
            final(self).source().obeys_prophetic_iter_laws() == old(
                self).source().obeys_prophetic_iter_laws(),
            old(self).source().obeys_prophetic_iter_laws() ==> {
                &&& step == io_step_for(
                    head_op(pending_ops(old(self).exhausted(), old(self).source().remaining())),
                    requested,
                    READ_ERROR,
                )
                &&& pending_ops(final(self).exhausted(), final(self).source().remaining())
                    == rest_ops(pending_ops(old(self).exhausted(), old(self).source().remaining()))
            },
    {
        let op = self.ops.next();
        decide_io(op, requested, READ_ERROR)
    }

    /// Decides a write from a buffer of `requested` bytes, on one directive.
    pub fn next_write(&mut self, requested: usize) -> (step: IoStep)
        ensures
            step matches IoStep::Proceed(len) ==> len <= requested,
            step matches IoStep::Fail(err) ==> err.message == WRITE_ERROR,
            old(self).exhausted() ==> step == IoStep::Proceed(requested) && final(self).exhausted()
                && final(self).source() == old(self).source(),
            final(self).exhausted() ==> step == IoStep::Proceed(requested),
            final(self).source().obeys_prophetic_iter_laws() == old(
                self).source().obeys_prophetic_iter_laws(),
            old(self).source().obeys_prophetic_iter_laws() ==> {
                &&& step == io_step_for(
                    head_op(pending_ops(old(self).exhausted(), old(self).source().remaining())),
                    requested,
                    WRITE_ERROR,
                )
                &&& pending_ops(final(self).exhausted(), final(self).source().remaining())
                    == rest_ops(pending_ops(old(self).exhausted(), old(self).source().remaining()))
            },
    {
        let op = self.ops.next();
        decide_io(op, requested, WRITE_ERROR)
    }

    /// Decides a flush, on one directive. A limit does not apply to it.
    pub fn next_flush(&mut self) -> (step: FlushStep)
        ensures
            step matches FlushStep::Fail(err) ==> err.message == FLUSH_ERROR,
            old(self).exhausted() ==> step == FlushStep::Proceed && final(self).exhausted()
                && final(self).source() == old(self).source(),
            final(self).exhausted() ==> step == FlushStep::Proceed,
            final(self).source().obeys_prophetic_iter_laws() == old(
                self).source().obeys_prophetic_iter_laws(),
            old(self).source().obeys_prophetic_iter_laws() ==> {
                &&& step == flush_step_for(
                    head_op(pending_ops(old(self).exhausted(), old(self).source().remaining())),
                )
                &&& pending_ops(final(self).exhausted(), final(self).source().remaining())
                    == rest_ops(pending_ops(old(self).exhausted(), old(self).source().remaining()))
            },
    {
        let op = self.ops.next();
        decide_flush(op)
    }
}

/// The bound of a limited read or write is the smaller of the limit and the
/// length asked for, an unlimited one keeps the length asked for, and no
/// decision lets more through than was asked for.
pub proof fn lemma_io_bound(op: PartialOp, requested: usize, message: &'static str)
    ensures
        op matches PartialOp::Limited(n) ==> io_step_for(op, requested, message)
            == IoStep::Proceed(min_len(n, requested)),
        op == PartialOp::Unlimited ==> io_step_for(op, requested, message) == IoStep::Proceed(
            requested,
        ),
        io_step_for(op, requested, message) matches IoStep::Proceed(len) ==> len <= requested,
        io_step_for(op, requested, message) is Fail <==> op is Fail,
{
}

} // verus!
