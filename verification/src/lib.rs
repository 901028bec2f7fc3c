//! Fault injection for byte streams.
//!
//! A wrapper around a reader or writer consults a queue of directives, one per
//! operation. A directive truncates the operation, lets it pass, or fails it
//! with a chosen error kind. This crate holds the decisions: which directive
//! applies to which call, how many bytes it lets through, when a non-blocking
//! caller is told to retry, to wait or to give up, and how sequences of
//! directives are generated at random and shrunk.

pub mod futures_util;
pub mod op;
pub mod queue;
pub mod quickcheck_types;
pub mod sync_util;

pub use crate::futures_util::{FuturesOps, PollStep};
pub use crate::op::{ErrorKind, InjectedError, PartialOp};
pub use crate::queue::{make_ops, OpQueue};
pub use crate::sync_util::{FlushStep, IoStep, SyncOps};
pub use crate::quickcheck_types::{
    GenError, GenInterrupted, GenInterruptedWouldBlock, GenNoErrors, GenWouldBlock,
    PartialWithErrors,
};
