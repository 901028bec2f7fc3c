//! Directives: what to do the next time an operation is performed.

use vstd::prelude::*;

verus! {

/// The condition that a failed operation reports.
///
/// Two kinds matter to the wrappers: `Interrupted`, which a caller is expected
/// to retry, and `WouldBlock`, which a non-blocking caller is expected to turn
/// into "not ready yet". Every other kind is passed on as it is.
#[derive(Clone, Copy, Debug, PartialEq, Eq, Hash, Structural)]
pub enum ErrorKind {
    NotFound,
    PermissionDenied,
    ConnectionRefused,
    ConnectionReset,
    HostUnreachable,
    NetworkUnreachable,
    ConnectionAborted,
    NotConnected,
    AddrInUse,
    AddrNotAvailable,
    NetworkDown,
    BrokenPipe,
    AlreadyExists,
    WouldBlock,
    NotADirectory,
    IsADirectory,
    DirectoryNotEmpty,
    ReadOnlyFilesystem,
    StaleNetworkFileHandle,
    InvalidInput,
    InvalidData,
    TimedOut,
    WriteZero,
    StorageFull,
    NotSeekable,
    QuotaExceeded,
    FileTooLarge,
    ResourceBusy,
    ExecutableFileBusy,
    Deadlock,
    CrossesDevices,
    TooManyLinks,
    InvalidFilename,
    ArgumentListTooLong,
    Interrupted,
    Unsupported,
    UnexpectedEof,
    OutOfMemory,
    Other,
}

/// What to do the next time an operation is performed.
#[derive(Clone, Copy, Debug, PartialEq, Eq, Hash, Structural)]
pub enum PartialOp {
    /// Let at most this many bytes through to the underlying operation.
    ///
    /// An operation without a byte count, such as a flush, treats this as
    /// `Unlimited`.
    Limited(usize),
    /// Let the underlying operation proceed with what the caller asked for.
    Unlimited,
    /// Do not perform the underlying operation; report this kind instead.
    ///
    /// A non-blocking wrapper turns `WouldBlock` into "not ready yet" and
    /// retries on `Interrupted`.
    Fail(ErrorKind),
}

/// An error that a directive injected: the kind the directive named, and a
/// fixed text that says which operation reported it.
#[derive(Clone, Copy, Debug, PartialEq, Eq)]
pub struct InjectedError {
    pub kind: ErrorKind,
    pub message: &'static str,
}

/// The smaller of a limit and a requested length.
pub open spec fn min_len(limit: usize, requested: usize) -> usize {
    if limit <= requested {
        limit
    } else {
        requested
    }
}

/// Bounds a requested length by a limit.
pub fn bound_len(limit: usize, requested: usize) -> (len: usize)
    ensures
        len == min_len(limit, requested),
{
    if limit <= requested {
        limit
    } else {
        requested
    }
}

} // verus!
