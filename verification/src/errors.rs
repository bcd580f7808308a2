//! Failure categories of the block stream and the error codes of the
//! filesystem transport, with the mapping between them.

use vstd::prelude::*;

verus! {

/// Category of a failure reported by the block stream.
#[derive(Clone, Copy, Debug, PartialEq, Eq, Structural)]
pub enum IoErrorKind {
    NotFound,
    PermissionDenied,
    ConnectionRefused,
    ConnectionReset,
    ConnectionAborted,
    NotConnected,
    AddrInUse,
    AddrNotAvailable,
    BrokenPipe,
    AlreadyExists,
    WouldBlock,
    InvalidInput,
    InvalidData,
    TimedOut,
    WriteZero,
    /// The call was interrupted before it transferred anything; it may be
    /// repeated.
    Interrupted,
    UnexpectedEof,
    /// Any failure that has no category of its own.
    Other,
}

/// Error code replied to the filesystem transport.
#[derive(Clone, Copy, Debug, PartialEq, Eq, Structural)]
pub enum FsError {
    EntryNotFound,
    AccessDenied,
    ConnectionAborted,
    NotConnected,
    AddressInUse,
    AddressUnavailable,
    BrokenPipe,
    AlreadyExists,
    WouldBlock,
    InvalidArgument,
    TimedOut,
}

/// The filesystem error code that stands for each stream failure category.
pub open spec fn mapped(kind: IoErrorKind) -> FsError {
    match kind {
        IoErrorKind::NotFound => FsError::EntryNotFound,
        IoErrorKind::PermissionDenied => FsError::AccessDenied,
        IoErrorKind::ConnectionRefused => FsError::ConnectionAborted,
        IoErrorKind::ConnectionReset => FsError::ConnectionAborted,
        IoErrorKind::ConnectionAborted => FsError::ConnectionAborted,
        IoErrorKind::NotConnected => FsError::NotConnected,
        IoErrorKind::AddrInUse => FsError::AddressInUse,
        IoErrorKind::AddrNotAvailable => FsError::AddressUnavailable,
        IoErrorKind::BrokenPipe => FsError::BrokenPipe,
        IoErrorKind::AlreadyExists => FsError::AlreadyExists,
        IoErrorKind::WouldBlock => FsError::WouldBlock,
        IoErrorKind::InvalidInput => FsError::InvalidArgument,
        IoErrorKind::InvalidData => FsError::InvalidArgument,
        IoErrorKind::TimedOut => FsError::TimedOut,
        IoErrorKind::WriteZero => FsError::InvalidArgument,
        IoErrorKind::UnexpectedEof => FsError::InvalidArgument,
        IoErrorKind::Interrupted => FsError::InvalidArgument,
        IoErrorKind::Other => FsError::InvalidArgument,
    }
}

/// Maps a stream failure category to the error code of the transport.
pub fn errmap(kind: IoErrorKind) -> (code: FsError)
    ensures
        code == mapped(kind),
{
    match kind {
        IoErrorKind::NotFound => FsError::EntryNotFound,
        IoErrorKind::PermissionDenied => FsError::AccessDenied,
        IoErrorKind::ConnectionRefused
        | IoErrorKind::ConnectionReset
        | IoErrorKind::ConnectionAborted => FsError::ConnectionAborted,
        IoErrorKind::NotConnected => FsError::NotConnected,
        IoErrorKind::AddrInUse => FsError::AddressInUse,
        IoErrorKind::AddrNotAvailable => FsError::AddressUnavailable,
        IoErrorKind::BrokenPipe => FsError::BrokenPipe,
        IoErrorKind::AlreadyExists => FsError::AlreadyExists,
        IoErrorKind::WouldBlock => FsError::WouldBlock,
        IoErrorKind::TimedOut => FsError::TimedOut,
        _ => FsError::InvalidArgument,
    }
}

} // verus!
