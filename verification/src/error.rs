use vstd::prelude::*;

verus! {

/// Errors shared by the inode tree and the interfaces built on it.
#[derive(Debug, Clone, PartialEq, Eq)]
pub enum WhError {
    InodeNotFound,
    InodeIsNotADirectory,
    InodeIsADirectory,
    WouldBlock { called_from: String },
    NetworkDied { called_from: String },
}

/// Result type of the operations that can only fail with a [WhError].
pub type WhResult<T> = Result<T, WhError>;

} // verus!

verus! {

/// The kinds of io error that the library reports.
#[derive(Debug, Clone, Copy, PartialEq, Eq)]
pub enum IoKind {
    NotFound,
    AlreadyExists,
    InvalidData,
    InvalidInput,
    InvalidFilename,
    PermissionDenied,
    Other,
}

#[verifier::external_type_specification]
#[verifier::external_body]
pub struct ExIoError(std::io::Error);

/// Builds an io error with `std::io::Error::new`, from the given kind and message.
///
/// Nothing is stated of the error built: its kind and message are only read by
/// code outside this library.
#[verifier::external_body]
pub(crate) fn new_io_error(kind: IoKind, msg: String) -> std::io::Error {
    let kind = match kind {
        IoKind::NotFound => std::io::ErrorKind::NotFound,
        IoKind::AlreadyExists => std::io::ErrorKind::AlreadyExists,
        IoKind::InvalidData => std::io::ErrorKind::InvalidData,
        IoKind::InvalidInput => std::io::ErrorKind::InvalidInput,
        IoKind::InvalidFilename => std::io::ErrorKind::InvalidFilename,
        IoKind::PermissionDenied => std::io::ErrorKind::PermissionDenied,
        IoKind::Other => std::io::ErrorKind::Other,
    };
    std::io::Error::new(kind, msg)
}

/// Builds an io error of the given kind with no message, as
/// `std::io::Error::from` does for an `std::io::ErrorKind`; its text is the
/// kind's own description.
///
/// Nothing is stated of the error built: its kind is only read by code outside
/// this library.
#[verifier::external_body]
pub(crate) fn io_error_of_kind(kind: IoKind) -> std::io::Error {
    let kind = match kind {
        IoKind::NotFound => std::io::ErrorKind::NotFound,
        IoKind::AlreadyExists => std::io::ErrorKind::AlreadyExists,
        IoKind::InvalidData => std::io::ErrorKind::InvalidData,
        IoKind::InvalidInput => std::io::ErrorKind::InvalidInput,
        IoKind::InvalidFilename => std::io::ErrorKind::InvalidFilename,
        IoKind::PermissionDenied => std::io::ErrorKind::PermissionDenied,
        IoKind::Other => std::io::ErrorKind::Other,
    };
    std::io::Error::from(kind)
}

} // verus!
