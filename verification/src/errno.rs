use vstd::prelude::*;

use crate::error::WhError;
use crate::pods::filesystem::make_inode::MakeInodeError;
use crate::pods::filesystem::readdir::{ReadDirError, ReadLinkError};
use crate::pods::filesystem::remove_inode::RemoveFileError;
use crate::pods::filesystem::rename::RenameError;
use crate::pods::whpath::{ConversionError, InodeNameError, WhPathError};

verus! {

/// The error numbers that the system handlers answer with, by name; each
/// system gives its own value to a name.
#[derive(Debug, Clone, Copy, PartialEq, Eq, Structural)]
pub enum Errno {
    ENOENT,
    ENOTDIR,
    EISDIR,
    EWOULDBLOCK,
    ENETDOWN,
    EILSEQ,
    EACCES,
    EINVAL,
    EEXIST,
    EPERM,
    ENOTEMPTY,
    EIO,
    /// The number that the system gave with the io error it reported, or
    /// `EIO` when it gave none.
    OfIoError,
}

/// The error number of each tree error.
pub open spec fn wh_errno(e: WhError) -> Errno {
    match e {
        WhError::InodeNotFound => Errno::ENOENT,
        WhError::InodeIsNotADirectory => Errno::ENOTDIR,
        WhError::InodeIsADirectory => Errno::EISDIR,
        WhError::WouldBlock { .. } => Errno::EWOULDBLOCK,
        WhError::NetworkDied { .. } => Errno::ENETDOWN,
    }
}

impl WhError {
    /// See [wh_errno].
    pub fn to_errno(&self) -> (r: Errno)
        ensures
            r == wh_errno(*self),
    {
        match self {
            WhError::InodeNotFound => Errno::ENOENT,
            WhError::InodeIsNotADirectory => Errno::ENOTDIR,
            WhError::InodeIsADirectory => Errno::EISDIR,
            WhError::WouldBlock { .. } => Errno::EWOULDBLOCK,
            WhError::NetworkDied { .. } => Errno::ENETDOWN,
        }
    }
}

impl ConversionError {
    /// A text that is not valid UTF-8: `EILSEQ`.
    pub fn to_errno(&self) -> (r: Errno)
        ensures
            r == Errno::EILSEQ,
    {
        Errno::EILSEQ
    }
}

impl WhPathError {
    /// A path that is refused: `EILSEQ`.
    pub fn to_errno(&self) -> (r: Errno)
        ensures
            r == Errno::EILSEQ,
    {
        Errno::EILSEQ
    }
}

impl InodeNameError {
    /// A name that holds a separator: `EACCES`.
    pub fn to_errno(&self) -> (r: Errno)
        ensures
            r == Errno::EACCES,
    {
        Errno::EACCES
    }
}

impl ReadLinkError {
    /// `EINVAL` for what is not a link, else as the tree error.
    pub fn to_errno(&self) -> (r: Errno)
        ensures
            r == match *self {
                ReadLinkError::NotALink => Errno::EINVAL,
                ReadLinkError::WhError { source } => wh_errno(source),
            },
    {
        match self {
            ReadLinkError::NotALink => Errno::EINVAL,
            ReadLinkError::WhError { source } => source.to_errno(),
        }
    }
}

impl ReadDirError {
    /// `EACCES` for a folder that may not be listed, else as the tree error.
    pub fn to_errno(&self) -> (r: Errno)
        ensures
            r == match *self {
                ReadDirError::PermissionError => Errno::EACCES,
                ReadDirError::WhError { source } => wh_errno(source),
            },
    {
        match self {
            ReadDirError::PermissionError => Errno::EACCES,
            ReadDirError::WhError { source } => source.to_errno(),
        }
    }
}

impl MakeInodeError {
    /// The error number of a refused creation.
    pub fn to_errno(&self) -> (r: Errno)
        ensures
            r == match *self {
                MakeInodeError::WhError { source } => wh_errno(source),
                MakeInodeError::AlreadyExist => Errno::EEXIST,
                MakeInodeError::ParentNotFound => Errno::ENOENT,
                MakeInodeError::ParentNotFolder => Errno::ENOTDIR,
                MakeInodeError::LocalCreationFailed { .. } => Errno::OfIoError,
                MakeInodeError::ProtectedNameIsFolder => Errno::EPERM,
                MakeInodeError::PermissionDenied => Errno::EACCES,
            },
    {
        match self {
            MakeInodeError::WhError { source } => source.to_errno(),
            MakeInodeError::AlreadyExist => Errno::EEXIST,
            MakeInodeError::ParentNotFound => Errno::ENOENT,
            MakeInodeError::ParentNotFolder => Errno::ENOTDIR,
            MakeInodeError::LocalCreationFailed { .. } => Errno::OfIoError,
            MakeInodeError::ProtectedNameIsFolder => Errno::EPERM,
            MakeInodeError::PermissionDenied => Errno::EACCES,
        }
    }
}

impl RemoveFileError {
    /// The error number of a refused removal.
    pub fn to_errno(&self) -> (r: Errno)
        ensures
            r == match *self {
                RemoveFileError::WhError { source } => wh_errno(source),
                RemoveFileError::NonEmpty => Errno::ENOTEMPTY,
                RemoveFileError::LocalDeletionFailed { .. } => Errno::OfIoError,
                RemoveFileError::PermissionDenied => Errno::EACCES,
            },
    {
        match self {
            RemoveFileError::WhError { source } => source.to_errno(),
            RemoveFileError::NonEmpty => Errno::ENOTEMPTY,
            RemoveFileError::LocalDeletionFailed { .. } => Errno::OfIoError,
            RemoveFileError::PermissionDenied => Errno::EACCES,
        }
    }
}

impl RenameError {
    /// The error number of a refused rename.
    pub fn to_errno(&self) -> (r: Errno)
        ensures
            r == match *self {
                RenameError::WhError { source } => wh_errno(source),
                RenameError::OverwriteNonEmpty => Errno::ENOTEMPTY,
                RenameError::LocalOverwriteFailed { .. } => Errno::OfIoError,
                RenameError::LocalRenamingFailed { .. } => Errno::OfIoError,
                RenameError::LocalWriteFailed { .. } => Errno::OfIoError,
                RenameError::SourceParentNotFound => Errno::ENOENT,
                RenameError::DestinationParentNotFound => Errno::ENOENT,
                RenameError::SourceParentNotFolder => Errno::ENOTDIR,
                RenameError::DestinationParentNotFolder => Errno::ENOTDIR,
                RenameError::DestinationExists => Errno::EEXIST,
                RenameError::ProtectedNameIsFolder => Errno::EPERM,
                RenameError::FlushError { .. } => Errno::EIO,
                RenameError::ReadFailed { .. } => Errno::EIO,
                RenameError::PermissionDenied => Errno::EACCES,
            },
    {
        match self {
            RenameError::WhError { source } => source.to_errno(),
            RenameError::OverwriteNonEmpty => Errno::ENOTEMPTY,
            RenameError::LocalOverwriteFailed { .. } => Errno::OfIoError,
            RenameError::LocalRenamingFailed { .. } => Errno::OfIoError,
            RenameError::LocalWriteFailed { .. } => Errno::OfIoError,
            RenameError::SourceParentNotFound => Errno::ENOENT,
            RenameError::DestinationParentNotFound => Errno::ENOENT,
            RenameError::SourceParentNotFolder => Errno::ENOTDIR,
            RenameError::DestinationParentNotFolder => Errno::ENOTDIR,
            RenameError::DestinationExists => Errno::EEXIST,
            RenameError::ProtectedNameIsFolder => Errno::EPERM,
            RenameError::FlushError { .. } => Errno::EIO,
            RenameError::ReadFailed { .. } => Errno::EIO,
            RenameError::PermissionDenied => Errno::EACCES,
        }
    }
}

} // verus!
