//! The error kinds that filesystem operations report.

use vstd::prelude::*;

verus! {

/// Why an operation on a filesystem node failed.
#[derive(Debug, Clone, Copy, PartialEq, Eq, Structural)]
pub enum VfsError {
    /// A path component, or a `..` with no parent, does not resolve.
    NotFound,
    /// The name to create is already present.
    AlreadyExists,
    /// The directory to remove still has entries.
    DirectoryNotEmpty,
    /// The operation is not meaningful for this kind of node or filesystem.
    Unsupported,
    /// The filesystem never allows the operation.
    PermissionDenied,
    /// A file operation on a directory, or the removal of `.` or `..`.
    InvalidInput,
    /// A directory operation reached a node that is not a directory.
    NotADirectory,
}

/// The result of a filesystem operation.
pub type VfsResult<T> = Result<T, VfsError>;

} // verus!
