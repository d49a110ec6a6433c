//! The VFS error taxonomy and its mapping onto kernel errno values.
//!
//! A virtual backend reports failures as abstract [`VfsError`] kinds; each
//! syscall family maps those kinds onto Linux errno values. A handler that
//! services a call from the VFS returns the errno negated, the trace
//! protocol's convention for "syscall failed".

use vstd::prelude::*;

verus! {

/// Abstract error kinds a VFS backend may report.
#[derive(Clone, Copy, Debug, PartialEq, Eq, Structural)]
pub enum VfsError {
    NotFound,
    PermissionDenied,
    AlreadyExists,
    NotADirectory,
    IsADirectory,
    InvalidArgument,
    IoError,
}

/// Operation not permitted.
pub const EPERM: i32 = 1;

/// No such file or directory.
pub const ENOENT: i32 = 2;

/// Input/output error.
pub const EIO: i32 = 5;

/// Permission denied.
pub const EACCES: i32 = 13;

/// File exists.
pub const EEXIST: i32 = 17;

/// Invalid argument.
pub const EINVAL: i32 = 22;

/// Function not implemented.
pub const ENOSYS: i32 = 38;

/// Errno for a VFS error reported by `stat` or `lstat`.
pub open spec fn stat_errno(e: VfsError) -> int {
    match e {
        VfsError::NotFound => ENOENT as int,
        VfsError::PermissionDenied => EACCES as int,
        VfsError::AlreadyExists => EEXIST as int,
        _ => EIO as int,
    }
}

/// Errno for a VFS error reported by `link`.
pub open spec fn link_errno(e: VfsError) -> int {
    match e {
        VfsError::NotFound => ENOENT as int,
        VfsError::PermissionDenied => EPERM as int,
        VfsError::AlreadyExists => EEXIST as int,
        _ => EIO as int,
    }
}

/// Errno for a VFS error reported by `readlink`.
pub open spec fn readlink_errno(e: VfsError) -> int {
    match e {
        VfsError::NotFound => ENOENT as int,
        VfsError::PermissionDenied => EACCES as int,
        VfsError::AlreadyExists => EEXIST as int,
        _ => EINVAL as int,
    }
}

/// Errno for a VFS error reported by `symlink`.
pub open spec fn symlink_errno(e: VfsError) -> int {
    match e {
        VfsError::NotFound => ENOENT as int,
        VfsError::PermissionDenied => EACCES as int,
        VfsError::AlreadyExists => EEXIST as int,
        _ => EINVAL as int,
    }
}

/// Negated errno for a `stat`-family VFS error, as returned to the guest.
pub fn stat_result_errno(e: VfsError) -> (r: i64)
    ensures
        r == -stat_errno(e),
{
    let errno: i32 = match e {
        VfsError::NotFound => ENOENT,
        VfsError::PermissionDenied => EACCES,
        VfsError::AlreadyExists => EEXIST,
        _ => EIO,
    };
    -(errno as i64)
}

/// Negated errno for a `link`-family VFS error, as returned to the guest.
pub fn link_result_errno(e: VfsError) -> (r: i64)
    ensures
        r == -link_errno(e),
{
    let errno: i32 = match e {
        VfsError::NotFound => ENOENT,
        VfsError::PermissionDenied => EPERM,
        VfsError::AlreadyExists => EEXIST,
        _ => EIO,
    };
    -(errno as i64)
}

/// Negated errno for a `readlink`-family VFS error, as returned to the guest.
pub fn readlink_result_errno(e: VfsError) -> (r: i64)
    ensures
        r == -readlink_errno(e),
{
    let errno: i32 = match e {
        VfsError::NotFound => ENOENT,
        VfsError::PermissionDenied => EACCES,
        VfsError::AlreadyExists => EEXIST,
        _ => EINVAL,
    };
    -(errno as i64)
}

/// Negated errno for a `symlink`-family VFS error, as returned to the guest.
pub fn symlink_result_errno(e: VfsError) -> (r: i64)
    ensures
        r == -symlink_errno(e),
{
    let errno: i32 = match e {
        VfsError::NotFound => ENOENT,
        VfsError::PermissionDenied => EACCES,
        VfsError::AlreadyExists => EEXIST,
        _ => EINVAL,
    };
    -(errno as i64)
}

} // verus!
