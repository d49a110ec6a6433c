//! Syscall-interception logic for path-bearing filesystem operations.
//!
//! A traced guest process's file syscalls are classified against a mount
//! table: paths under a virtual mount are served from a VFS backend, paths
//! under a bind-style redirect are rewritten before re-injection, and all
//! other paths pass through to the kernel untouched.

use vstd::prelude::*;

pub mod completions;
pub mod errno;
pub mod fd;
pub mod handlers;
pub mod laws;
pub mod mount;
pub mod path;

verus! {

/// The `dirfd` sentinel meaning "relative to the current working directory".
/// It is reserved and never translated by the fd table.
pub const AT_FDCWD: i32 = -100;

/// The `newfstatat` flag that asks for the link itself rather than what it
/// points to: it selects `lstat` over `stat` on a virtual backend.
pub const AT_SYMLINK_NOFOLLOW: i32 = 0x100;

} // verus!
