//! Per-syscall decision logic.
//!
//! Each intercepted syscall goes through the same three stages: classify the
//! path arguments against the mount table, virtualize any `dirfd`, and
//! dispatch. The handlers here are the decision core of those stages: they
//! take the argument record with the path bytes already read from guest
//! memory, and answer what the supervisor must do — let the original call
//! run, synthesize a return value, serve the call from the VFS, or re-inject
//! a rewritten call. A companion `complete_*` function turns the VFS's
//! outcome into the value and guest-memory write handed back to the guest.
//!
//! Path arguments arrive as the bytes of NUL-terminated guest strings, so
//! they carry no NUL themselves: the handlers require that. Rewritten paths
//! are produced as NUL-terminated byte strings, ready to be marshalled into
//! guest scratch memory; arguments a decision does not carry are reused from
//! the original call unchanged.

use vstd::prelude::*;

use crate::errno::{
    link_errno, link_result_errno, readlink_errno, readlink_result_errno, stat_errno,
    stat_result_errno, symlink_errno, symlink_result_errno, VfsError, ENOSYS,
};
use crate::fd::{fd_translate, FdTable};
use crate::mount::MountTable;
use crate::path::{copy_bytes, nul_free};
use crate::AT_SYMLINK_NOFOLLOW;

verus! {

/// A pending write into guest memory.
pub struct GuestWrite {
    /// Guest virtual address the bytes go to.
    pub addr: u64,
    /// The bytes to write.
    pub bytes: Vec<u8>,
}

/// What a handler hands back to the guest after serving a call from the
/// VFS: the syscall return value, and at most one guest-memory write.
pub struct VfsReply {
    pub result: i64,
    pub write: Option<GuestWrite>,
}

/// The `statx` argument record, with the path read from guest memory.
pub struct StatxArgs {
    pub dirfd: i32,
    pub path: Option<Vec<u8>>,
    pub flags: i32,
    pub mask: u32,
    pub statx_addr: Option<u64>,
}

/// A rewritten `statx` call to re-inject.
pub struct StatxCall {
    pub dirfd: i32,
    pub path: Vec<u8>,
    pub flags: i32,
    pub mask: u32,
    pub statx_addr: Option<u64>,
}

/// What the supervisor must do with an intercepted `statx`.
pub enum StatxDecision {
    /// Let the original call run unchanged.
    PassThrough,
    /// Hand this value straight back to the guest.
    Return(i64),
    /// Re-inject the rewritten call and hand its result back.
    Reinject(StatxCall),
}

/// Everything `handle_statx` decides, as a predicate over its inputs and
/// its decision: the laws about the handler are proved from this.
pub open spec fn statx_post(mt: MountTable, fds: FdTable, args: StatxArgs, d: StatxDecision) -> bool {
    &&& (args.path is None ==> d == StatxDecision::PassThrough)
    &&& (args.path matches Some(p) ==> {
            &&& !mt.resolves(p@) ==> d == StatxDecision::PassThrough
            &&& mt.resolves(p@) && mt.resolved_is_virtual(p@) ==> (d
                matches StatxDecision::Return(v) && v as int == -(ENOSYS as int))
            &&& mt.resolves(p@) && !mt.resolved_is_virtual(p@) ==> (d
                matches StatxDecision::Reinject(c) && c.dirfd as int == fd_translate(
                fds@,
                args.dirfd as int,
            ) && c.path@ == mt.resolved_path(p@) + seq![0u8] && c.flags == args.flags && c.mask
                == args.mask && c.statx_addr == args.statx_addr)
        })
}

/// Classify a `statx` call. A path on a virtual mount is refused with
/// `-ENOSYS`, so the caller falls back to `newfstatat`; a path on a redirect
/// is rewritten; anything else passes through.
pub fn handle_statx(mt: &MountTable, fds: &FdTable, args: &StatxArgs) -> (d: StatxDecision)
    requires
        mt.wf(),
        fds.wf(),
        args.path matches Some(p) ==> nul_free(p@),
    ensures
        statx_post(*mt, *fds, *args, d),
{
    match &args.path {
        None => StatxDecision::PassThrough,
        Some(p) => {
            match mt.resolve(p) {
                None => StatxDecision::PassThrough,
                Some(res) => {
                    if res.is_virtual {
                        StatxDecision::Return(-(ENOSYS as i64))
                    } else {
                        let kernel_dirfd = fds.translate(args.dirfd);
                        let mut path = res.translated;
                        path.push(0u8);
                        proof {
                            assert(path@ =~= mt.resolved_path(p@) + seq![0u8]);
                        }
                        StatxDecision::Reinject(
                            StatxCall {
                                dirfd: kernel_dirfd,
                                path,
                                flags: args.flags,
                                mask: args.mask,
                                statx_addr: args.statx_addr,
                            },
                        )
                    }
                },
            }
        },
    }
}

/// The `newfstatat` argument record, with the path read from guest memory.
pub struct NewfstatatArgs {
    pub dirfd: i32,
    pub path: Option<Vec<u8>>,
    pub stat_addr: Option<u64>,
    pub flags: i32,
}

/// A `stat` or `lstat` request to put to the virtual backend.
pub struct VfsStatRequest {
    /// True for `stat` (follow the final symlink), false for `lstat`.
    pub follow_symlinks: bool,
    /// The path as the guest presented it.
    pub path: Vec<u8>,
}

/// A rewritten `newfstatat` call to re-inject.
pub struct NewfstatatCall {
    pub dirfd: i32,
    pub path: Vec<u8>,
    pub stat_addr: Option<u64>,
    pub flags: i32,
}

/// What the supervisor must do with an intercepted `newfstatat`.
pub enum NewfstatatDecision {
    PassThrough,
    /// Serve from the VFS and reply through [`complete_newfstatat`].
    Virtual(VfsStatRequest),
    Reinject(NewfstatatCall),
}

/// Everything `handle_newfstatat` decides, as a predicate over its inputs and
/// its decision: the laws about the handler are proved from this.
pub open spec fn newfstatat_post(mt: MountTable, fds: FdTable, args: NewfstatatArgs, d: NewfstatatDecision) -> bool {
    &&& (args.path is None ==> d == NewfstatatDecision::PassThrough)
    &&& (args.path matches Some(p) ==> {
            &&& !mt.resolves(p@) ==> d == NewfstatatDecision::PassThrough
            &&& mt.resolves(p@) && mt.resolved_is_virtual(p@) ==> (d
                matches NewfstatatDecision::Virtual(q) && q.path@ == p@ && q.follow_symlinks == (
            args.flags & AT_SYMLINK_NOFOLLOW == 0))
            &&& mt.resolves(p@) && !mt.resolved_is_virtual(p@) ==> (d
                matches NewfstatatDecision::Reinject(c) && c.dirfd as int == fd_translate(
                fds@,
                args.dirfd as int,
            ) && c.path@ == mt.resolved_path(p@) + seq![0u8] && c.stat_addr == args.stat_addr
                && c.flags == args.flags)
        })
}

/// Classify a `newfstatat` call. On a virtual mount the backend serves it:
/// `stat` or `lstat` according to `AT_SYMLINK_NOFOLLOW`. On a redirect the
/// path is rewritten and the call re-injected with the stat buffer address
/// and flags untouched.
pub fn handle_newfstatat(mt: &MountTable, fds: &FdTable, args: &NewfstatatArgs) -> (d:
    NewfstatatDecision)
    requires
        mt.wf(),
        fds.wf(),
        args.path matches Some(p) ==> nul_free(p@),
    ensures
        newfstatat_post(*mt, *fds, *args, d),
{
    match &args.path {
        None => NewfstatatDecision::PassThrough,
        Some(p) => {
            match mt.resolve(p) {
                None => NewfstatatDecision::PassThrough,
                Some(res) => {
                    if res.is_virtual {
                        let follow = args.flags & AT_SYMLINK_NOFOLLOW == 0;
                        NewfstatatDecision::Virtual(
                            VfsStatRequest { follow_symlinks: follow, path: copy_bytes(p) },
                        )
                    } else {
                        let kernel_dirfd = fds.translate(args.dirfd);
                        let mut path = res.translated;
                        path.push(0u8);
                        proof {
                            assert(path@ =~= mt.resolved_path(p@) + seq![0u8]);
                        }
                        NewfstatatDecision::Reinject(
                            NewfstatatCall {
                                dirfd: kernel_dirfd,
                                path,
                                stat_addr: args.stat_addr,
                                flags: args.flags,
                            },
                        )
                    }
                },
            }
        },
    }
}

/// Turn the backend's `stat`/`lstat` outcome into the guest-visible reply.
/// Success writes the raw stat record into the guest's buffer, when one was
/// given, and returns 0; an error returns the negated errno of the `stat`
/// family and writes nothing.
pub fn complete_newfstatat(stat_result: Result<Vec<u8>, VfsError>, stat_addr: Option<u64>) -> (r:
    VfsReply)
    ensures
        stat_result matches Ok(b) ==> {
            &&& r.result == 0
            &&& stat_addr matches Some(a) ==> r.write matches Some(w) && w.addr == a && w.bytes@
                == b@
            &&& stat_addr is None ==> r.write is None
        },
        stat_result matches Err(e) ==> r.result == -stat_errno(e) && r.write is None,
{
    match stat_result {
        Ok(bytes) => {
            match stat_addr {
                Some(addr) => VfsReply { result: 0, write: Some(GuestWrite { addr, bytes }) },
                None => VfsReply { result: 0, write: None },
            }
        },
        Err(e) => VfsReply { result: stat_result_errno(e), write: None },
    }
}

/// The `statfs` argument record, with the path read from guest memory.
pub struct StatfsArgs {
    pub path: Option<Vec<u8>>,
    pub buf_addr: Option<u64>,
}

/// A rewritten `statfs` call for the supervisor to emit.
pub struct StatfsCall {
    pub path: Vec<u8>,
    pub buf_addr: Option<u64>,
}

/// What the supervisor must do with an intercepted `statfs`.
pub enum StatfsDecision {
    PassThrough,
    /// Emit the rewritten call in place of the original.
    Reinject(StatfsCall),
}

/// Everything `handle_statfs` decides, as a predicate over its inputs and
/// its decision: the laws about the handler are proved from this.
pub open spec fn statfs_post(mt: MountTable, args: StatfsArgs, d: StatfsDecision) -> bool {
    &&& (args.path is None ==> d == StatfsDecision::PassThrough)
    &&& (args.path matches Some(p) ==> {
            &&& !mt.resolves(p@) || mt.resolved_is_virtual(p@) ==> d == StatfsDecision::PassThrough
            &&& mt.resolves(p@) && !mt.resolved_is_virtual(p@) ==> (d
                matches StatfsDecision::Reinject(c) && c.path@ == mt.resolved_path(p@) + seq![0u8]
                && c.buf_addr == args.buf_addr)
        })
}

/// Classify a `statfs` call. Only path rewriting applies: a virtual mount
/// offers no `statfs`, so its paths pass through like unmatched ones.
pub fn handle_statfs(mt: &MountTable, args: &StatfsArgs) -> (d: StatfsDecision)
    requires
        mt.wf(),
        args.path matches Some(p) ==> nul_free(p@),
    ensures
        statfs_post(*mt, *args, d),
{
    match &args.path {
        None => StatfsDecision::PassThrough,
        Some(p) => {
            match mt.resolve(p) {
                None => StatfsDecision::PassThrough,
                Some(res) => {
                    if res.is_virtual {
                        StatfsDecision::PassThrough
                    } else {
                        let mut path = res.translated;
                        path.push(0u8);
                        proof {
                            assert(path@ =~= mt.resolved_path(p@) + seq![0u8]);
                        }
                        StatfsDecision::Reinject(StatfsCall { path, buf_addr: args.buf_addr })
                    }
                },
            }
        },
    }
}

/// The `readlink` argument record, with the path read from guest memory.
pub struct ReadlinkArgs {
    pub path: Option<Vec<u8>>,
    pub buf_addr: Option<u64>,
    pub bufsize: usize,
}

/// A `readlink` request to put to the virtual backend.
pub struct VfsReadlinkRequest {
    /// The path as the guest presented it.
    pub path: Vec<u8>,
}

/// A rewritten `readlink` call to re-inject.
pub struct ReadlinkCall {
    pub path: Vec<u8>,
    pub buf_addr: Option<u64>,
    pub bufsize: usize,
}

/// What the supervisor must do with an intercepted `readlink`.
pub enum ReadlinkDecision {
    PassThrough,
    /// Serve from the VFS and reply through [`complete_readlink`].
    Virtual(VfsReadlinkRequest),
    Reinject(ReadlinkCall),
}

/// Everything `handle_readlink` decides, as a predicate over its inputs and
/// its decision: the laws about the handler are proved from this.
pub open spec fn readlink_post(mt: MountTable, args: ReadlinkArgs, d: ReadlinkDecision) -> bool {
    &&& (args.path is None ==> d == ReadlinkDecision::PassThrough)
    &&& (args.path matches Some(p) ==> {
            &&& !mt.resolves(p@) ==> d == ReadlinkDecision::PassThrough
            &&& mt.resolves(p@) && mt.resolved_is_virtual(p@) ==> (d
                matches ReadlinkDecision::Virtual(q) && q.path@ == p@)
            &&& mt.resolves(p@) && !mt.resolved_is_virtual(p@) ==> (d
                matches ReadlinkDecision::Reinject(c) && c.path@ == mt.resolved_path(p@)
                + seq![0u8] && c.buf_addr == args.buf_addr && c.bufsize == args.bufsize)
        })
}

/// Classify a `readlink` call: the backend answers for a virtual mount, a
/// redirect rewrites the path and keeps the buffer arguments untouched.
pub fn handle_readlink(mt: &MountTable, args: &ReadlinkArgs) -> (d: ReadlinkDecision)
    requires
        mt.wf(),
        args.path matches Some(p) ==> nul_free(p@),
    ensures
        readlink_post(*mt, *args, d),
{
    match &args.path {
        None => ReadlinkDecision::PassThrough,
        Some(p) => {
            match mt.resolve(p) {
                None => ReadlinkDecision::PassThrough,
                Some(res) => {
                    if res.is_virtual {
                        ReadlinkDecision::Virtual(VfsReadlinkRequest { path: copy_bytes(p) })
                    } else {
                        let mut path = res.translated;
                        path.push(0u8);
                        proof {
                            assert(path@ =~= mt.resolved_path(p@) + seq![0u8]);
                        }
                        ReadlinkDecision::Reinject(
                            ReadlinkCall {
                                path,
                                buf_addr: args.buf_addr,
                                bufsize: args.bufsize,
                            },
                        )
                    }
                },
            }
        },
    }
}

/// The `readlinkat` argument record, with the path read from guest memory.
pub struct ReadlinkatArgs {
    pub dirfd: i32,
    pub path: Option<Vec<u8>>,
    pub buf_addr: Option<u64>,
    pub bufsize: usize,
}

/// A rewritten `readlinkat` call to re-inject.
pub struct ReadlinkatCall {
    pub dirfd: i32,
    pub path: Vec<u8>,
    pub buf_addr: Option<u64>,
    pub bufsize: usize,
}

/// What the supervisor must do with an intercepted `readlinkat`.
pub enum ReadlinkatDecision {
    PassThrough,
    /// Serve from the VFS and reply through [`complete_readlink`].
    Virtual(VfsReadlinkRequest),
    Reinject(ReadlinkatCall),
}

/// Everything `handle_readlinkat` decides, as a predicate over its inputs and
/// its decision: the laws about the handler are proved from this.
pub open spec fn readlinkat_post(mt: MountTable, fds: FdTable, args: ReadlinkatArgs, d: ReadlinkatDecision) -> bool {
    &&& (args.path is None ==> d == ReadlinkatDecision::PassThrough)
    &&& (args.path matches Some(p) ==> {
            &&& !mt.resolves(p@) ==> d == ReadlinkatDecision::PassThrough
            &&& mt.resolves(p@) && mt.resolved_is_virtual(p@) ==> (d
                matches ReadlinkatDecision::Virtual(q) && q.path@ == p@)
            &&& mt.resolves(p@) && !mt.resolved_is_virtual(p@) ==> (d
                matches ReadlinkatDecision::Reinject(c) && c.dirfd as int == fd_translate(
                fds@,
                args.dirfd as int,
            ) && c.path@ == mt.resolved_path(p@) + seq![0u8] && c.buf_addr == args.buf_addr
                && c.bufsize == args.bufsize)
        })
}

/// Classify a `readlinkat` call: as `readlink`, with the `dirfd` virtualized
/// on re-injection.
pub fn handle_readlinkat(mt: &MountTable, fds: &FdTable, args: &ReadlinkatArgs) -> (d:
    ReadlinkatDecision)
    requires
        mt.wf(),
        fds.wf(),
        args.path matches Some(p) ==> nul_free(p@),
    ensures
        readlinkat_post(*mt, *fds, *args, d),
{
    match &args.path {
        None => ReadlinkatDecision::PassThrough,
        Some(p) => {
            match mt.resolve(p) {
                None => ReadlinkatDecision::PassThrough,
                Some(res) => {
                    if res.is_virtual {
                        ReadlinkatDecision::Virtual(VfsReadlinkRequest { path: copy_bytes(p) })
                    } else {
                        let kernel_dirfd = fds.translate(args.dirfd);
                        let mut path = res.translated;
                        path.push(0u8);
                        proof {
                            assert(path@ =~= mt.resolved_path(p@) + seq![0u8]);
                        }
                        ReadlinkatDecision::Reinject(
                            ReadlinkatCall {
                                dirfd: kernel_dirfd,
                                path,
                                buf_addr: args.buf_addr,
                                bufsize: args.bufsize,
                            },
                        )
                    }
                },
            }
        },
    }
}

/// How many bytes of a link target a `readlink` with a `bufsize`-byte buffer
/// returns: the target, truncated to the buffer.
pub open spec fn readlink_count(target_len: int, bufsize: int) -> int {
    if target_len <= bufsize {
        target_len
    } else {
        bufsize
    }
}

/// Everything `complete_readlink` answers, as a predicate over the
/// backend's outcome, the buffer arguments, and the reply.
pub open spec fn readlink_reply_post(
    target: Result<Vec<u8>, VfsError>,
    buf_addr: Option<u64>,
    bufsize: usize,
    r: VfsReply,
) -> bool {
    &&& (target matches Ok(t) ==> {
            &&& buf_addr matches Some(a) ==> (r.write matches Some(w) && w.addr == a && w.bytes@
                == t@.take(readlink_count(t@.len() as int, bufsize as int)) && r.result
                == readlink_count(t@.len() as int, bufsize as int))
            &&& buf_addr is None ==> r.result == 0 && r.write is None
        })
    &&& (target matches Err(e) ==> r.result == -readlink_errno(e) && r.write is None)
}

/// Turn the backend's `readlink` outcome into the guest-visible reply.
/// Success writes at most `bufsize` bytes of the target into the guest's
/// buffer and returns the count written — no NUL terminator, as the kernel
/// does; an error returns the negated errno of the `readlink` family.
pub fn complete_readlink(
    target: Result<Vec<u8>, VfsError>,
    buf_addr: Option<u64>,
    bufsize: usize,
) -> (r: VfsReply)
    requires
        bufsize <= i64::MAX,
    ensures
        readlink_reply_post(target, buf_addr, bufsize, r),
{
    match target {
        Ok(mut t) => {
            match buf_addr {
                Some(addr) => {
                    let ghost t0 = t@;
                    let n: usize = if t.len() <= bufsize {
                        t.len()
                    } else {
                        bufsize
                    };
                    t.truncate(n);
                    proof {
                        assert(t@ =~= t0.take(n as int));
                    }
                    VfsReply {
                        result: n as i64,
                        write: Some(GuestWrite { addr, bytes: t }),
                    }
                },
                None => VfsReply { result: 0, write: None },
            }
        },
        Err(e) => VfsReply { result: readlink_result_errno(e), write: None },
    }
}

/// The `symlink` argument record, with both strings read from guest memory.
pub struct SymlinkArgs {
    /// What the link will point to: an opaque string, never translated.
    pub target: Option<Vec<u8>>,
    /// Where the link is created.
    pub linkpath: Option<Vec<u8>>,
}

/// A `symlink` request to put to the virtual backend.
pub struct VfsSymlinkRequest {
    /// The target exactly as the guest presented it.
    pub target: Vec<u8>,
    /// The link path as the guest presented it.
    pub linkpath: Vec<u8>,
}

/// A rewritten `symlink` call to re-inject. The target argument is not
/// carried: the re-injected call reuses the guest's own target address, so
/// the target string cannot be mutated.
pub struct SymlinkCall {
    pub linkpath: Vec<u8>,
}

/// What the supervisor must do with an intercepted `symlink`.
pub enum SymlinkDecision {
    PassThrough,
    /// Serve from the VFS and reply through [`complete_symlink`].
    Virtual(VfsSymlinkRequest),
    Reinject(SymlinkCall),
}

/// Everything `handle_symlink` decides, as a predicate over its inputs and
/// its decision: the laws about the handler are proved from this.
pub open spec fn symlink_post(mt: MountTable, args: SymlinkArgs, d: SymlinkDecision) -> bool {
    &&& (args.linkpath is None || args.target is None ==> d == SymlinkDecision::PassThrough)
    &&& (args.linkpath matches Some(l) ==> (args.target matches Some(t) ==> {
            &&& !mt.resolves(l@) ==> d == SymlinkDecision::PassThrough
            &&& mt.resolves(l@) && mt.resolved_is_virtual(l@) ==> (d
                matches SymlinkDecision::Virtual(q) && q.target@ == t@ && q.linkpath@ == l@)
            &&& mt.resolves(l@) && !mt.resolved_is_virtual(l@) ==> (d
                matches SymlinkDecision::Reinject(c) && c.linkpath@ == mt.resolved_path(l@)
                + seq![0u8])
        }))
}

/// Classify a `symlink` call. Only the link path is looked up and, on a
/// redirect, rewritten; the target is an opaque string stored in the link
/// and travels untouched.
pub fn handle_symlink(mt: &MountTable, args: &SymlinkArgs) -> (d: SymlinkDecision)
    requires
        mt.wf(),
        args.linkpath matches Some(l) ==> nul_free(l@),
    ensures
        symlink_post(*mt, *args, d),
{
    match (&args.linkpath, &args.target) {
        (Some(l), Some(t)) => {
            match mt.resolve(l) {
                None => SymlinkDecision::PassThrough,
                Some(res) => {
                    if res.is_virtual {
                        SymlinkDecision::Virtual(
                            VfsSymlinkRequest { target: copy_bytes(t), linkpath: copy_bytes(l) },
                        )
                    } else {
                        let mut linkpath = res.translated;
                        linkpath.push(0u8);
                        proof {
                            assert(linkpath@ =~= mt.resolved_path(l@) + seq![0u8]);
                        }
                        SymlinkDecision::Reinject(SymlinkCall { linkpath })
                    }
                },
            }
        },
        _ => SymlinkDecision::PassThrough,
    }
}

/// The `symlinkat` argument record, with both strings read from guest
/// memory.
pub struct SymlinkatArgs {
    /// What the link will point to: an opaque string, never translated.
    pub target: Option<Vec<u8>>,
    /// Directory descriptor the link path is relative to.
    pub newdirfd: i32,
    /// Where the link is created.
    pub linkpath: Option<Vec<u8>>,
}

/// A rewritten `symlinkat` call to re-inject; the target argument reuses the
/// guest's own address, as in [`SymlinkCall`].
pub struct SymlinkatCall {
    pub newdirfd: i32,
    pub linkpath: Vec<u8>,
}

/// What the supervisor must do with an intercepted `symlinkat`.
pub enum SymlinkatDecision {
    PassThrough,
    /// Serve from the VFS and reply through [`complete_symlink`].
    Virtual(VfsSymlinkRequest),
    Reinject(SymlinkatCall),
}

/// Everything `handle_symlinkat` decides, as a predicate over its inputs and
/// its decision: the laws about the handler are proved from this.
pub open spec fn symlinkat_post(mt: MountTable, fds: FdTable, args: SymlinkatArgs, d: SymlinkatDecision) -> bool {
    &&& (args.linkpath is None || args.target is None ==> d == SymlinkatDecision::PassThrough)
    &&& (args.linkpath matches Some(l) ==> (args.target matches Some(t) ==> {
            &&& !mt.resolves(l@) ==> d == SymlinkatDecision::PassThrough
            &&& mt.resolves(l@) && mt.resolved_is_virtual(l@) ==> (d
                matches SymlinkatDecision::Virtual(q) && q.target@ == t@ && q.linkpath@ == l@)
            &&& mt.resolves(l@) && !mt.resolved_is_virtual(l@) ==> (d
                matches SymlinkatDecision::Reinject(c) && c.newdirfd as int == fd_translate(
                fds@,
                args.newdirfd as int,
            ) && c.linkpath@ == mt.resolved_path(l@) + seq![0u8])
        }))
}

/// Classify a `symlinkat` call: as `symlink`, with `newdirfd` virtualized on
/// re-injection.
pub fn handle_symlinkat(mt: &MountTable, fds: &FdTable, args: &SymlinkatArgs) -> (d:
    SymlinkatDecision)
    requires
        mt.wf(),
        fds.wf(),
        args.linkpath matches Some(l) ==> nul_free(l@),
    ensures
        symlinkat_post(*mt, *fds, *args, d),
{
    match (&args.linkpath, &args.target) {
        (Some(l), Some(t)) => {
            match mt.resolve(l) {
                None => SymlinkatDecision::PassThrough,
                Some(res) => {
                    if res.is_virtual {
                        SymlinkatDecision::Virtual(
                            VfsSymlinkRequest { target: copy_bytes(t), linkpath: copy_bytes(l) },
                        )
                    } else {
                        let kernel_newdirfd = fds.translate(args.newdirfd);
                        let mut linkpath = res.translated;
                        linkpath.push(0u8);
                        proof {
                            assert(linkpath@ =~= mt.resolved_path(l@) + seq![0u8]);
                        }
                        SymlinkatDecision::Reinject(
                            SymlinkatCall { newdirfd: kernel_newdirfd, linkpath },
                        )
                    }
                },
            }
        },
        _ => SymlinkatDecision::PassThrough,
    }
}

/// Turn the backend's `symlink` outcome into the guest-visible return value:
/// 0 on success, else the negated errno of the `symlink` family.
pub fn complete_symlink(outcome: Result<(), VfsError>) -> (r: i64)
    ensures
        outcome is Ok ==> r == 0,
        outcome matches Err(e) ==> r == -symlink_errno(e),
{
    match outcome {
        Ok(()) => 0,
        Err(e) => symlink_result_errno(e),
    }
}

/// The `linkat` argument record, with both paths read from guest memory.
pub struct LinkatArgs {
    pub olddirfd: i32,
    pub oldpath: Option<Vec<u8>>,
    pub newdirfd: i32,
    pub newpath: Option<Vec<u8>>,
    pub flags: i32,
}

/// A `link` request to put to the virtual backend.
pub struct VfsLinkRequest {
    /// The existing path, as the guest presented it.
    pub oldpath: Vec<u8>,
    /// The path of the new link, as the guest presented it.
    pub newpath: Vec<u8>,
}

/// One path argument of a rewritten call: either the guest's own address is
/// reused, or freshly marshalled bytes replace it.
pub enum PathPatch {
    /// Reuse the original guest address unchanged.
    Keep,
    /// Marshal these NUL-terminated bytes into scratch and use their
    /// address.
    Replace(Vec<u8>),
}

/// A rewritten `linkat` call to re-inject. When both paths are replaced,
/// their scratch regions are reserved in one combined commit.
pub struct LinkatCall {
    pub olddirfd: i32,
    pub oldpath: PathPatch,
    pub newdirfd: i32,
    pub newpath: PathPatch,
    pub flags: i32,
}

/// What the supervisor must do with an intercepted `linkat`.
pub enum LinkatDecision {
    PassThrough,
    /// Serve from the VFS and reply through [`complete_link`].
    Virtual(VfsLinkRequest),
    Reinject(LinkatCall),
}

/// Everything `handle_linkat` decides, as a predicate over its inputs and
/// its decision: the laws about the handler are proved from this.
pub open spec fn linkat_post(mt: MountTable, fds: FdTable, args: LinkatArgs, d: LinkatDecision) -> bool {
    &&& (args.oldpath is None || args.newpath is None ==> d == LinkatDecision::PassThrough)
    &&& (args.oldpath matches Some(op) ==> (args.newpath matches Some(np) ==> {
            &&& mt.resolves(np@) && mt.resolved_is_virtual(np@) ==> (d
                matches LinkatDecision::Virtual(q) && q.oldpath@ == op@ && q.newpath@ == np@)
            &&& !(mt.resolves(np@) && mt.resolved_is_virtual(np@)) ==> {
                &&& mt.resolves(op@) && mt.resolves(np@) ==> (d matches LinkatDecision::Reinject(c)
                    && c.olddirfd as int == fd_translate(fds@, args.olddirfd as int)
                    && c.newdirfd as int == fd_translate(fds@, args.newdirfd as int) && (c.oldpath
                    matches PathPatch::Replace(ob) && ob@ == mt.resolved_path(op@) + seq![0u8]) && (
                c.newpath matches PathPatch::Replace(nb) && nb@ == mt.resolved_path(np@)
                    + seq![0u8]) && c.flags == args.flags)
                &&& mt.resolves(op@) && !mt.resolved_is_virtual(op@) && !mt.resolves(np@) ==> (d
                    matches LinkatDecision::Reinject(c) && c.olddirfd as int == fd_translate(
                    fds@,
                    args.olddirfd as int,
                ) && c.newdirfd as int == fd_translate(fds@, args.newdirfd as int) && (c.oldpath
                    matches PathPatch::Replace(ob) && ob@ == mt.resolved_path(op@) + seq![0u8])
                    && c.newpath == PathPatch::Keep && c.flags == args.flags)
                &&& mt.resolves(op@) && mt.resolved_is_virtual(op@) && !mt.resolves(np@) ==> d
                    == LinkatDecision::PassThrough
                &&& !mt.resolves(op@) && mt.resolves(np@) ==> (d matches LinkatDecision::Reinject(c)
                    && c.olddirfd as int == fd_translate(fds@, args.olddirfd as int)
                    && c.newdirfd as int == fd_translate(fds@, args.newdirfd as int) && c.oldpath
                    == PathPatch::Keep && (c.newpath matches PathPatch::Replace(nb) && nb@
                    == mt.resolved_path(np@) + seq![0u8]) && c.flags == args.flags)
                &&& !mt.resolves(op@) && !mt.resolves(np@) ==> d == LinkatDecision::PassThrough
            }
        }))
}

/// Classify a `linkat` call. A new path on a virtual mount sends the link to
/// the backend. Otherwise each of the two paths is rewritten if a mount
/// covers it, with both `dirfd` arguments virtualized; when only the old
/// path is covered, and by a virtual mount, nothing is rewritten and the
/// call passes through.
pub fn handle_linkat(mt: &MountTable, fds: &FdTable, args: &LinkatArgs) -> (d: LinkatDecision)
    requires
        mt.wf(),
        fds.wf(),
        args.oldpath matches Some(op) ==> nul_free(op@),
        args.newpath matches Some(np) ==> nul_free(np@),
    ensures
        linkat_post(*mt, *fds, *args, d),
{
    match (&args.oldpath, &args.newpath) {
        (Some(op), Some(np)) => {
            let rn = mt.resolve(np);
            let new_is_virtual = match &rn {
                Some(r) => r.is_virtual,
                None => false,
            };
            if new_is_virtual {
                return LinkatDecision::Virtual(
                    VfsLinkRequest { oldpath: copy_bytes(op), newpath: copy_bytes(np) },
                );
            }
            let ro = mt.resolve(op);
            match (ro, rn) {
                (Some(a), Some(b)) => {
                    let kernel_olddirfd = fds.translate(args.olddirfd);
                    let kernel_newdirfd = fds.translate(args.newdirfd);
                    let mut oldpath = a.translated;
                    oldpath.push(0u8);
                    let mut newpath = b.translated;
                    newpath.push(0u8);
                    proof {
                        assert(oldpath@ =~= mt.resolved_path(op@) + seq![0u8]);
                        assert(newpath@ =~= mt.resolved_path(np@) + seq![0u8]);
                    }
                    LinkatDecision::Reinject(
                        LinkatCall {
                            olddirfd: kernel_olddirfd,
                            oldpath: PathPatch::Replace(oldpath),
                            newdirfd: kernel_newdirfd,
                            newpath: PathPatch::Replace(newpath),
                            flags: args.flags,
                        },
                    )
                },
                (Some(a), None) => {
                    if a.is_virtual {
                        LinkatDecision::PassThrough
                    } else {
                        let kernel_olddirfd = fds.translate(args.olddirfd);
                        let kernel_newdirfd = fds.translate(args.newdirfd);
                        let mut oldpath = a.translated;
                        oldpath.push(0u8);
                        proof {
                            assert(oldpath@ =~= mt.resolved_path(op@) + seq![0u8]);
                        }
                        LinkatDecision::Reinject(
                            LinkatCall {
                                olddirfd: kernel_olddirfd,
                                oldpath: PathPatch::Replace(oldpath),
                                newdirfd: kernel_newdirfd,
                                newpath: PathPatch::Keep,
                                flags: args.flags,
                            },
                        )
                    }
                },
                (None, Some(b)) => {
                    let kernel_olddirfd = fds.translate(args.olddirfd);
                    let kernel_newdirfd = fds.translate(args.newdirfd);
                    let mut newpath = b.translated;
                    newpath.push(0u8);
                    proof {
                        assert(newpath@ =~= mt.resolved_path(np@) + seq![0u8]);
                    }
                    LinkatDecision::Reinject(
                        LinkatCall {
                            olddirfd: kernel_olddirfd,
                            oldpath: PathPatch::Keep,
                            newdirfd: kernel_newdirfd,
                            newpath: PathPatch::Replace(newpath),
                            flags: args.flags,
                        },
                    )
                },
                (None, None) => LinkatDecision::PassThrough,
            }
        },
        _ => LinkatDecision::PassThrough,
    }
}

/// Turn the backend's `link` outcome into the guest-visible return value:
/// 0 on success, else the negated errno of the `link` family.
pub fn complete_link(outcome: Result<(), VfsError>) -> (r: i64)
    ensures
        outcome is Ok ==> r == 0,
        outcome matches Err(e) ==> r == -link_errno(e),
{
    match outcome {
        Ok(()) => 0,
        Err(e) => link_result_errno(e),
    }
}

} // verus!
