//! The invariants of the interception layer, proved from the handler
//! contracts.
//!
//! Each law is stated over a handler's decision predicate (`*_post`), which
//! its handler ensures, so what is proved here holds of every decision a
//! handler returns: unresolved paths always pass through untouched; a
//! redirect rewrites exactly the covered path argument and nothing else; the
//! `AT_FDCWD` sentinel survives every `dirfd` translation; symlink targets
//! are never rewritten; the VFS is consulted only for virtual mounts; and
//! `statx` on a virtual mount is refused with exactly `-ENOSYS`.

use vstd::prelude::*;

use crate::errno::{link_errno, readlink_errno, stat_errno, symlink_errno, VfsError};
use crate::fd::{fd_translate, FdTable};
use crate::handlers::{
    linkat_post, newfstatat_post, readlink_post, readlink_reply_post, readlinkat_post,
    statfs_post, statx_post, symlink_post, symlinkat_post, LinkatArgs, LinkatDecision,
    NewfstatatArgs, NewfstatatDecision, PathPatch, ReadlinkArgs, ReadlinkDecision, ReadlinkatArgs,
    ReadlinkatDecision, StatfsArgs, StatfsDecision, StatxArgs, StatxDecision, SymlinkArgs,
    SymlinkDecision, SymlinkatArgs, SymlinkatDecision, VfsReply,
};
use crate::mount::MountTable;
use crate::path::nul_free;
use crate::AT_FDCWD;

verus! {

// A path that no mount covers leaves the original syscall untouched: the
// observable behavior is as if no tracer were attached.
/// An unresolved `statx` passes through.
pub proof fn lemma_statx_unresolved_passes_through(
    mt: MountTable,
    fds: FdTable,
    args: StatxArgs,
    d: StatxDecision,
)
    requires
        statx_post(mt, fds, args, d),
        args.path matches Some(p) ==> !mt.resolves(p@),
    ensures
        d == StatxDecision::PassThrough,
{
}

/// An unresolved `newfstatat` passes through.
pub proof fn lemma_newfstatat_unresolved_passes_through(
    mt: MountTable,
    fds: FdTable,
    args: NewfstatatArgs,
    d: NewfstatatDecision,
)
    requires
        newfstatat_post(mt, fds, args, d),
        args.path matches Some(p) ==> !mt.resolves(p@),
    ensures
        d == NewfstatatDecision::PassThrough,
{
}

/// An unresolved `statfs` passes through.
pub proof fn lemma_statfs_unresolved_passes_through(
    mt: MountTable,
    args: StatfsArgs,
    d: StatfsDecision,
)
    requires
        statfs_post(mt, args, d),
        args.path matches Some(p) ==> !mt.resolves(p@),
    ensures
        d == StatfsDecision::PassThrough,
{
}

/// An unresolved `readlink` passes through.
pub proof fn lemma_readlink_unresolved_passes_through(
    mt: MountTable,
    args: ReadlinkArgs,
    d: ReadlinkDecision,
)
    requires
        readlink_post(mt, args, d),
        args.path matches Some(p) ==> !mt.resolves(p@),
    ensures
        d == ReadlinkDecision::PassThrough,
{
}

/// An unresolved `readlinkat` passes through.
pub proof fn lemma_readlinkat_unresolved_passes_through(
    mt: MountTable,
    fds: FdTable,
    args: ReadlinkatArgs,
    d: ReadlinkatDecision,
)
    requires
        readlinkat_post(mt, fds, args, d),
        args.path matches Some(p) ==> !mt.resolves(p@),
    ensures
        d == ReadlinkatDecision::PassThrough,
{
}

/// A `symlink` whose link path no mount covers passes through.
pub proof fn lemma_symlink_unresolved_passes_through(
    mt: MountTable,
    args: SymlinkArgs,
    d: SymlinkDecision,
)
    requires
        symlink_post(mt, args, d),
        args.linkpath matches Some(l) ==> !mt.resolves(l@),
    ensures
        d == SymlinkDecision::PassThrough,
{
}

/// A `symlinkat` whose link path no mount covers passes through.
pub proof fn lemma_symlinkat_unresolved_passes_through(
    mt: MountTable,
    fds: FdTable,
    args: SymlinkatArgs,
    d: SymlinkatDecision,
)
    requires
        symlinkat_post(mt, fds, args, d),
        args.linkpath matches Some(l) ==> !mt.resolves(l@),
    ensures
        d == SymlinkatDecision::PassThrough,
{
}

/// A `linkat` neither of whose paths any mount covers passes through.
pub proof fn lemma_linkat_unresolved_passes_through(
    mt: MountTable,
    fds: FdTable,
    args: LinkatArgs,
    d: LinkatDecision,
)
    requires
        linkat_post(mt, fds, args, d),
        args.oldpath matches Some(op) ==> !mt.resolves(op@),
        args.newpath matches Some(np) ==> !mt.resolves(np@),
    ensures
        d == LinkatDecision::PassThrough,
{
}

// A path a non-virtual mount covers is rewritten to the translated path,
// NUL-terminated, and every other argument of the call is carried
// byte-identical — only the dirfd family is translated.
/// What a redirected `statx` re-injects.
pub proof fn lemma_statx_redirect_rewrites(
    mt: MountTable,
    fds: FdTable,
    args: StatxArgs,
    d: StatxDecision,
    p: Vec<u8>,
)
    requires
        statx_post(mt, fds, args, d),
        args.path == Some(p),
        mt.resolves(p@),
        !mt.resolved_is_virtual(p@),
    ensures
        d matches StatxDecision::Reinject(c) && c.path@ == mt.resolved_path(p@) + seq![0u8]
            && c.dirfd as int == fd_translate(fds@, args.dirfd as int) && c.flags == args.flags
            && c.mask == args.mask && c.statx_addr == args.statx_addr,
{
}

/// What a redirected `newfstatat` re-injects.
pub proof fn lemma_newfstatat_redirect_rewrites(
    mt: MountTable,
    fds: FdTable,
    args: NewfstatatArgs,
    d: NewfstatatDecision,
    p: Vec<u8>,
)
    requires
        newfstatat_post(mt, fds, args, d),
        args.path == Some(p),
        mt.resolves(p@),
        !mt.resolved_is_virtual(p@),
    ensures
        d matches NewfstatatDecision::Reinject(c) && c.path@ == mt.resolved_path(p@) + seq![0u8]
            && c.dirfd as int == fd_translate(fds@, args.dirfd as int) && c.stat_addr
            == args.stat_addr && c.flags == args.flags,
{
}

/// What a redirected `statfs` re-injects.
pub proof fn lemma_statfs_redirect_rewrites(
    mt: MountTable,
    args: StatfsArgs,
    d: StatfsDecision,
    p: Vec<u8>,
)
    requires
        statfs_post(mt, args, d),
        args.path == Some(p),
        mt.resolves(p@),
        !mt.resolved_is_virtual(p@),
    ensures
        d matches StatfsDecision::Reinject(c) && c.path@ == mt.resolved_path(p@) + seq![0u8]
            && c.buf_addr == args.buf_addr,
{
}

/// What a redirected `readlinkat` re-injects.
pub proof fn lemma_readlinkat_redirect_rewrites(
    mt: MountTable,
    fds: FdTable,
    args: ReadlinkatArgs,
    d: ReadlinkatDecision,
    p: Vec<u8>,
)
    requires
        readlinkat_post(mt, fds, args, d),
        args.path == Some(p),
        mt.resolves(p@),
        !mt.resolved_is_virtual(p@),
    ensures
        d matches ReadlinkatDecision::Reinject(c) && c.path@ == mt.resolved_path(p@) + seq![0u8]
            && c.dirfd as int == fd_translate(fds@, args.dirfd as int) && c.buf_addr
            == args.buf_addr && c.bufsize == args.bufsize,
{
}

/// What a redirected `symlinkat` re-injects: the link path rewritten, the
/// target reused from the guest's own address.
pub proof fn lemma_symlinkat_redirect_rewrites(
    mt: MountTable,
    fds: FdTable,
    args: SymlinkatArgs,
    d: SymlinkatDecision,
    t: Vec<u8>,
    l: Vec<u8>,
)
    requires
        symlinkat_post(mt, fds, args, d),
        args.target == Some(t),
        args.linkpath == Some(l),
        mt.resolves(l@),
        !mt.resolved_is_virtual(l@),
    ensures
        d matches SymlinkatDecision::Reinject(c) && c.linkpath@ == mt.resolved_path(l@)
            + seq![0u8] && c.newdirfd as int == fd_translate(fds@, args.newdirfd as int),
{
}

/// What a `linkat` with both paths on redirects re-injects: both paths
/// rewritten, both dirfds translated, the flags untouched.
pub proof fn lemma_linkat_redirect_rewrites_both(
    mt: MountTable,
    fds: FdTable,
    args: LinkatArgs,
    d: LinkatDecision,
    op: Vec<u8>,
    np: Vec<u8>,
)
    requires
        linkat_post(mt, fds, args, d),
        args.oldpath == Some(op),
        args.newpath == Some(np),
        mt.resolves(op@),
        mt.resolves(np@),
        !mt.resolved_is_virtual(np@),
    ensures
        d matches LinkatDecision::Reinject(c) && (c.oldpath matches PathPatch::Replace(ob) && ob@
            == mt.resolved_path(op@) + seq![0u8]) && (c.newpath matches PathPatch::Replace(nb)
            && nb@ == mt.resolved_path(np@) + seq![0u8]) && c.olddirfd as int == fd_translate(
            fds@,
            args.olddirfd as int,
        ) && c.newdirfd as int == fd_translate(fds@, args.newdirfd as int) && c.flags == args.flags,
{
}

/// A rewritten path is one well-formed C string: the translated path of a
/// NUL-free guest path, with exactly one NUL byte, at the end. The guest
/// path is NUL-free because it was itself read from a NUL-terminated
/// string.
pub proof fn lemma_rewritten_path_is_c_string(
    mt: MountTable,
    fds: FdTable,
    args: NewfstatatArgs,
    d: NewfstatatDecision,
    p: Vec<u8>,
)
    requires
        mt.wf(),
        newfstatat_post(mt, fds, args, d),
        args.path == Some(p),
        nul_free(p@),
        mt.resolves(p@),
        !mt.resolved_is_virtual(p@),
    ensures
        d matches NewfstatatDecision::Reinject(c) && c.path@.len() > 0 && c.path@.last() == 0 && (
        forall|i: int| 0 <= i < c.path@.len() - 1 ==> c.path@[i] != 0),
{
    mt.lemma_resolved_path_nul_free(p@);
}

// For every *at syscall, `dirfd = AT_FDCWD` is preserved exactly; any other
// dirfd is replaced by the fd table's translation. The handlers' decision
// predicates carry their dirfds through `fd_translate`; this law opens that
// function up.
/// How a `dirfd` is translated: the sentinel survives every translation, a
/// mapped descriptor is replaced, an unmapped one passes unchanged.
pub proof fn lemma_dirfd_translation(m: Map<int, int>, fd: int)
    ensures
        fd == AT_FDCWD as int ==> fd_translate(m, fd) == AT_FDCWD as int,
        fd != AT_FDCWD as int && m.dom().contains(fd) ==> fd_translate(m, fd) == m[fd],
        fd != AT_FDCWD as int && !m.dom().contains(fd) ==> fd_translate(m, fd) == fd,
{
}

// Symlink target strings are never mutated; only link-path arguments are.
// The re-injecting decisions carry no target at all — the guest's own
// target address is reused — and the virtual decisions hand the backend the
// target exactly as the guest presented it.
/// A `symlink` served by the VFS sees the guest's target, byte for byte.
pub proof fn lemma_symlink_target_untouched(
    mt: MountTable,
    args: SymlinkArgs,
    d: SymlinkDecision,
    t: Vec<u8>,
)
    requires
        symlink_post(mt, args, d),
        args.target == Some(t),
    ensures
        d matches SymlinkDecision::Virtual(q) ==> q.target@ == t@,
{
}

/// A `symlinkat` served by the VFS sees the guest's target, byte for byte.
pub proof fn lemma_symlinkat_target_untouched(
    mt: MountTable,
    fds: FdTable,
    args: SymlinkatArgs,
    d: SymlinkatDecision,
    t: Vec<u8>,
)
    requires
        symlinkat_post(mt, fds, args, d),
        args.target == Some(t),
    ensures
        d matches SymlinkatDecision::Virtual(q) ==> q.target@ == t@,
{
}

// The VFS is never invoked for pass-through paths: a handler asks the
// backend for work only when the path in scope lies on a virtual mount.
/// `newfstatat` consults the VFS only for a virtual mount, and hands it the
/// path as the guest presented it.
pub proof fn lemma_newfstatat_vfs_only_for_virtual(
    mt: MountTable,
    fds: FdTable,
    args: NewfstatatArgs,
    d: NewfstatatDecision,
)
    requires
        newfstatat_post(mt, fds, args, d),
        d is Virtual,
    ensures
        args.path matches Some(p) && mt.resolves(p@) && mt.resolved_is_virtual(p@),
{
}

/// `readlink` consults the VFS only for a virtual mount.
pub proof fn lemma_readlink_vfs_only_for_virtual(
    mt: MountTable,
    args: ReadlinkArgs,
    d: ReadlinkDecision,
)
    requires
        readlink_post(mt, args, d),
        d is Virtual,
    ensures
        args.path matches Some(p) && mt.resolves(p@) && mt.resolved_is_virtual(p@),
{
}

/// `readlinkat` consults the VFS only for a virtual mount.
pub proof fn lemma_readlinkat_vfs_only_for_virtual(
    mt: MountTable,
    fds: FdTable,
    args: ReadlinkatArgs,
    d: ReadlinkatDecision,
)
    requires
        readlinkat_post(mt, fds, args, d),
        d is Virtual,
    ensures
        args.path matches Some(p) && mt.resolves(p@) && mt.resolved_is_virtual(p@),
{
}

/// `symlink` consults the VFS only when the link path lies on a virtual
/// mount.
pub proof fn lemma_symlink_vfs_only_for_virtual(
    mt: MountTable,
    args: SymlinkArgs,
    d: SymlinkDecision,
)
    requires
        symlink_post(mt, args, d),
        d is Virtual,
    ensures
        args.linkpath matches Some(l) && mt.resolves(l@) && mt.resolved_is_virtual(l@),
{
}

/// `symlinkat` consults the VFS only when the link path lies on a virtual
/// mount.
pub proof fn lemma_symlinkat_vfs_only_for_virtual(
    mt: MountTable,
    fds: FdTable,
    args: SymlinkatArgs,
    d: SymlinkatDecision,
)
    requires
        symlinkat_post(mt, fds, args, d),
        d is Virtual,
    ensures
        args.linkpath matches Some(l) && mt.resolves(l@) && mt.resolved_is_virtual(l@),
{
}

/// `linkat` consults the VFS only when the new path lies on a virtual
/// mount.
pub proof fn lemma_linkat_vfs_only_for_virtual(
    mt: MountTable,
    fds: FdTable,
    args: LinkatArgs,
    d: LinkatDecision,
)
    requires
        linkat_post(mt, fds, args, d),
        d is Virtual,
    ensures
        args.newpath matches Some(np) && mt.resolves(np@) && mt.resolved_is_virtual(np@),
{
}

// Round trip: on a virtual mount, a symlink stored and then read back
// returns the target the guest gave.
/// The layer mutates the target on neither leg: `symlinkat` hands the
/// backend the guest's target byte for byte, `readlinkat` is served by the
/// same backend, and the reply copies out what the backend answers. The
/// backend contributes only its own round-trip promise, taken as a premise
/// here: its `readlink` answers what its `symlink` stored.
pub proof fn lemma_virtual_symlink_round_trip(
    mt: MountTable,
    fds: FdTable,
    sargs: SymlinkatArgs,
    sd: SymlinkatDecision,
    t: Vec<u8>,
    l: Vec<u8>,
    rargs: ReadlinkatArgs,
    rd: ReadlinkatDecision,
    back: Vec<u8>,
    reply: VfsReply,
    addr: u64,
    bufsize: usize,
)
    requires
        symlinkat_post(mt, fds, sargs, sd),
        sargs.target == Some(t),
        sargs.linkpath == Some(l),
        mt.resolves(l@),
        mt.resolved_is_virtual(l@),
        readlinkat_post(mt, fds, rargs, rd),
        rargs.path matches Some(p) && p@ == l@,
        sd matches SymlinkatDecision::Virtual(q) ==> back@ == q.target@,
        readlink_reply_post(Ok(back), Some(addr), bufsize, reply),
        t@.len() <= bufsize,
    ensures
        rd is Virtual,
        reply.result == t@.len(),
        reply.write matches Some(w) && w.bytes@ == t@,
{
    assert(back@ == t@);
    assert(back@.take(back@.len() as int) =~= back@);
}

// VFS errors map onto errno per family; the values of the whole table.
/// The errno each VFS error kind maps to, for each syscall family. Kinds
/// beyond the three named rows fall to the family's default: `EIO` for the
/// `stat` and `link` families, `EINVAL` for `readlink` and `symlink`.
pub proof fn lemma_errno_table()
    ensures
        stat_errno(VfsError::NotFound) == 2,
        stat_errno(VfsError::PermissionDenied) == 13,
        stat_errno(VfsError::AlreadyExists) == 17,
        stat_errno(VfsError::IoError) == 5,
        stat_errno(VfsError::InvalidArgument) == 5,
        link_errno(VfsError::NotFound) == 2,
        link_errno(VfsError::PermissionDenied) == 1,
        link_errno(VfsError::AlreadyExists) == 17,
        link_errno(VfsError::IoError) == 5,
        readlink_errno(VfsError::NotFound) == 2,
        readlink_errno(VfsError::PermissionDenied) == 13,
        readlink_errno(VfsError::AlreadyExists) == 17,
        readlink_errno(VfsError::IoError) == 22,
        symlink_errno(VfsError::NotFound) == 2,
        symlink_errno(VfsError::PermissionDenied) == 13,
        symlink_errno(VfsError::AlreadyExists) == 17,
        symlink_errno(VfsError::IoError) == 22,
{
}

// `statx` on a virtual mount returns `-ENOSYS` — exactly, so the caller
// falls back to `newfstatat`.
/// The refusal is exactly `-38`, never another errno and never success.
pub proof fn lemma_statx_virtual_enosys(
    mt: MountTable,
    fds: FdTable,
    args: StatxArgs,
    d: StatxDecision,
    p: Vec<u8>,
)
    requires
        statx_post(mt, fds, args, d),
        args.path == Some(p),
        mt.resolves(p@),
        mt.resolved_is_virtual(p@),
    ensures
        d matches StatxDecision::Return(v) && v as int == -38,
{
}

} // verus!
