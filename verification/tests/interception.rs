//! End-to-end handler scenarios: a virtual mount at `/vfs`, a bind-style
//! redirect `/over` onto `/real`, and the guest calls of the stat, readlink,
//! symlink and link families.

use agentfs::errno::{
    link_result_errno, readlink_result_errno, stat_result_errno, symlink_result_errno, VfsError,
};
use agentfs::handlers::{
    complete_link, complete_newfstatat, complete_readlink, complete_symlink, handle_linkat,
    handle_newfstatat, handle_readlink, handle_readlinkat, handle_statfs, handle_statx,
    handle_symlink, handle_symlinkat, LinkatArgs, LinkatDecision, NewfstatatArgs,
    NewfstatatDecision, PathPatch, ReadlinkArgs, ReadlinkDecision, ReadlinkatArgs,
    ReadlinkatDecision, StatfsArgs, StatfsDecision, StatxArgs, StatxDecision, SymlinkArgs,
    SymlinkDecision, SymlinkatArgs, SymlinkatDecision,
};
use agentfs::fd::FdTable;
use agentfs::mount::MountTable;
use agentfs::{AT_FDCWD, AT_SYMLINK_NOFOLLOW};

fn b(s: &str) -> Vec<u8> {
    s.as_bytes().to_vec()
}

fn tables() -> (MountTable, FdTable) {
    let mut mt = MountTable::new();
    assert!(mt.add(b("/vfs"), None));
    assert!(mt.add(b("/over"), Some(b("/real"))));
    (mt, FdTable::new())
}

#[test]
fn statx_on_virtual_mount_returns_enosys() {
    let (mt, fds) = tables();
    let args = StatxArgs {
        dirfd: AT_FDCWD,
        path: Some(b("/vfs/x")),
        flags: 0,
        mask: 0x7ff,
        statx_addr: Some(0x7000),
    };
    match handle_statx(&mt, &fds, &args) {
        StatxDecision::Return(v) => assert_eq!(v, -38),
        _ => panic!("expected a synthesized return"),
    }
}

#[test]
fn statx_redirect_reinjects_translated_path() {
    let (mt, fds) = tables();
    let args = StatxArgs {
        dirfd: AT_FDCWD,
        path: Some(b("/over/x")),
        flags: 5,
        mask: 9,
        statx_addr: Some(0x7000),
    };
    match handle_statx(&mt, &fds, &args) {
        StatxDecision::Reinject(c) => {
            assert_eq!(c.dirfd, AT_FDCWD);
            assert_eq!(c.path, b("/real/x\0"));
            assert_eq!(c.flags, 5);
            assert_eq!(c.mask, 9);
            assert_eq!(c.statx_addr, Some(0x7000));
        }
        _ => panic!("expected a re-injection"),
    }
}

#[test]
fn statx_unmatched_passes_through() {
    let (mt, fds) = tables();
    let args = StatxArgs {
        dirfd: AT_FDCWD,
        path: Some(b("/elsewhere")),
        flags: 0,
        mask: 0,
        statx_addr: None,
    };
    assert!(matches!(handle_statx(&mt, &fds, &args), StatxDecision::PassThrough));
    let args = StatxArgs { dirfd: AT_FDCWD, path: None, flags: 0, mask: 0, statx_addr: None };
    assert!(matches!(handle_statx(&mt, &fds, &args), StatxDecision::PassThrough));
}

#[test]
fn newfstatat_virtual_missing_returns_enoent_and_leaves_buffer() {
    let (mt, fds) = tables();
    let args = NewfstatatArgs {
        dirfd: AT_FDCWD,
        path: Some(b("/vfs/missing")),
        stat_addr: Some(0x5000),
        flags: 0,
    };
    let q = match handle_newfstatat(&mt, &fds, &args) {
        NewfstatatDecision::Virtual(q) => q,
        _ => panic!("expected a virtual serve"),
    };
    assert!(q.follow_symlinks);
    assert_eq!(q.path, b("/vfs/missing"));
    // the backend reports NotFound
    let reply = complete_newfstatat(Err(VfsError::NotFound), args.stat_addr);
    assert_eq!(reply.result, -2);
    assert!(reply.write.is_none());
}

#[test]
fn newfstatat_virtual_success_writes_stat_bytes() {
    let (mt, fds) = tables();
    let args = NewfstatatArgs {
        dirfd: AT_FDCWD,
        path: Some(b("/vfs/file")),
        stat_addr: Some(0x5000),
        flags: AT_SYMLINK_NOFOLLOW,
    };
    let q = match handle_newfstatat(&mt, &fds, &args) {
        NewfstatatDecision::Virtual(q) => q,
        _ => panic!("expected a virtual serve"),
    };
    // AT_SYMLINK_NOFOLLOW selects lstat
    assert!(!q.follow_symlinks);
    let stat_bytes = vec![1u8, 2, 3, 4];
    let reply = complete_newfstatat(Ok(stat_bytes.clone()), args.stat_addr);
    assert_eq!(reply.result, 0);
    let w = reply.write.expect("stat bytes are copied out");
    assert_eq!(w.addr, 0x5000);
    assert_eq!(w.bytes, stat_bytes);
}

#[test]
fn newfstatat_redirect_reinjects_translated_path() {
    let (mt, fds) = tables();
    let args = NewfstatatArgs {
        dirfd: AT_FDCWD,
        path: Some(b("/over/a/b")),
        stat_addr: Some(0x5000),
        flags: 3,
    };
    match handle_newfstatat(&mt, &fds, &args) {
        NewfstatatDecision::Reinject(c) => {
            assert_eq!(c.dirfd, AT_FDCWD);
            assert_eq!(c.path, b("/real/a/b\0"));
            assert_eq!(c.stat_addr, Some(0x5000));
            assert_eq!(c.flags, 3);
        }
        _ => panic!("expected a re-injection"),
    }
}

#[test]
fn newfstatat_dirfd_is_virtualized() {
    let (mt, mut fds) = tables();
    assert!(fds.insert(7, 42));
    let mk = |dirfd| NewfstatatArgs {
        dirfd,
        path: Some(b("/over/f")),
        stat_addr: None,
        flags: 0,
    };
    match handle_newfstatat(&mt, &fds, &mk(7)) {
        NewfstatatDecision::Reinject(c) => assert_eq!(c.dirfd, 42),
        _ => panic!("expected a re-injection"),
    }
    match handle_newfstatat(&mt, &fds, &mk(9)) {
        NewfstatatDecision::Reinject(c) => assert_eq!(c.dirfd, 9),
        _ => panic!("expected a re-injection"),
    }
    match handle_newfstatat(&mt, &fds, &mk(AT_FDCWD)) {
        NewfstatatDecision::Reinject(c) => assert_eq!(c.dirfd, AT_FDCWD),
        _ => panic!("expected a re-injection"),
    }
}

#[test]
fn statfs_rewrites_redirects_only() {
    let (mt, _) = tables();
    let args = StatfsArgs { path: Some(b("/over/x")), buf_addr: Some(0x2000) };
    match handle_statfs(&mt, &args) {
        StatfsDecision::Reinject(c) => {
            assert_eq!(c.path, b("/real/x\0"));
            assert_eq!(c.buf_addr, Some(0x2000));
        }
        _ => panic!("expected a re-injection"),
    }
    // a virtual mount offers no statfs: pass through
    let args = StatfsArgs { path: Some(b("/vfs/x")), buf_addr: Some(0x2000) };
    assert!(matches!(handle_statfs(&mt, &args), StatfsDecision::PassThrough));
    let args = StatfsArgs { path: Some(b("/elsewhere")), buf_addr: None };
    assert!(matches!(handle_statfs(&mt, &args), StatfsDecision::PassThrough));
}

#[test]
fn readlinkat_virtual_truncates_to_buffer() {
    let (mt, fds) = tables();
    let args = ReadlinkatArgs {
        dirfd: AT_FDCWD,
        path: Some(b("/vfs/s")),
        buf_addr: Some(0x3000),
        bufsize: 16,
    };
    let q = match handle_readlinkat(&mt, &fds, &args) {
        ReadlinkatDecision::Virtual(q) => q,
        _ => panic!("expected a virtual serve"),
    };
    assert_eq!(q.path, b("/vfs/s"));
    // backend readlink answers "target": shorter than the buffer
    let reply = complete_readlink(Ok(b("target")), args.buf_addr, args.bufsize);
    assert_eq!(reply.result, 6);
    let w = reply.write.expect("target bytes are copied out");
    assert_eq!(w.addr, 0x3000);
    assert_eq!(w.bytes, b("target"));
    // a target longer than the buffer is cut, no NUL added
    let reply = complete_readlink(Ok(b("target")), Some(0x3000), 3);
    assert_eq!(reply.result, 3);
    assert_eq!(reply.write.unwrap().bytes, b("tar"));
}

#[test]
fn readlink_virtual_and_redirect() {
    let (mt, _) = tables();
    let args = ReadlinkArgs { path: Some(b("/vfs/s")), buf_addr: Some(0x3000), bufsize: 8 };
    assert!(matches!(handle_readlink(&mt, &args), ReadlinkDecision::Virtual(_)));
    let args = ReadlinkArgs { path: Some(b("/over/s")), buf_addr: Some(0x3000), bufsize: 8 };
    match handle_readlink(&mt, &args) {
        ReadlinkDecision::Reinject(c) => {
            assert_eq!(c.path, b("/real/s\0"));
            assert_eq!(c.buf_addr, Some(0x3000));
            assert_eq!(c.bufsize, 8);
        }
        _ => panic!("expected a re-injection"),
    }
    // a null buffer still answers 0 on success
    let reply = complete_readlink(Ok(b("target")), None, 8);
    assert_eq!(reply.result, 0);
    assert!(reply.write.is_none());
    // a backend failure maps through the readlink family
    let reply = complete_readlink(Err(VfsError::IoError), Some(0x3000), 8);
    assert_eq!(reply.result, -22);
    assert!(reply.write.is_none());
}

#[test]
fn symlinkat_virtual_already_exists_returns_eexist() {
    let (mt, fds) = tables();
    let args = SymlinkatArgs {
        target: Some(b("anywhere")),
        newdirfd: AT_FDCWD,
        linkpath: Some(b("/vfs/new")),
    };
    let q = match handle_symlinkat(&mt, &fds, &args) {
        SymlinkatDecision::Virtual(q) => q,
        _ => panic!("expected a virtual serve"),
    };
    // the target travels byte for byte, untranslated
    assert_eq!(q.target, b("anywhere"));
    assert_eq!(q.linkpath, b("/vfs/new"));
    assert_eq!(complete_symlink(Err(VfsError::AlreadyExists)), -17);
}

#[test]
fn symlink_target_is_never_rewritten() {
    let (mt, _) = tables();
    // the target lies on a redirect mount, the link path on a virtual one:
    // still only the link path decides, and the target is untouched
    let args = SymlinkArgs { target: Some(b("/over/t")), linkpath: Some(b("/vfs/l")) };
    match handle_symlink(&mt, &args) {
        SymlinkDecision::Virtual(q) => {
            assert_eq!(q.target, b("/over/t"));
            assert_eq!(q.linkpath, b("/vfs/l"));
        }
        _ => panic!("expected a virtual serve"),
    }
    // on a redirect only the link path is carried for rewriting
    let args = SymlinkArgs { target: Some(b("keep/me")), linkpath: Some(b("/over/l")) };
    match handle_symlink(&mt, &args) {
        SymlinkDecision::Reinject(c) => assert_eq!(c.linkpath, b("/real/l\0")),
        _ => panic!("expected a re-injection"),
    }
    assert_eq!(complete_symlink(Ok(())), 0);
}

#[test]
fn symlinkat_redirect_virtualizes_newdirfd() {
    let (mt, mut fds) = tables();
    assert!(fds.insert(3, 33));
    let args = SymlinkatArgs {
        target: Some(b("t")),
        newdirfd: 3,
        linkpath: Some(b("/over/l")),
    };
    match handle_symlinkat(&mt, &fds, &args) {
        SymlinkatDecision::Reinject(c) => {
            assert_eq!(c.newdirfd, 33);
            assert_eq!(c.linkpath, b("/real/l\0"));
        }
        _ => panic!("expected a re-injection"),
    }
}

#[test]
fn linkat_redirect_translates_both_paths() {
    let (mt, fds) = tables();
    let args = LinkatArgs {
        olddirfd: AT_FDCWD,
        oldpath: Some(b("/over/x")),
        newdirfd: AT_FDCWD,
        newpath: Some(b("/over/y")),
        flags: 0,
    };
    match handle_linkat(&mt, &fds, &args) {
        LinkatDecision::Reinject(c) => {
            assert_eq!(c.olddirfd, AT_FDCWD);
            assert_eq!(c.newdirfd, AT_FDCWD);
            assert!(matches!(&c.oldpath, PathPatch::Replace(p) if *p == b("/real/x\0")));
            assert!(matches!(&c.newpath, PathPatch::Replace(p) if *p == b("/real/y\0")));
            assert_eq!(c.flags, 0);
        }
        _ => panic!("expected a re-injection"),
    }
}

#[test]
fn linkat_virtual_newpath_serves_link() {
    let (mt, fds) = tables();
    let args = LinkatArgs {
        olddirfd: AT_FDCWD,
        oldpath: Some(b("/vfs/a")),
        newdirfd: AT_FDCWD,
        newpath: Some(b("/vfs/b")),
        flags: 0,
    };
    match handle_linkat(&mt, &fds, &args) {
        LinkatDecision::Virtual(q) => {
            assert_eq!(q.oldpath, b("/vfs/a"));
            assert_eq!(q.newpath, b("/vfs/b"));
        }
        _ => panic!("expected a virtual serve"),
    }
    assert_eq!(complete_link(Ok(())), 0);
    assert_eq!(complete_link(Err(VfsError::PermissionDenied)), -1);
}

#[test]
fn linkat_partial_rewrites() {
    let (mt, fds) = tables();
    // only the old path is covered, by the redirect
    let args = LinkatArgs {
        olddirfd: AT_FDCWD,
        oldpath: Some(b("/over/x")),
        newdirfd: AT_FDCWD,
        newpath: Some(b("/elsewhere/y")),
        flags: 7,
    };
    match handle_linkat(&mt, &fds, &args) {
        LinkatDecision::Reinject(c) => {
            assert!(matches!(&c.oldpath, PathPatch::Replace(p) if *p == b("/real/x\0")));
            assert!(matches!(c.newpath, PathPatch::Keep));
            assert_eq!(c.flags, 7);
        }
        _ => panic!("expected a re-injection"),
    }
    // only the new path is covered
    let args = LinkatArgs {
        olddirfd: AT_FDCWD,
        oldpath: Some(b("/elsewhere/x")),
        newdirfd: AT_FDCWD,
        newpath: Some(b("/over/y")),
        flags: 0,
    };
    match handle_linkat(&mt, &fds, &args) {
        LinkatDecision::Reinject(c) => {
            assert!(matches!(c.oldpath, PathPatch::Keep));
            assert!(matches!(&c.newpath, PathPatch::Replace(p) if *p == b("/real/y\0")));
        }
        _ => panic!("expected a re-injection"),
    }
    // the old path on a virtual mount with the new path uncovered: nothing
    // can be rewritten, the call passes through
    let args = LinkatArgs {
        olddirfd: AT_FDCWD,
        oldpath: Some(b("/vfs/x")),
        newdirfd: AT_FDCWD,
        newpath: Some(b("/elsewhere/y")),
        flags: 0,
    };
    assert!(matches!(handle_linkat(&mt, &fds, &args), LinkatDecision::PassThrough));
    // neither path covered
    let args = LinkatArgs {
        olddirfd: AT_FDCWD,
        oldpath: Some(b("/p")),
        newdirfd: AT_FDCWD,
        newpath: Some(b("/q")),
        flags: 0,
    };
    assert!(matches!(handle_linkat(&mt, &fds, &args), LinkatDecision::PassThrough));
}

#[test]
fn errno_mapping_per_family() {
    // stat family
    assert_eq!(stat_result_errno(VfsError::NotFound), -2);
    assert_eq!(stat_result_errno(VfsError::PermissionDenied), -13);
    assert_eq!(stat_result_errno(VfsError::AlreadyExists), -17);
    assert_eq!(stat_result_errno(VfsError::IoError), -5);
    assert_eq!(stat_result_errno(VfsError::NotADirectory), -5);
    // link family
    assert_eq!(link_result_errno(VfsError::NotFound), -2);
    assert_eq!(link_result_errno(VfsError::PermissionDenied), -1);
    assert_eq!(link_result_errno(VfsError::AlreadyExists), -17);
    assert_eq!(link_result_errno(VfsError::InvalidArgument), -5);
    // readlink family
    assert_eq!(readlink_result_errno(VfsError::NotFound), -2);
    assert_eq!(readlink_result_errno(VfsError::PermissionDenied), -13);
    assert_eq!(readlink_result_errno(VfsError::AlreadyExists), -17);
    assert_eq!(readlink_result_errno(VfsError::IsADirectory), -22);
    // symlink family
    assert_eq!(symlink_result_errno(VfsError::NotFound), -2);
    assert_eq!(symlink_result_errno(VfsError::PermissionDenied), -13);
    assert_eq!(symlink_result_errno(VfsError::AlreadyExists), -17);
    assert_eq!(symlink_result_errno(VfsError::IoError), -22);
}

#[test]
fn virtual_round_trip_symlink_then_readlink() {
    // a toy backend: one symlink stored, then read back through the
    // handlers — the target survives byte for byte
    let (mt, fds) = tables();
    let args = SymlinkatArgs {
        target: Some(b("/points/here")),
        newdirfd: AT_FDCWD,
        linkpath: Some(b("/vfs/s")),
    };
    let stored = match handle_symlinkat(&mt, &fds, &args) {
        SymlinkatDecision::Virtual(q) => q.target,
        _ => panic!("expected a virtual serve"),
    };
    assert_eq!(complete_symlink(Ok(())), 0);
    let args = ReadlinkatArgs {
        dirfd: AT_FDCWD,
        path: Some(b("/vfs/s")),
        buf_addr: Some(0x4000),
        bufsize: 64,
    };
    assert!(matches!(
        handle_readlinkat(&mt, &fds, &args),
        ReadlinkatDecision::Virtual(_)
    ));
    let reply = complete_readlink(Ok(stored), Some(0x4000), 64);
    assert_eq!(reply.result, 12);
    assert_eq!(reply.write.unwrap().bytes, b("/points/here"));
}
