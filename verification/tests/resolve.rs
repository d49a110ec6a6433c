//! Mount-table resolution, path normalization, and fd translation.

use agentfs::fd::FdTable;
use agentfs::mount::{translate_path, MountTable};
use agentfs::path::normalize;
use agentfs::AT_FDCWD;

fn b(s: &str) -> Vec<u8> {
    s.as_bytes().to_vec()
}

#[test]
fn normalize_collapses_separator_runs() {
    assert_eq!(normalize(&b("/vfs//x")), b("/vfs/x"));
    assert_eq!(normalize(&b("///a////b")), b("/a/b"));
    assert_eq!(normalize(&b("/already/normal")), b("/already/normal"));
    assert_eq!(normalize(&b("")), b(""));
    assert_eq!(normalize(&b("//")), b("/"));
}

#[test]
fn resolve_virtual_mount() {
    let mut mt = MountTable::new();
    assert!(mt.add(b("/vfs"), None));
    let res = mt.resolve(&b("/vfs/x")).expect("covered");
    assert!(res.is_virtual);
    assert_eq!(res.mount_index, 0);
    // a virtual backend sees the guest path unchanged
    assert_eq!(res.translated, b("/vfs/x"));
}

#[test]
fn resolve_redirect_translates() {
    let mut mt = MountTable::new();
    assert!(mt.add(b("/over"), Some(b("/real"))));
    let res = mt.resolve(&b("/over/a/b")).expect("covered");
    assert!(!res.is_virtual);
    assert_eq!(res.translated, b("/real/a/b"));
    // the prefix itself maps onto the backend root alone
    let res = mt.resolve(&b("/over")).expect("covered");
    assert_eq!(res.translated, b("/real"));
}

#[test]
fn resolve_normalizes_before_matching() {
    let mut mt = MountTable::new();
    assert!(mt.add(b("/over"), Some(b("/real"))));
    let res = mt.resolve(&b("/over///x")).expect("covered");
    assert_eq!(res.translated, b("/real/x"));
}

#[test]
fn resolve_requires_component_boundary() {
    let mut mt = MountTable::new();
    assert!(mt.add(b("/over"), Some(b("/real"))));
    assert!(mt.resolve(&b("/overlay")).is_none());
    assert!(mt.resolve(&b("/ove")).is_none());
}

#[test]
fn resolve_picks_longest_prefix() {
    let mut mt = MountTable::new();
    assert!(mt.add(b("/a"), Some(b("/short"))));
    assert!(mt.add(b("/a/b"), Some(b("/long"))));
    let res = mt.resolve(&b("/a/b/c")).expect("covered");
    assert_eq!(res.mount_index, 1);
    assert_eq!(res.translated, b("/long/c"));
    let res = mt.resolve(&b("/a/x")).expect("covered");
    assert_eq!(res.mount_index, 0);
    assert_eq!(res.translated, b("/short/x"));
}

#[test]
fn resolve_root_mount_covers_everything_absolute() {
    let mut mt = MountTable::new();
    assert!(mt.add(b("/"), Some(b("/jail"))));
    let res = mt.resolve(&b("/etc/passwd")).expect("covered");
    assert_eq!(res.translated, b("/jail/etc/passwd"));
    // a relative path is absolute nowhere: it falls through
    assert!(mt.resolve(&b("relative/path")).is_none());
}

#[test]
fn resolve_unmatched_is_none() {
    let mut mt = MountTable::new();
    assert!(mt.add(b("/vfs"), None));
    assert!(mt.resolve(&b("/elsewhere/z")).is_none());
    assert!(mt.resolve(&b("")).is_none());
}

#[test]
fn add_refuses_malformed_prefixes() {
    let mut mt = MountTable::new();
    assert!(!mt.add(b(""), None));
    assert!(!mt.add(b("rel"), None));
    assert!(!mt.add(b("/a//b"), None));
    assert!(!mt.add(b("/a/"), None));
    // the root alone may end in a separator
    assert!(mt.add(b("/"), None));
}

#[test]
fn add_refuses_duplicate_prefix() {
    let mut mt = MountTable::new();
    assert!(mt.add(b("/vfs"), None));
    assert!(!mt.add(b("/vfs"), Some(b("/real"))));
    assert!(mt.add(b("/vfs/sub"), None));
}

#[test]
fn add_refuses_nul_in_backend_root() {
    let mut mt = MountTable::new();
    assert!(!mt.add(b("/over"), Some(vec![47, 114, 0, 108])));
}

#[test]
fn translate_path_rewrites_redirects_only() {
    let mut mt = MountTable::new();
    assert!(mt.add(b("/vfs"), None));
    assert!(mt.add(b("/over"), Some(b("/real"))));
    // a redirect yields the marshalled, NUL-terminated host path
    assert_eq!(translate_path(&mt, &b("/over/a")), Some(b("/real/a\0")));
    // a virtual mount is served directly: nothing to rewrite
    assert_eq!(translate_path(&mt, &b("/vfs/a")), None);
    // an uncovered path passes through
    assert_eq!(translate_path(&mt, &b("/other")), None);
}

#[test]
fn fd_translate_sentinel_is_preserved() {
    let mut fds = FdTable::new();
    assert!(fds.insert(7, 42));
    assert_eq!(fds.translate(AT_FDCWD), AT_FDCWD);
}

#[test]
fn fd_translate_mapped_and_unmapped() {
    let mut fds = FdTable::new();
    assert!(fds.insert(7, 42));
    assert_eq!(fds.translate(7), 42);
    // a descriptor not in the table already names a kernel object
    assert_eq!(fds.translate(9), 9);
}

#[test]
fn fd_insert_refuses_sentinel_and_duplicates() {
    let mut fds = FdTable::new();
    assert!(!fds.insert(AT_FDCWD, 1));
    assert!(fds.insert(5, 50));
    assert!(!fds.insert(5, 51));
    assert_eq!(fds.translate(5), 50);
}

#[test]
fn fd_remove_destroys_entry() {
    let mut fds = FdTable::new();
    assert!(fds.insert(5, 50));
    assert!(fds.insert(6, 60));
    assert!(fds.remove(5));
    assert!(!fds.remove(5));
    assert_eq!(fds.translate(5), 5);
    assert_eq!(fds.translate(6), 60);
}
