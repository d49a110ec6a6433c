//! The mount table: longest-prefix resolution of guest paths.
//!
//! A mount binds an absolute, normalized guest path prefix to a backend. A
//! virtual backend serves file operations itself and has no host root; a
//! non-virtual backend only redirects, mapping the prefix onto its
//! `backend_root` on the host. The table is built once and then only read;
//! `resolve` answers, for any guest path, which mount covers it (the one with
//! the longest matching prefix) and what the translated path is.

use vstd::prelude::*;

use crate::path::{
    bytes_equal, check_nul_free, check_separator_normal, copy_bytes, is_path_prefix,
    is_separator_normal, join_from, lemma_norm_nul_free, norm, normalize, nul_free,
    path_prefix_matches, suffix_start, SLASH,
};

verus! {

/// One mount: a guest prefix and its backend. `backend_root` is present
/// exactly for non-virtual (redirecting) backends.
pub struct MountEntry {
    pub guest_prefix: Vec<u8>,
    pub backend_root: Option<Vec<u8>>,
}

impl MountEntry {
    /// A backend without a host root serves operations itself.
    pub open spec fn is_virtual(self) -> bool {
        self.backend_root is None
    }

    /// The prefix is absolute and normalized: it starts with a separator,
    /// holds no repeated separators, and ends in one only as the root `/`.
    /// A host root carries no NUL byte, so it can be marshalled as a C
    /// string.
    pub open spec fn wf(self) -> bool {
        &&& self.guest_prefix@.len() > 0
        &&& self.guest_prefix@[0] == SLASH
        &&& is_separator_normal(self.guest_prefix@)
        &&& (self.guest_prefix@.len() == 1 || self.guest_prefix@[self.guest_prefix@.len() - 1]
            != SLASH)
        &&& match self.backend_root {
            Some(root) => nul_free(root@),
            None => true,
        }
    }
}

/// The mount table, ordered for longest-prefix lookup.
pub struct MountTable {
    pub entries: Vec<MountEntry>,
}

/// What `resolve` answers for a covered path.
pub struct Resolution {
    /// Index of the matched mount entry.
    pub mount_index: usize,
    /// Whether the matched backend serves operations itself.
    pub is_virtual: bool,
    /// The translated path: `backend_root` joined with the covered suffix
    /// for a redirect, the guest path unchanged for a virtual backend.
    pub translated: Vec<u8>,
}

impl MountTable {
    /// Every entry is well-formed and no two entries share a prefix.
    pub open spec fn wf(self) -> bool {
        &&& forall|i: int| 0 <= i < self.entries@.len() ==> (#[trigger] self.entries@[i]).wf()
        &&& forall|i: int, j: int|
            0 <= i < self.entries@.len() && 0 <= j < self.entries@.len() && i != j ==> (
            #[trigger] self.entries@[i]).guest_prefix@ != (
            #[trigger] self.entries@[j]).guest_prefix@
    }

    /// Entry `i` covers the normalized path `np`.
    pub open spec fn entry_matches(self, np: Seq<u8>, i: int) -> bool {
        &&& 0 <= i < self.entries@.len()
        &&& is_path_prefix(self.entries@[i].guest_prefix@, np)
    }

    /// Entry `i` covers `np` with the longest prefix among all covering
    /// entries.
    pub open spec fn is_best_match(self, np: Seq<u8>, i: int) -> bool {
        &&& self.entry_matches(np, i)
        &&& forall|j: int|
            #[trigger] self.entry_matches(np, j) ==> self.entries@[j].guest_prefix@.len()
                <= self.entries@[i].guest_prefix@.len()
    }

    /// Some mount covers the path.
    pub open spec fn resolves(self, p: Seq<u8>) -> bool {
        exists|i: int| self.entry_matches(norm(p), i)
    }

    /// The index of the covering mount with the longest prefix.
    pub open spec fn resolved_index(self, p: Seq<u8>) -> int {
        choose|i: int| self.is_best_match(norm(p), i)
    }

    /// Whether the covering mount is virtual.
    pub open spec fn resolved_is_virtual(self, p: Seq<u8>) -> bool {
        self.entries@[self.resolved_index(p)].is_virtual()
    }

    /// The translated path: for a redirect, the host root followed by the
    /// suffix of the normalized path below the prefix; for a virtual
    /// backend, the guest path as presented.
    pub open spec fn resolved_path(self, p: Seq<u8>) -> Seq<u8> {
        let e = self.entries@[self.resolved_index(p)];
        match e.backend_root {
            Some(root) => root@ + norm(p).skip(suffix_start(e.guest_prefix@)),
            None => p,
        }
    }

    /// Among the first `k` entries, some covering entry has the longest
    /// prefix of them all.
    #[verifier::rlimit(50)]
    proof fn lemma_best_match_upto(self, np: Seq<u8>, k: int)
        requires
            0 <= k <= self.entries@.len(),
            exists|i: int| 0 <= i < k && #[trigger] self.entry_matches(np, i),
        ensures
            exists|i: int|
                0 <= i < k && #[trigger] self.entry_matches(np, i) && forall|j: int|
                    0 <= j < k && #[trigger] self.entry_matches(np, j)
                        ==> self.entries@[j].guest_prefix@.len()
                        <= self.entries@[i].guest_prefix@.len(),
        decreases k,
    {
        let k1 = k - 1;
        if exists|i: int| 0 <= i < k1 && #[trigger] self.entry_matches(np, i) {
            self.lemma_best_match_upto(np, k1);
            let b = choose|i: int|
                0 <= i < k1 && #[trigger] self.entry_matches(np, i) && forall|j: int|
                    0 <= j < k1 && #[trigger] self.entry_matches(np, j)
                        ==> self.entries@[j].guest_prefix@.len()
                        <= self.entries@[i].guest_prefix@.len();
            if self.entry_matches(np, k1) && self.entries@[k1].guest_prefix@.len()
                > self.entries@[b].guest_prefix@.len() {
                assert(self.entry_matches(np, k1) && forall|j: int|
                    0 <= j < k && #[trigger] self.entry_matches(np, j)
                        ==> self.entries@[j].guest_prefix@.len()
                        <= self.entries@[k1].guest_prefix@.len());
            } else {
                assert(self.entry_matches(np, b) && forall|j: int|
                    0 <= j < k && #[trigger] self.entry_matches(np, j)
                        ==> self.entries@[j].guest_prefix@.len()
                        <= self.entries@[b].guest_prefix@.len());
            }
        } else {
            let i0 = choose|i: int| 0 <= i < k && #[trigger] self.entry_matches(np, i);
            assert(i0 == k1);
            assert(self.entry_matches(np, k1) && forall|j: int|
                0 <= j < k && #[trigger] self.entry_matches(np, j)
                    ==> self.entries@[j].guest_prefix@.len()
                    <= self.entries@[k1].guest_prefix@.len());
        }
    }

    /// A covered path has a best-matching entry, so `resolved_index` names
    /// a real entry: the one with the longest covering prefix.
    #[verifier::rlimit(50)]
    pub proof fn lemma_resolved_index_is_best(self, p: Seq<u8>)
        requires
            self.resolves(p),
        ensures
            self.is_best_match(norm(p), self.resolved_index(p)),
    {
        let np = norm(p);
        let i0 = choose|i: int| self.entry_matches(np, i);
        assert(0 <= i0 < self.entries@.len() && self.entry_matches(np, i0));
        self.lemma_best_match_upto(np, self.entries@.len() as int);
        let b = choose|i: int|
            0 <= i < self.entries@.len() && #[trigger] self.entry_matches(np, i) && forall|j: int|
                0 <= j < self.entries@.len() && #[trigger] self.entry_matches(np, j)
                    ==> self.entries@[j].guest_prefix@.len()
                    <= self.entries@[i].guest_prefix@.len();
        assert(self.is_best_match(np, b));
    }

    /// The translated path of a covered, NUL-free guest path is itself free
    /// of NUL: with a terminator appended it is exactly one C string.
    pub proof fn lemma_resolved_path_nul_free(self, p: Seq<u8>)
        requires
            self.wf(),
            self.resolves(p),
            nul_free(p),
        ensures
            nul_free(self.resolved_path(p)),
    {
        self.lemma_resolved_index_is_best(p);
        let e = self.entries@[self.resolved_index(p)];
        match e.backend_root {
            Some(root) => {
                lemma_norm_nul_free(p);
                let tail = norm(p).skip(suffix_start(e.guest_prefix@));
                assert(forall|i: int|
                    0 <= i < tail.len() ==> tail[i] == norm(p)[i + suffix_start(e.guest_prefix@)]);
                assert(forall|i: int|
                    0 <= i < self.resolved_path(p).len() ==> self.resolved_path(p)[i] != 0) by {
                    assert(forall|i: int|
                        0 <= i < root@.len() ==> #[trigger] self.resolved_path(p)[i]
                            == root@[i]);
                    assert(forall|i: int|
                        root@.len() <= i < self.resolved_path(p).len()
                            ==> #[trigger] self.resolved_path(p)[i] == tail[i - root@.len()]);
                }
            },
            None => {},
        }
    }

    /// Two best matches are the same entry: equal prefix lengths force equal
    /// prefixes, and distinct entries never share a prefix.
    pub proof fn lemma_best_match_unique(self, np: Seq<u8>, i: int, j: int)
        requires
            self.wf(),
            self.is_best_match(np, i),
            self.is_best_match(np, j),
        ensures
            i == j,
    {
        let pi = self.entries@[i].guest_prefix@;
        let pj = self.entries@[j].guest_prefix@;
        assert(self.entry_matches(np, i));
        assert(self.entry_matches(np, j));
        assert(pi.len() <= pj.len());
        assert(pj.len() <= pi.len());
        assert(np.take(pi.len() as int) == pi);
        assert(np.take(pj.len() as int) == pj);
        if i != j {
            assert(pi != pj);
            assert(false);
        }
    }

    /// An empty table: nothing resolves.
    pub fn new() -> (r: MountTable)
        ensures
            r.wf(),
            r.entries@.len() == 0,
    {
        MountTable { entries: Vec::new() }
    }

    /// A new entry may come in if it is well-formed and its prefix is not
    /// yet taken.
    pub open spec fn can_add(self, e: MountEntry) -> bool {
        &&& e.wf()
        &&& forall|i: int|
            0 <= i < self.entries@.len() ==> (#[trigger] self.entries@[i]).guest_prefix@
                != e.guest_prefix@
    }

    /// Append a mount. Returns whether the entry was accepted; a malformed
    /// prefix, a host root holding NUL, or a prefix already mounted is
    /// refused and leaves the table as it was.
    pub fn add(&mut self, guest_prefix: Vec<u8>, backend_root: Option<Vec<u8>>) -> (r: bool)
        requires
            old(self).wf(),
        ensures
            final(self).wf(),
            r == old(self).can_add(
                (MountEntry { guest_prefix: guest_prefix, backend_root: backend_root }),
            ),
            r ==> final(self).entries@ == old(self).entries@.push(
                (MountEntry { guest_prefix: guest_prefix, backend_root: backend_root }),
            ),
            !r ==> final(self).entries@ == old(self).entries@,
    {
        let entry = MountEntry { guest_prefix, backend_root };
        if entry.guest_prefix.len() == 0 {
            return false;
        }
        if entry.guest_prefix[0] != SLASH {
            return false;
        }
        if !check_separator_normal(&entry.guest_prefix) {
            return false;
        }
        if entry.guest_prefix.len() > 1 && entry.guest_prefix[entry.guest_prefix.len() - 1]
            == SLASH {
            return false;
        }
        match &entry.backend_root {
            Some(root) => {
                if !check_nul_free(root) {
                    return false;
                }
            },
            None => {},
        }
        let mut i: usize = 0;
        while i < self.entries.len()
            invariant
                *self == *old(self),
                self.wf(),
                i <= self.entries@.len(),
                entry.guest_prefix@ == guest_prefix@,
                entry.backend_root == backend_root,
                entry.wf(),
                forall|j: int|
                    0 <= j < i ==> (#[trigger] self.entries@[j]).guest_prefix@
                        != entry.guest_prefix@,
            decreases self.entries@.len() - i,
        {
            if bytes_equal(&self.entries[i].guest_prefix, &entry.guest_prefix) {
                return false;
            }
            i += 1;
        }
        self.entries.push(entry);
        true
    }

    /// Longest-prefix resolution. The input is normalized (runs of repeated
    /// separators collapse) and matched against every mount prefix; the
    /// longest match wins. A path no mount covers resolves to nothing and
    /// will pass through untouched.
    pub fn resolve(&self, p: &Vec<u8>) -> (r: Option<Resolution>)
        requires
            self.wf(),
        ensures
            (r is Some) == self.resolves(p@),
            r matches Some(res) ==> {
                &&& res.mount_index as int == self.resolved_index(p@)
                &&& self.is_best_match(norm(p@), res.mount_index as int)
                &&& res.is_virtual == self.resolved_is_virtual(p@)
                &&& res.translated@ == self.resolved_path(p@)
            },
    {
        let np = normalize(p);
        let mut best: Option<usize> = None;
        let mut k: usize = 0;
        while k < self.entries.len()
            invariant
                self.wf(),
                k <= self.entries@.len(),
                np@ == norm(p@),
                best is None ==> forall|j: int| 0 <= j < k ==> !self.entry_matches(np@, j),
                best matches Some(b) ==> {
                    &&& (b as int) < k
                    &&& self.entry_matches(np@, b as int)
                    &&& forall|j: int|
                        0 <= j < k && #[trigger] self.entry_matches(np@, j)
                            ==> self.entries@[j].guest_prefix@.len()
                            <= self.entries@[b as int].guest_prefix@.len()
                },
            decreases self.entries@.len() - k,
        {
            if path_prefix_matches(&self.entries[k].guest_prefix, &np) {
                match best {
                    None => {
                        best = Some(k);
                    },
                    Some(b) => {
                        if self.entries[k].guest_prefix.len() > self.entries[b].guest_prefix.len() {
                            best = Some(k);
                        }
                    },
                }
            }
            k += 1;
        }
        match best {
            None => {
                proof {
                    assert(forall|j: int|
                        0 <= j < self.entries@.len() ==> !self.entry_matches(np@, j));
                    assert(!self.resolves(p@));
                }
                None
            },
            Some(b) => {
                proof {
                    assert(self.is_best_match(norm(p@), b as int));
                    assert(self.resolves(p@));
                    let i0 = self.resolved_index(p@);
                    assert(self.is_best_match(norm(p@), i0));
                    self.lemma_best_match_unique(norm(p@), i0, b as int);
                }
                let e = &self.entries[b];
                let virt = e.backend_root.is_none();
                let translated: Vec<u8> = match &e.backend_root {
                    Some(root) => {
                        let plen = e.guest_prefix.len();
                        let start: usize = if e.guest_prefix[plen - 1] == SLASH {
                            plen - 1
                        } else {
                            plen
                        };
                        join_from(root, &np, start)
                    },
                    None => copy_bytes(p),
                };
                Some(Resolution { mount_index: b, is_virtual: virt, translated })
            },
        }
    }
}

/// The path translator: decides whether a guest path must be rewritten and,
/// if so, produces the NUL-terminated host path to marshal into guest
/// scratch memory. An uncovered path, or one on a virtual mount — which is
/// served directly and never re-injected — needs no rewriting and answers
/// nothing, without committing any scratch.
pub fn translate_path(mt: &MountTable, p: &Vec<u8>) -> (r: Option<Vec<u8>>)
    requires
        mt.wf(),
    ensures
        (r is Some) == (mt.resolves(p@) && !mt.resolved_is_virtual(p@)),
        r matches Some(b) ==> b@ == mt.resolved_path(p@) + seq![0u8],
{
    match mt.resolve(p) {
        Some(res) => {
            if res.is_virtual {
                None
            } else {
                let mut bytes = res.translated;
                bytes.push(0u8);
                proof {
                    assert(bytes@ =~= mt.resolved_path(p@) + seq![0u8]);
                }
                Some(bytes)
            }
        },
        None => None,
    }
}

} // verus!
