//! The fd table: guest-visible directory descriptors mapped to kernel ones.
//!
//! When the tracer opens a directory on the guest's behalf, the number the
//! guest sees differs from the underlying host descriptor. Handlers of the
//! `*at` family run every `dirfd` argument through [`FdTable::translate`]:
//! the sentinel [`crate::AT_FDCWD`] is reserved and never translated, a
//! mapped descriptor is replaced by its kernel counterpart, and an unmapped
//! one already names a real kernel object and passes unchanged.

use vstd::prelude::*;

use crate::AT_FDCWD;

verus! {

/// The guest-to-kernel descriptor mapping, viewed as a `Map<int, int>`.
pub struct FdTable {
    entries: Vec<(i32, i32)>,
}

/// What a `dirfd` becomes under the mapping `m`: `AT_FDCWD` stays, a mapped
/// descriptor is replaced, anything else passes unchanged.
pub open spec fn fd_translate(m: Map<int, int>, fd: int) -> int {
    if fd == AT_FDCWD as int {
        fd
    } else if m.dom().contains(fd) {
        m[fd]
    } else {
        fd
    }
}

impl FdTable {
    /// Some entry maps the guest descriptor `fd`.
    pub closed spec fn has_guest_fd(self, fd: int) -> bool {
        exists|i: int| 0 <= i < self.entries@.len() && (#[trigger] self.entries@[i]).0 as int == fd
    }

    /// The kernel descriptor the entry for `fd` holds.
    pub closed spec fn kernel_fd_of(self, fd: int) -> int {
        let i = choose|i: int|
            0 <= i < self.entries@.len() && (#[trigger] self.entries@[i]).0 as int == fd;
        self.entries@[i].1 as int
    }

    /// No two entries share a guest descriptor, and the sentinel is never
    /// mapped.
    pub closed spec fn wf(self) -> bool {
        &&& forall|i: int, j: int|
            0 <= i < self.entries@.len() && 0 <= j < self.entries@.len() && i != j ==> (
            #[trigger] self.entries@[i]).0 != (#[trigger] self.entries@[j]).0
        &&& forall|i: int|
            0 <= i < self.entries@.len() ==> (#[trigger] self.entries@[i]).0 != AT_FDCWD
    }

    /// An empty table.
    pub fn new() -> (r: FdTable)
        ensures
            r.wf(),
            r@ == Map::<int, int>::empty(),
    {
        let t = FdTable { entries: Vec::new() };
        proof {
            assert(t@ =~= Map::<int, int>::empty());
        }
        t
    }

    /// Create the entry for a guest descriptor the tracer synthesized.
    /// Refused for the sentinel and for a guest descriptor already mapped;
    /// the table is unchanged then.
    pub fn insert(&mut self, guest_fd: i32, kernel_fd: i32) -> (r: bool)
        requires
            old(self).wf(),
        ensures
            final(self).wf(),
            r == (guest_fd != AT_FDCWD && !old(self)@.dom().contains(guest_fd as int)),
            r ==> final(self)@ == old(self)@.insert(guest_fd as int, kernel_fd as int),
            !r ==> final(self)@ == old(self)@,
    {
        if guest_fd == AT_FDCWD {
            return false;
        }
        let mut i: usize = 0;
        while i < self.entries.len()
            invariant
                *self == *old(self),
                self.wf(),
                i <= self.entries@.len(),
                forall|j: int| 0 <= j < i ==> (#[trigger] self.entries@[j]).0 != guest_fd,
            decreases self.entries@.len() - i,
        {
            if self.entries[i].0 == guest_fd {
                proof {
                    assert(self.has_guest_fd(guest_fd as int));
                }
                return false;
            }
            i += 1;
        }
        proof {
            assert(!self.has_guest_fd(guest_fd as int));
        }
        self.entries.push((guest_fd, kernel_fd));
        proof {
            let ghost pre = old(self)@;
            assert forall|fd: int| self.has_guest_fd(fd) implies (fd == guest_fd as int
                || old(self).has_guest_fd(fd)) by {
                let i = choose|i: int|
                    0 <= i < self.entries@.len() && (#[trigger] self.entries@[i]).0 as int == fd;
                if i < self.entries@.len() - 1 {
                    assert(old(self).entries@[i].0 as int == fd);
                }
            }
            assert forall|fd: int| old(self).has_guest_fd(fd) implies self.has_guest_fd(fd) by {
                let i = choose|i: int|
                    0 <= i < old(self).entries@.len() && (#[trigger] old(
                        self,
                    ).entries@[i]).0 as int == fd;
                assert(self.entries@[i].0 as int == fd);
            }
            assert forall|fd: int|
                old(self).has_guest_fd(fd) && self.has_guest_fd(fd) implies self.kernel_fd_of(fd)
                == old(self).kernel_fd_of(fd) by {
                let i = choose|i: int|
                    0 <= i < self.entries@.len() && (#[trigger] self.entries@[i]).0 as int == fd;
                let j = choose|j: int|
                    0 <= j < old(self).entries@.len() && (#[trigger] old(
                        self,
                    ).entries@[j]).0 as int == fd;
                assert(self.entries@[j].0 as int == fd);
                assert(i == j);
            }
            assert(self.has_guest_fd(guest_fd as int)) by {
                assert(self.entries@[self.entries@.len() - 1].0 as int == guest_fd as int);
            }
            assert(self.kernel_fd_of(guest_fd as int) == kernel_fd as int) by {
                let i = choose|i: int|
                    0 <= i < self.entries@.len() && (#[trigger] self.entries@[i]).0 as int
                        == guest_fd as int;
                assert(i == self.entries@.len() - 1);
            }
            assert(self@ =~= pre.insert(guest_fd as int, kernel_fd as int));
        }
        true
    }

    /// Destroy the entry for a guest descriptor on close. Returns whether an
    /// entry existed; the rest of the table is untouched.
    pub fn remove(&mut self, guest_fd: i32) -> (r: bool)
        requires
            old(self).wf(),
        ensures
            final(self).wf(),
            r == old(self)@.dom().contains(guest_fd as int),
            r ==> final(self)@ == old(self)@.remove(guest_fd as int),
            !r ==> final(self)@ == old(self)@,
    {
        let mut i: usize = 0;
        while i < self.entries.len()
            invariant
                *self == *old(self),
                self.wf(),
                i <= self.entries@.len(),
                forall|j: int| 0 <= j < i ==> (#[trigger] self.entries@[j]).0 != guest_fd,
            decreases self.entries@.len() - i,
        {
            if self.entries[i].0 == guest_fd {
                proof {
                    assert(self.has_guest_fd(guest_fd as int));
                }
                let ghost pre = self@;
                let ghost previdx = i as int;
                self.entries.remove(i);
                proof {
                    assert forall|fd: int| self.has_guest_fd(fd) implies old(self).has_guest_fd(fd)
                        && fd != guest_fd as int by {
                        let k = choose|k: int|
                            0 <= k < self.entries@.len() && (#[trigger] self.entries@[k]).0 as int
                                == fd;
                        if k < previdx {
                            assert(old(self).entries@[k].0 as int == fd);
                        } else {
                            assert(old(self).entries@[k + 1].0 as int == fd);
                        }
                    }
                    assert forall|fd: int|
                        old(self).has_guest_fd(fd) && fd != guest_fd as int implies self.has_guest_fd(
                        fd,
                    ) by {
                        let k = choose|k: int|
                            0 <= k < old(self).entries@.len() && (#[trigger] old(
                                self,
                            ).entries@[k]).0 as int == fd;
                        if k < previdx {
                            assert(self.entries@[k].0 as int == fd);
                        } else {
                            assert(k != previdx);
                            assert(self.entries@[k - 1].0 as int == fd);
                        }
                    }
                    assert forall|fd: int| self.has_guest_fd(fd) implies self.kernel_fd_of(fd)
                        == old(self).kernel_fd_of(fd) by {
                        let k = choose|k: int|
                            0 <= k < self.entries@.len() && (#[trigger] self.entries@[k]).0 as int
                                == fd;
                        let j = choose|j: int|
                            0 <= j < old(self).entries@.len() && (#[trigger] old(
                                self,
                            ).entries@[j]).0 as int == fd;
                        if k < previdx {
                            assert(old(self).entries@[k].0 as int == fd);
                            assert(j == k);
                        } else {
                            assert(old(self).entries@[k + 1].0 as int == fd);
                            assert(j == k + 1);
                        }
                    }
                    assert(self@ =~= pre.remove(guest_fd as int));
                }
                return true;
            }
            i += 1;
        }
        proof {
            assert(!self.has_guest_fd(guest_fd as int));
        }
        false
    }

    /// Translate a guest `dirfd` for re-injection: the sentinel stays, a
    /// mapped descriptor becomes its kernel counterpart, an unmapped one
    /// passes unchanged.
    pub fn translate(&self, fd: i32) -> (r: i32)
        requires
            self.wf(),
        ensures
            r as int == fd_translate(self@, fd as int),
    {
        if fd == AT_FDCWD {
            return fd;
        }
        let mut i: usize = 0;
        while i < self.entries.len()
            invariant
                self.wf(),
                i <= self.entries@.len(),
                forall|j: int| 0 <= j < i ==> (#[trigger] self.entries@[j]).0 != fd,
            decreases self.entries@.len() - i,
        {
            if self.entries[i].0 == fd {
                proof {
                    assert(self.has_guest_fd(fd as int));
                    let j = choose|j: int|
                        0 <= j < self.entries@.len() && (#[trigger] self.entries@[j]).0 as int
                            == fd as int;
                    assert(j == i);
                }
                return self.entries[i].1;
            }
            i += 1;
        }
        proof {
            assert(!self.has_guest_fd(fd as int));
        }
        fd
    }
}

impl View for FdTable {
    type V = Map<int, int>;

    /// The table as the mapping it encodes.
    open spec fn view(&self) -> Map<int, int> {
        Map::new(|fd: int| self.has_guest_fd(fd), |fd: int| self.kernel_fd_of(fd))
    }
}

} // verus!
