//! `FileSystemSyncAccessHandle`: exclusive per-file locks and the state of an
//! open handle. At most one live handle per file path is allowed; a second
//! concurrent `createSyncAccessHandle` is refused.
use std::sync::Arc;
use vstd::prelude::*;

use super::errors::{DomErrorName, IoErrorKind};
use super::opfs_backend::{resolve_spec, OpfsBackend};
use crate::text::str_eq;

verus! {

/// The set of paths whose exclusive lock is held.
pub struct LockTable {
    held: Vec<String>,
}

/// The paths a lock table holds after an `acquire` of `p`, and whether the
/// acquisition succeeded.
pub open spec fn acquire_spec(held: Set<Seq<char>>, p: Seq<char>) -> (Set<Seq<char>>, bool) {
    if held.contains(p) {
        (held, false)
    } else {
        (held.insert(p), true)
    }
}

/// The paths a lock table holds after the lock on `p` is released.
pub open spec fn release_spec(held: Set<Seq<char>>, p: Seq<char>) -> Set<Seq<char>> {
    held.remove(p)
}

impl LockTable {
    /// The held paths.
    pub closed spec fn view(&self) -> Set<Seq<char>> {
        Set::new(|p: Seq<char>| exists|i: int| 0 <= i < self.held@.len() && self.held@[i]@ == p)
    }

    /// No path is held twice.
    pub closed spec fn wf(&self) -> bool {
        forall|i: int, j: int|
            0 <= i < self.held@.len() && 0 <= j < self.held@.len() && i != j ==> self.held@[i]@ != self.held@[j]@
    }

    /// An empty table.
    pub fn new() -> (t: Self)
        ensures
            t.wf(),
            t@ == Set::<Seq<char>>::empty(),
    {
        let t = LockTable { held: Vec::new() };
        proof {
            assert(t@ =~= Set::<Seq<char>>::empty());
        }
        t
    }

    fn position(&self, p: &str) -> (r: Option<usize>)
        ensures
            match r {
                Some(i) => i < self.held@.len() && self.held@[i as int]@ == p@,
                None => forall|i: int| 0 <= i < self.held@.len() ==> self.held@[i]@ != p@,
            },
    {
        let mut i: usize = 0;
        while i < self.held.len()
            invariant
                0 <= i <= self.held@.len(),
                forall|j: int| 0 <= j < i ==> self.held@[j]@ != p@,
            decreases self.held@.len() - i,
        {
            if str_eq(self.held[i].as_str(), p) {
                return Some(i);
            }
            i = i + 1;
        }
        None
    }

    /// Whether the lock on `p` is held.
    pub fn is_held(&self, p: &str) -> (r: bool)
        ensures
            r == self@.contains(p@),
    {
        match self.position(p) {
            Some(i) => {
                proof {
                    assert(self@.contains(p@)) by {
                        assert(self.held@[i as int]@ == p@);
                    }
                }
                true
            },
            None => false,
        }
    }
}

/// Holds an exclusive lock on a path while alive; `release` gives it back.
pub struct OpfsExclusiveLock {
    path: String,
}

impl OpfsExclusiveLock {
    /// The locked path.
    pub closed spec fn path(&self) -> Seq<char> {
        self.path@
    }

    /// Take the lock on `canonical_path`: refused while another lock on the
    /// same path is held.
    pub fn acquire(table: &mut LockTable, canonical_path: String) -> (r: Option<Self>)
        requires
            old(table).wf(),
        ensures
            final(table).wf(),
            (final(table)@, r is Some) == acquire_spec(old(table)@, canonical_path@),
            r matches Some(l) ==> l.path() == canonical_path@,
    {
        match table.position(canonical_path.as_str()) {
            Some(i) => {
                proof {
                    assert(table@.contains(canonical_path@)) by {
                        assert(table.held@[i as int]@ == canonical_path@);
                    }
                }
                None
            },
            None => {
                let ghost before = table.held@;
                let ghost old_set = table@;
                table.held.push(canonical_path.clone());
                proof {
                    assert(table.held@ == before.push(canonical_path));
                    assert forall|p: Seq<char>| table@.contains(p) == old_set.insert(canonical_path@).contains(p) by {
                        if old_set.contains(p) {
                            let k = choose|k: int| 0 <= k < before.len() && before[k]@ == p;
                            assert(table.held@[k]@ == p);
                        }
                        if table@.contains(p) {
                            let k = choose|k: int| 0 <= k < table.held@.len() && table.held@[k]@ == p;
                            if k < before.len() {
                                assert(before[k]@ == p);
                            }
                        }
                        if p == canonical_path@ {
                            assert(table.held@[before.len() as int]@ == p);
                        }
                    }
                    assert(table@ =~= old_set.insert(canonical_path@));
                }
                Some(OpfsExclusiveLock { path: canonical_path })
            },
        }
    }

    /// Give the lock back (what dropping the lock does).
    pub fn release(self, table: &mut LockTable)
        requires
            old(table).wf(),
        ensures
            final(table).wf(),
            final(table)@ == release_spec(old(table)@, self.path()),
    {
        match table.position(self.path.as_str()) {
            Some(i) => {
                let ghost before = table.held@;
                let ghost old_set = table@;
                table.held.remove(i);
                proof {
                    assert(table.held@ == before.remove(i as int));
                    assert forall|p: Seq<char>| table@.contains(p) == old_set.remove(self.path@).contains(p) by {
                        if table@.contains(p) {
                            let k = choose|k: int| 0 <= k < table.held@.len() && table.held@[k]@ == p;
                            if k < i {
                                assert(before[k]@ == p);
                            } else {
                                assert(before[k + 1]@ == p);
                            }
                        }
                        if old_set.remove(self.path@).contains(p) {
                            let k = choose|k: int| 0 <= k < before.len() && before[k]@ == p;
                            assert(k != i);
                            if k < i {
                                assert(table.held@[k]@ == p);
                            } else {
                                assert(table.held@[k - 1]@ == p);
                            }
                        }
                    }
                    assert(table@ =~= old_set.remove(self.path@));
                }
            },
            None => {
                proof {
                    assert(!table@.contains(self.path@)) by {
                        if table@.contains(self.path@) {
                            let k = choose|k: int| 0 <= k < table.held@.len() && table.held@[k]@ == self.path@;
                        }
                    }
                    assert(table@ =~= table@.remove(self.path@));
                }
            },
        }
    }
}

/// While the lock on a path is held, a second acquisition of it is refused.
pub proof fn law_second_acquire_refused(held: Set<Seq<char>>, p: Seq<char>)
    ensures
        !acquire_spec(acquire_spec(held, p).0, p).1,
{
}

/// Releasing a lock makes its path available again, and leaves the other
/// held paths held.
pub proof fn law_release_frees(held: Set<Seq<char>>, p: Seq<char>, q: Seq<char>)
    requires
        p != q,
    ensures
        acquire_spec(release_spec(held, p), p).1,
        release_spec(held, p).contains(q) == held.contains(q),
{
}

/// Why `createSyncAccessHandle` could not open a handle.
#[derive(Debug, Clone, Copy, PartialEq, Eq, Structural)]
pub enum SyncOpenError {
    /// The virtual path does not resolve inside the OPFS root.
    PathInvalid,
    /// Another sync access handle is open on the file.
    AlreadyLocked,
    /// Opening the file failed with this kind of I/O error.
    Io(IoErrorKind),
}

impl SyncOpenError {
    /// The DOMException a refused `createSyncAccessHandle` rejects with.
    pub fn dom_name(&self) -> (n: DomErrorName)
        ensures
            n == match self {
                SyncOpenError::PathInvalid => DomErrorName::Syntax,
                SyncOpenError::AlreadyLocked => DomErrorName::NoModificationAllowed,
                SyncOpenError::Io(k) => super::errors::io_error_name(*k),
            },
    {
        match self {
            SyncOpenError::PathInvalid => DomErrorName::Syntax,
            SyncOpenError::AlreadyLocked => DomErrorName::NoModificationAllowed,
            SyncOpenError::Io(k) => super::errors::io_error_dom_name(*k),
        }
    }
}

/// The state of a sync access handle: its file, its lock, and whether it
/// was closed.
pub struct FileSystemSyncAccessHandle {
    pub backend: Arc<OpfsBackend>,
    pub virtual_path: String,
    /// The resolved on-disk path of the file.
    pub disk_path: String,
    pub closed: bool,
    pub lock: OpfsExclusiveLock,
}

impl FileSystemSyncAccessHandle {
    /// First step of `open`: resolve the path and take the file's exclusive
    /// lock. The caller then opens the file for reading and writing; if that
    /// fails it releases the lock and reports `SyncOpenError::Io`.
    pub fn open(backend: Arc<OpfsBackend>, virtual_path: String, table: &mut LockTable) -> (r: Result<Self, SyncOpenError>)
        requires
            old(table).wf(),
        ensures
            final(table).wf(),
            match resolve_spec(backend.root(), virtual_path@) {
                Err(_) => r == Err::<Self, SyncOpenError>(SyncOpenError::PathInvalid) && final(table)@ == old(table)@,
                Ok(p) => {
                    &&& (final(table)@, r is Ok) == acquire_spec(old(table)@, p)
                    &&& r is Err ==> r == Err::<Self, SyncOpenError>(SyncOpenError::AlreadyLocked)
                    &&& r matches Ok(h) ==> {
                        &&& h.disk_path@ == p
                        &&& h.lock.path() == p
                        &&& h.virtual_path@ == virtual_path@
                        &&& h.backend == backend
                        &&& !h.closed
                    }
                },
            },
    {
        let canonical = match backend.resolve(virtual_path.as_str()) {
            Ok(p) => p,
            Err(_) => {
                return Err(SyncOpenError::PathInvalid);
            },
        };
        let disk_path = canonical.clone();
        match OpfsExclusiveLock::acquire(table, canonical) {
            Some(lock) => Ok(FileSystemSyncAccessHandle { backend, virtual_path, disk_path, closed: false, lock }),
            None => Err(SyncOpenError::AlreadyLocked),
        }
    }

    /// Every operation but `close` is refused on a closed handle.
    pub fn check_open(&self) -> (r: Result<(), DomErrorName>)
        ensures
            r == (if self.closed {
                Err(DomErrorName::InvalidState)
            } else {
                Ok(())
            }),
    {
        if self.closed {
            Err(DomErrorName::InvalidState)
        } else {
            Ok(())
        }
    }

    /// `close()`: marks the handle closed; closing twice is harmless.
    pub fn close(&mut self)
        ensures
            final(self).closed,
            final(self).disk_path == old(self).disk_path,
            final(self).virtual_path == old(self).virtual_path,
    {
        self.closed = true;
    }
}

} // verus!
