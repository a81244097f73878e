//! The directory iterators behind `keys()`, `values()`, `entries()` and
//! `[Symbol.asyncIterator]`. The directory contents are snapshotted when the
//! iterator is made; each `next()` hands out the following entry.
use std::sync::Arc;
use vstd::prelude::*;

use super::handles::{
    directory_kind, file_kind, opfs_disk_path, FileSystemDirectoryHandle, FileSystemFileHandle,
};
use super::opfs_backend::{DirEntrySnapshot, OpfsBackend};
use crate::path::{join_path, join_path_spec};

verus! {

/// What the iterator yields per `next()`.
#[derive(Debug, Clone, Copy, PartialEq, Eq, Structural)]
pub enum IteratorKind {
    Keys,
    Values,
    Entries,
}

/// The handle an iterator hands out for a directory entry.
pub enum ChildHandle {
    File(FileSystemFileHandle),
    Directory(FileSystemDirectoryHandle),
}

impl ChildHandle {
    /// The name, virtual path, kind and OPFS flag of the handle.
    pub open spec fn shape(&self) -> (Seq<char>, Seq<char>, Seq<char>, bool) {
        match self {
            ChildHandle::File(f) => (f.handle.name@, f.handle.virtual_path@, f.handle.kind@, f.handle.is_opfs),
            ChildHandle::Directory(d) => (d.handle.name@, d.handle.virtual_path@, d.handle.kind@, d.handle.is_opfs),
        }
    }

    pub open spec fn backend_of(&self) -> Option<Arc<OpfsBackend>> {
        match self {
            ChildHandle::File(f) => f.handle.backend,
            ChildHandle::Directory(d) => d.handle.backend,
        }
    }

    pub open spec fn disk_path(&self) -> Seq<char> {
        match self {
            ChildHandle::File(f) => f.handle.path@,
            ChildHandle::Directory(d) => d.handle.path@,
        }
    }
}

/// One step of the iteration.
pub enum IterItem {
    Key(String),
    Value(ChildHandle),
    Entry(String, ChildHandle),
}

/// Internal state for a directory iterator.
pub struct DirIteratorState {
    snapshot: Vec<DirEntrySnapshot>,
    backend: Arc<OpfsBackend>,
    parent_virtual_path: String,
    cursor: usize,
    kind: IteratorKind,
    is_opfs: bool,
}

/// The handle `build_child_handle` makes for the entry `name` (a directory
/// when `is_dir`) below `parent`.
pub open spec fn child_handle_ok(
    h: ChildHandle,
    name: Seq<char>,
    is_dir: bool,
    parent: Seq<char>,
    backend: Arc<OpfsBackend>,
    is_opfs: bool,
) -> bool {
    let vp = join_path_spec(parent, name);
    &&& h.shape() == (name, vp, if is_dir {
        directory_kind()
    } else {
        file_kind()
    }, is_opfs)
    &&& (h is Directory <==> is_dir)
    &&& h.backend_of() == Some(backend)
    &&& h.disk_path() == opfs_disk_path(backend.root(), vp)
}

/// The handle for a directory entry: a directory handle for a directory, a
/// file handle otherwise, at the entry's path below `parent_virtual_path`.
pub fn build_child_handle(entry: &DirEntrySnapshot, parent_virtual_path: &str, backend: &Arc<OpfsBackend>, is_opfs: bool) -> (h: ChildHandle)
    ensures
        child_handle_ok(h, entry.name@, entry.is_dir, parent_virtual_path@, *backend, is_opfs),
{
    let child_path = join_path(parent_virtual_path, entry.name.as_str());
    if entry.is_dir {
        ChildHandle::Directory(FileSystemDirectoryHandle::new_opfs(entry.name.clone(), child_path, backend.clone(), is_opfs))
    } else {
        ChildHandle::File(FileSystemFileHandle::new_opfs(entry.name.clone(), child_path, backend.clone(), is_opfs))
    }
}

impl DirIteratorState {
    pub closed spec fn entries(&self) -> Seq<DirEntrySnapshot> {
        self.snapshot@
    }

    pub closed spec fn position(&self) -> nat {
        self.cursor as nat
    }

    pub closed spec fn iter_kind(&self) -> IteratorKind {
        self.kind
    }

    pub closed spec fn parent(&self) -> Seq<char> {
        self.parent_virtual_path@
    }

    pub closed spec fn iter_backend(&self) -> Arc<OpfsBackend> {
        self.backend
    }

    pub closed spec fn opfs(&self) -> bool {
        self.is_opfs
    }

    /// The cursor never passes the end of the snapshot.
    pub open spec fn wf(&self) -> bool {
        self.position() <= self.entries().len()
    }

    /// An iterator over `snapshot`, the entries of `dir` read when the
    /// iterator is made. Only directories with an OPFS backend can be
    /// iterated (`None` otherwise, a `TypeError` in JavaScript).
    pub fn new(dir: &FileSystemDirectoryHandle, kind: IteratorKind, snapshot: Vec<DirEntrySnapshot>) -> (r: Option<Self>)
        ensures
            r is Some <==> dir.handle.backend is Some,
            r matches Some(it) ==> {
                &&& it.wf()
                &&& it.entries() == snapshot@
                &&& it.position() == 0
                &&& it.iter_kind() == kind
                &&& it.parent() == dir.handle.virtual_path@
                &&& Some(it.iter_backend()) == dir.handle.backend
                &&& it.opfs() == dir.handle.is_opfs
            },
    {
        match &dir.handle.backend {
            Some(b) => Some(
                DirIteratorState {
                    snapshot,
                    backend: b.clone(),
                    parent_virtual_path: dir.handle.virtual_path.clone(),
                    cursor: 0,
                    kind,
                    is_opfs: dir.handle.is_opfs,
                },
            ),
            None => None,
        }
    }

    /// `next()`: the following entry, as a name, a handle, or both by the
    /// iterator's kind; `None` (done) once every entry was handed out.
    pub fn next(&mut self) -> (r: Option<IterItem>)
        requires
            old(self).wf(),
        ensures
            final(self).wf(),
            final(self).entries() == old(self).entries(),
            final(self).iter_kind() == old(self).iter_kind(),
            final(self).parent() == old(self).parent(),
            final(self).iter_backend() == old(self).iter_backend(),
            final(self).opfs() == old(self).opfs(),
            old(self).position() == old(self).entries().len() ==> r is None && final(self).position() == old(self).position(),
            old(self).position() < old(self).entries().len() ==> {
                let e = old(self).entries()[old(self).position() as int];
                let ok = |h: ChildHandle| child_handle_ok(h, e.name@, e.is_dir, old(self).parent(), old(self).iter_backend(), old(self).opfs());
                &&& final(self).position() == old(self).position() + 1
                &&& match r {
                    Some(IterItem::Key(k)) => old(self).iter_kind() == IteratorKind::Keys && k@ == e.name@,
                    Some(IterItem::Value(h)) => old(self).iter_kind() == IteratorKind::Values && ok(h),
                    Some(IterItem::Entry(k, h)) => old(self).iter_kind() == IteratorKind::Entries && k@ == e.name@ && ok(h),
                    None => false,
                }
            },
    {
        if self.cursor >= self.snapshot.len() {
            return None;
        }
        let i = self.cursor;
        self.cursor = self.cursor + 1;
        let entry = &self.snapshot[i];
        match self.kind {
            IteratorKind::Keys => Some(IterItem::Key(entry.name.clone())),
            IteratorKind::Values => {
                let h = build_child_handle(entry, self.parent_virtual_path.as_str(), &self.backend, self.is_opfs);
                Some(IterItem::Value(h))
            },
            IteratorKind::Entries => {
                let h = build_child_handle(entry, self.parent_virtual_path.as_str(), &self.backend, self.is_opfs);
                Some(IterItem::Entry(entry.name.clone(), h))
            },
        }
    }
}

} // verus!
