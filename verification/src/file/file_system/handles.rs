//! File and directory handles: their state, the names they accept, and the
//! decisions behind `getFileHandle`, `getDirectoryHandle`, `removeEntry`,
//! `resolve`, `isSameEntry` and the permission queries.
use std::sync::Arc;
use vstd::prelude::*;

use super::errors::DomErrorName;
use super::opfs_backend::{resolve_spec, OpfsBackend};
use super::{FileSystemPermissions, PermissionMode, PermissionState};
use crate::path::{
    components, join_path, join_path_spec, path_components, Comp, PathComponent, comps_of,
};
use crate::file::blob::BlobData;
use crate::text::{contains_char, str_eq};

verus! {

/// Metadata of one file system entry.
pub struct FileData {
    pub name: String,
    pub kind: String,
    pub size: u64,
    pub last_modified: u64,
}

/// Common state for all file system handles. Carries an OPFS backend reference
/// and a virtual path when the handle was minted under an origin's private root.
pub struct FileSystemHandle {
    pub name: String,
    pub kind: String,
    /// Path on disk (for OPFS handles: the resolved virtual path).
    pub path: String,
    pub is_opfs: bool,
    pub backend: Option<Arc<OpfsBackend>>,
    /// Path inside the OPFS tree (empty for picker handles).
    pub virtual_path: String,
}

/// The on-disk path of an OPFS handle: the resolved virtual path, or the root
/// when the virtual path does not resolve.
pub open spec fn opfs_disk_path(root: Seq<char>, virt: Seq<char>) -> Seq<char> {
    match resolve_spec(root, virt) {
        Ok(p) => p,
        Err(_) => root,
    }
}

pub open spec fn file_kind() -> Seq<char> {
    seq!['f', 'i', 'l', 'e']
}

pub open spec fn directory_kind() -> Seq<char> {
    seq!['d', 'i', 'r', 'e', 'c', 't', 'o', 'r', 'y']
}

impl FileSystemHandle {
    /// Constructor used by the picker functions (non-OPFS).
    pub fn new(name: String, kind: String, path: String) -> (h: Self)
        ensures
            h.name@ == name@,
            h.kind@ == kind@,
            h.path@ == path@,
            !h.is_opfs,
            h.backend is None,
            h.virtual_path@ == Seq::<char>::empty(),
    {
        FileSystemHandle {
            name,
            kind,
            path,
            is_opfs: false,
            backend: None,
            virtual_path: String::new(),
        }
    }

    /// OPFS constructor: the handle is rooted in an origin's OPFS tree.
    pub fn new_opfs(name: String, kind: String, backend: Arc<OpfsBackend>, virtual_path: String) -> (h: Self)
        ensures
            h.name@ == name@,
            h.kind@ == kind@,
            h.is_opfs,
            h.backend == Some(backend),
            h.virtual_path@ == virtual_path@,
            h.path@ == opfs_disk_path(backend.root(), virtual_path@),
    {
        let path = match backend.resolve(virtual_path.as_str()) {
            Ok(p) => p,
            Err(_) => backend.root_path().to_owned(),
        };
        FileSystemHandle { name, kind, path, is_opfs: true, backend: Some(backend), virtual_path }
    }

    /// `isSameEntry`: two handles name the same entry when their paths have the
    /// same components.
    pub fn is_same_entry(&self, other: &FileSystemHandle) -> (r: bool)
        ensures
            r == (components(self.path@) == components(other.path@)),
    {
        same_entry(self.path.as_str(), other.path.as_str())
    }

    /// `queryPermission`: OPFS handles are always granted; other handles ask the
    /// permission store for the current origin.
    pub fn query_permission(&self, perms: &FileSystemPermissions, origin: &str, mode: PermissionMode) -> (st: PermissionState)
        requires
            perms.wf(),
        ensures
            st == (if self.is_opfs {
                PermissionState::Granted
            } else {
                perms.state_of(origin@, self.path@, mode)
            }),
    {
        if self.is_opfs {
            PermissionState::Granted
        } else {
            perms.query(origin, self.path.as_str(), mode)
        }
    }

    /// `requestPermission`: answers as `queryPermission` does (no prompt UI).
    pub fn request_permission(&self, perms: &FileSystemPermissions, origin: &str, mode: PermissionMode) -> (st: PermissionState)
        requires
            perms.wf(),
        ensures
            st == (if self.is_opfs {
                PermissionState::Granted
            } else {
                perms.state_of(origin@, self.path@, mode)
            }),
    {
        if self.is_opfs {
            PermissionState::Granted
        } else {
            perms.request(origin, self.path.as_str(), mode)
        }
    }
}

/// Whether two path components are equal.
fn comp_eq(a: &PathComponent, b: &PathComponent) -> (r: bool)
    ensures
        r == (a.comp() == b.comp()),
{
    match (a, b) {
        (PathComponent::RootDir, PathComponent::RootDir) => true,
        (PathComponent::CurDir, PathComponent::CurDir) => true,
        (PathComponent::ParentDir, PathComponent::ParentDir) => true,
        (PathComponent::Normal(x), PathComponent::Normal(y)) => str_eq(x.as_str(), y.as_str()),
        _ => false,
    }
}

/// Path equality as `Path` defines it: equal component lists.
pub fn same_entry(a: &str, b: &str) -> (r: bool)
    ensures
        r == (components(a@) == components(b@)),
{
    let ca = path_components(a);
    let cb = path_components(b);
    proof {
        assert(comps_of(ca@).len() == ca@.len());
        assert(comps_of(cb@).len() == cb@.len());
    }
    if ca.len() != cb.len() {
        return false;
    }
    let mut i: usize = 0;
    while i < ca.len()
        invariant
            ca.len() == cb.len(),
            0 <= i <= ca.len(),
            comps_of(ca@) == components(a@),
            comps_of(cb@) == components(b@),
            forall|j: int| 0 <= j < i ==> ca@[j].comp() == cb@[j].comp(),
        decreases ca.len() - i,
    {
        if !comp_eq(&ca[i], &cb[i]) {
            proof {
                assert(comps_of(ca@)[i as int] == ca@[i as int].comp());
                assert(comps_of(cb@)[i as int] == cb@[i as int].comp());
            }
            return false;
        }
        i = i + 1;
    }
    proof {
        assert(comps_of(ca@) =~= comps_of(cb@));
    }
    true
}

/// A name accepted for a directory entry: not empty, not `.` or `..`, and
/// free of `/`, `\` and NUL.
pub open spec fn valid_entry_name(s: Seq<char>) -> bool {
    &&& s.len() > 0
    &&& s != seq!['.']
    &&& s != seq!['.', '.']
    &&& !s.contains('/')
    &&& !s.contains('\\')
    &&& !s.contains('\0')
}

/// Whether `name` may name an entry of a directory handle.
pub fn is_valid_name(name: &str) -> (r: bool)
    ensures
        r == valid_entry_name(name@),
{
    let dot = ".";
    let dotdot = "..";
    proof {
        reveal_strlit(".");
        reveal_strlit("..");
        assert(dot@ =~= seq!['.']);
        assert(dotdot@ =~= seq!['.', '.']);
    }
    let n = name.unicode_len();
    n > 0 && !str_eq(name, dot) && !str_eq(name, dotdot) && !contains_char(name, '/')
        && !contains_char(name, '\\') && !contains_char(name, '\0')
}

/// What a directory lookup (`getFileHandle` / `getDirectoryHandle`) does once
/// the name is valid and the child's state on disk is known.
#[derive(Debug, Clone, Copy, PartialEq, Eq, Structural)]
pub enum ChildLookup {
    /// The entry exists with the wanted kind: hand out a handle to it.
    Existing,
    /// The entry is missing and `create` was asked: make it, then hand it out.
    Create,
}

/// The outcome of a lookup for a child of kind `want_dir`, given whether the
/// child exists, whether it is a directory, and the `create` option.
pub open spec fn lookup_spec(want_dir: bool, exists: bool, is_dir: bool, create: bool) -> Result<ChildLookup, DomErrorName> {
    if exists {
        if is_dir == want_dir {
            Ok(ChildLookup::Existing)
        } else {
            Err(DomErrorName::TypeMismatch)
        }
    } else if create {
        Ok(ChildLookup::Create)
    } else {
        Err(DomErrorName::NotFound)
    }
}

/// Decide a `getFileHandle` (`want_dir` false) or `getDirectoryHandle`
/// (`want_dir` true) lookup: an entry of the other kind is a
/// `TypeMismatchError`, a missing entry without `create` a `NotFoundError`.
pub fn decide_lookup(want_dir: bool, exists: bool, is_dir: bool, create: bool) -> (r: Result<ChildLookup, DomErrorName>)
    ensures
        r == lookup_spec(want_dir, exists, is_dir, create),
{
    if exists {
        if is_dir == want_dir {
            Ok(ChildLookup::Existing)
        } else {
            Err(DomErrorName::TypeMismatch)
        }
    } else if create {
        Ok(ChildLookup::Create)
    } else {
        Err(DomErrorName::NotFound)
    }
}

/// How `removeEntry` removes an entry that exists.
#[derive(Debug, Clone, Copy, PartialEq, Eq, Structural)]
pub enum RemoveAction {
    RemoveFile,
    RemoveEmptyDir,
    RemoveDirRecursive,
}

pub open spec fn remove_spec(exists: bool, is_dir: bool, recursive: bool, dir_empty: bool) -> Result<RemoveAction, DomErrorName> {
    if !exists {
        Err(DomErrorName::NotFound)
    } else if !is_dir {
        Ok(RemoveAction::RemoveFile)
    } else if recursive {
        Ok(RemoveAction::RemoveDirRecursive)
    } else if dir_empty {
        Ok(RemoveAction::RemoveEmptyDir)
    } else {
        Err(DomErrorName::InvalidModification)
    }
}

/// Decide `removeEntry`: a missing entry is a `NotFoundError`; a non-empty
/// directory without `recursive` an `InvalidModificationError`.
pub fn decide_remove(exists: bool, is_dir: bool, recursive: bool, dir_empty: bool) -> (r: Result<RemoveAction, DomErrorName>)
    ensures
        r == remove_spec(exists, is_dir, recursive, dir_empty),
{
    if !exists {
        Err(DomErrorName::NotFound)
    } else if !is_dir {
        Ok(RemoveAction::RemoveFile)
    } else if recursive {
        Ok(RemoveAction::RemoveDirRecursive)
    } else if dir_empty {
        Ok(RemoveAction::RemoveEmptyDir)
    } else {
        Err(DomErrorName::InvalidModification)
    }
}

/// The names of the normal components of a component list, in order.
pub open spec fn normal_names(cs: Seq<Comp>) -> Seq<Seq<char>>
    decreases cs.len(),
{
    if cs.len() == 0 {
        Seq::empty()
    } else {
        let rest = normal_names(cs.drop_first());
        match cs[0] {
            Comp::Normal(n) => seq![n] + rest,
            _ => rest,
        }
    }
}

/// `resolve(parent, child)`: when the components of `parent` are a prefix of
/// those of `child`, the names of the normal components that follow;
/// otherwise nothing.
pub open spec fn relative_names(parent: Seq<char>, child: Seq<char>) -> Option<Seq<Seq<char>>> {
    let pc = components(parent);
    let cc = components(child);
    if pc.len() <= cc.len() && cc.subrange(0, pc.len() as int) == pc {
        Some(normal_names(cc.subrange(pc.len() as int, cc.len() as int)))
    } else {
        None
    }
}

proof fn lemma_normal_names_push(cs: Seq<Comp>, c: Comp)
    ensures
        normal_names(cs.push(c)) == (match c {
            Comp::Normal(n) => normal_names(cs).push(n),
            _ => normal_names(cs),
        }),
    decreases cs.len(),
{
    let e = Seq::<Seq<char>>::empty();
    if cs.len() == 0 {
        assert(cs.push(c).drop_first() =~= Seq::<Comp>::empty());
        assert(normal_names(Seq::<Comp>::empty()) == e);
        match c {
            Comp::Normal(n) => {
                assert(seq![n] + e =~= e.push(n));
            },
            _ => {},
        }
    } else {
        assert(cs.push(c).drop_first() =~= cs.drop_first().push(c));
        assert(cs.push(c)[0] == cs[0]);
        lemma_normal_names_push(cs.drop_first(), c);
        let r = normal_names(cs.drop_first());
        match (cs[0], c) {
            (Comp::Normal(n), Comp::Normal(m)) => {
                assert(seq![n] + r.push(m) =~= (seq![n] + r).push(m));
            },
            _ => {},
        }
    }
}

/// The path of `child` relative to `parent`, as the list of entry names that
/// lead from one to the other (`FileSystemDirectoryHandle.resolve`).
pub fn relative_path_names(parent: &str, child: &str) -> (r: Option<Vec<String>>)
    ensures
        match (r, relative_names(parent@, child@)) {
            (Some(v), Some(w)) => v@.map_values(|x: String| x@) == w,
            (None, None) => true,
            _ => false,
        },
{
    let pc = path_components(parent);
    let cc = path_components(child);
    let ghost pcs = components(parent@);
    let ghost ccs = components(child@);
    proof {
        assert(comps_of(pc@).len() == pc@.len());
        assert(comps_of(cc@).len() == cc@.len());
    }
    if pc.len() > cc.len() {
        return None;
    }
    let mut i: usize = 0;
    while i < pc.len()
        invariant
            pc.len() <= cc.len(),
            0 <= i <= pc.len(),
            comps_of(pc@) == pcs,
            comps_of(cc@) == ccs,
            pcs == components(parent@),
            ccs == components(child@),
            pcs.len() == pc.len(),
            ccs.len() == cc.len(),
            forall|j: int| 0 <= j < i ==> pcs[j] == ccs[j],
        decreases pc.len() - i,
    {
        proof {
            assert(comps_of(pc@)[i as int] == pc@[i as int].comp());
            assert(comps_of(cc@)[i as int] == cc@[i as int].comp());
        }
        if !comp_eq(&pc[i], &cc[i]) {
            proof {
                assert(ccs.subrange(0, pcs.len() as int)[i as int] == ccs[i as int]);
                assert(ccs[i as int] != pcs[i as int]);
                assert(ccs.subrange(0, pcs.len() as int) != pcs);
            }
            return None;
        }
        i = i + 1;
    }
    proof {
        assert(ccs.subrange(0, pcs.len() as int) =~= pcs);
    }
    let mut out: Vec<String> = Vec::new();
    let mut k: usize = pc.len();
    while k < cc.len()
        invariant
            pc.len() <= k <= cc.len(),
            comps_of(cc@) == ccs,
            ccs.len() == cc.len(),
            pcs.len() == pc.len(),
            pcs == components(parent@),
            ccs == components(child@),
            ccs.subrange(0, pcs.len() as int) == pcs,
            out@.map_values(|x: String| x@) == normal_names(ccs.subrange(pcs.len() as int, k as int)),
        decreases cc.len() - k,
    {
        proof {
            assert(comps_of(cc@)[k as int] == cc@[k as int].comp());
            assert(ccs.subrange(pcs.len() as int, k + 1) =~= ccs.subrange(pcs.len() as int, k as int).push(ccs[k as int]));
            lemma_normal_names_push(ccs.subrange(pcs.len() as int, k as int), ccs[k as int]);
        }
        match &cc[k] {
            PathComponent::Normal(s) => {
                let ghost before = out@;
                out.push(s.clone());
                proof {
                    assert(out@.map_values(|x: String| x@) =~= before.map_values(|x: String| x@).push(s@));
                }
            },
            _ => {},
        }
        k = k + 1;
    }
    Some(out)
}

/// A file handle.
pub struct FileSystemFileHandle {
    pub handle: FileSystemHandle,
}

impl FileSystemFileHandle {
    /// Non-OPFS constructor (used by the pickers).
    pub fn new(name: String, path: String) -> (h: Self)
        ensures
            h.handle.name@ == name@,
            h.handle.kind@ == file_kind(),
            h.handle.path@ == path@,
            !h.handle.is_opfs,
            h.handle.backend is None,
            h.handle.virtual_path@ == Seq::<char>::empty(),
    {
        proof {
            reveal_strlit("file");
        }
        FileSystemFileHandle { handle: FileSystemHandle::new(name, "file".to_owned(), path) }
    }

    /// OPFS-rooted constructor.
    pub fn new_opfs(name: String, virtual_path: String, backend: Arc<OpfsBackend>, is_opfs: bool) -> (h: Self)
        ensures
            h.handle.name@ == name@,
            h.handle.kind@ == file_kind(),
            h.handle.is_opfs == is_opfs,
            h.handle.backend == Some(backend),
            h.handle.virtual_path@ == virtual_path@,
            h.handle.path@ == opfs_disk_path(backend.root(), virtual_path@),
    {
        proof {
            reveal_strlit("file");
        }
        let mut handle = FileSystemHandle::new_opfs(name, "file".to_owned(), backend, virtual_path);
        handle.is_opfs = is_opfs;
        FileSystemFileHandle { handle }
    }

    /// `getFile()` once the contents were read: a `File` named as the handle,
    /// of type `application/octet-stream`, with the given bytes and
    /// modification time (0 for picker files, whose time is not read).
    pub fn file_from_contents(&self, bytes: Vec<u8>, last_modified: u64) -> (f: crate::file::file::FileData)
        ensures
            f.name_spec() == self.handle.name@,
            f.blob_spec().bytes() == bytes@,
            f.blob_spec().mime() == "application/octet-stream"@,
            f.modified_spec() == last_modified,
    {
        let blob = BlobData::new(bytes, "application/octet-stream".to_owned());
        crate::file::file::FileData::new(blob, self.handle.name.clone(), Some(last_modified))
    }

    /// `createWritable` is only offered on handles with an OPFS backend.
    pub fn check_create_writable(&self) -> (r: Result<(), DomErrorName>)
        ensures
            r == (if self.handle.backend is Some {
                Ok(())
            } else {
                Err(DomErrorName::InvalidState)
            }),
    {
        match &self.handle.backend {
            Some(_) => Ok(()),
            None => Err(DomErrorName::InvalidState),
        }
    }

    /// `createSyncAccessHandle` is only offered on OPFS handles, and only to
    /// code running in a worker.
    pub fn check_create_sync_access(&self, in_worker: bool) -> (r: Result<(), DomErrorName>)
        ensures
            r == (if !self.handle.is_opfs || self.handle.backend is None || !in_worker {
                Err(DomErrorName::InvalidState)
            } else {
                Ok(())
            }),
    {
        if !self.handle.is_opfs || self.handle.backend.is_none() || !in_worker {
            Err(DomErrorName::InvalidState)
        } else {
            Ok(())
        }
    }
}

/// A directory handle.
pub struct FileSystemDirectoryHandle {
    pub handle: FileSystemHandle,
}

/// Why a directory operation was refused.
#[derive(Debug, Clone, Copy, PartialEq, Eq, Structural)]
pub enum HandleError {
    /// The entry name is not valid (a `TypeError` in JavaScript).
    InvalidName,
    /// A DOMException of the given name.
    Dom(DomErrorName),
}

/// How a lookup reached its handle.
#[derive(Debug, Clone, Copy, PartialEq, Eq, Structural)]
pub enum LookupStep {
    /// A picker directory: the handle is made without looking at disk.
    Unchecked,
    /// The lookup found or will create the entry on disk.
    Checked(ChildLookup),
}

/// What a lookup in a directory with an OPFS backend may answer, whatever the
/// disk showed: an entry of the other kind or a missing one is refused, and
/// only a `create` lookup creates.
pub open spec fn opfs_lookup_outcome<H>(r: Result<(LookupStep, H), HandleError>, create: bool) -> bool {
    match r {
        Ok((LookupStep::Checked(ChildLookup::Existing), _)) => true,
        Ok((LookupStep::Checked(ChildLookup::Create), _)) => create,
        Err(HandleError::Dom(DomErrorName::TypeMismatch)) => true,
        Err(HandleError::Dom(DomErrorName::NotFound)) => !create,
        _ => false,
    }
}

impl FileSystemDirectoryHandle {
    /// Non-OPFS constructor (used by the pickers).
    pub fn new(name: String, path: String) -> (h: Self)
        ensures
            h.handle.name@ == name@,
            h.handle.kind@ == directory_kind(),
            h.handle.path@ == path@,
            !h.handle.is_opfs,
            h.handle.backend is None,
            h.handle.virtual_path@ == Seq::<char>::empty(),
    {
        proof {
            reveal_strlit("directory");
        }
        FileSystemDirectoryHandle { handle: FileSystemHandle::new(name, "directory".to_owned(), path) }
    }

    /// OPFS-rooted constructor.
    pub fn new_opfs(name: String, virtual_path: String, backend: Arc<OpfsBackend>, is_opfs: bool) -> (h: Self)
        ensures
            h.handle.name@ == name@,
            h.handle.kind@ == directory_kind(),
            h.handle.is_opfs == is_opfs,
            h.handle.backend == Some(backend),
            h.handle.virtual_path@ == virtual_path@,
            h.handle.path@ == opfs_disk_path(backend.root(), virtual_path@),
    {
        proof {
            reveal_strlit("directory");
        }
        let mut handle = FileSystemHandle::new_opfs(name, "directory".to_owned(), backend, virtual_path);
        handle.is_opfs = is_opfs;
        FileSystemDirectoryHandle { handle }
    }

    /// The root directory of an origin's OPFS tree.
    pub fn new_opfs_root(backend: Arc<OpfsBackend>) -> (h: Self)
        ensures
            h.handle.name@ == Seq::<char>::empty(),
            h.handle.kind@ == directory_kind(),
            h.handle.is_opfs,
            h.handle.backend == Some(backend),
            h.handle.virtual_path@ == seq!['/'],
            h.handle.path@ == opfs_disk_path(backend.root(), seq!['/']),
    {
        proof {
            reveal_strlit("/");
        }
        Self::new_opfs(String::new(), "/".to_owned(), backend, true)
    }

    /// Backend reference, if any (none for picker handles).
    pub fn backend(&self) -> (r: Option<&Arc<OpfsBackend>>)
        ensures
            r == match self.handle.backend {
                Some(b) => Some(&b),
                None => None::<&Arc<OpfsBackend>>,
            },
    {
        self.handle.backend.as_ref()
    }

    /// The virtual path, for iterator construction.
    pub fn virtual_path_ref(&self) -> (r: &str)
        ensures
            r@ == self.handle.virtual_path@,
    {
        self.handle.virtual_path.as_str()
    }

    /// `getFileHandle(name, {create})`. A picker directory hands out the child
    /// path without looking at disk; an OPFS directory looks the child up and
    /// decides by `decide_lookup` (the caller creates the file on
    /// `Checked(Create)`).
    pub fn get_file_handle(&self, name: &str, create: bool) -> (r: Result<(LookupStep, FileSystemFileHandle), HandleError>)
        ensures
            !valid_entry_name(name@) ==> r == Err::<(LookupStep, FileSystemFileHandle), HandleError>(HandleError::InvalidName),
            valid_entry_name(name@) && self.handle.backend is None ==> (r matches Ok((LookupStep::Unchecked, h)) && {
                &&& h.handle.name@ == name@
                &&& h.handle.kind@ == file_kind()
                &&& h.handle.path@ == join_path_spec(self.handle.path@, name@)
                &&& !h.handle.is_opfs
                &&& h.handle.backend is None
            }),
            valid_entry_name(name@) && self.handle.backend is Some ==> {
                &&& opfs_lookup_outcome(r, create)
                &&& r matches Ok((_, h)) ==> {
                    let vp = join_path_spec(self.handle.virtual_path@, name@);
                    &&& h.handle.name@ == name@
                    &&& h.handle.kind@ == file_kind()
                    &&& h.handle.virtual_path@ == vp
                    &&& h.handle.is_opfs == self.handle.is_opfs
                    &&& h.handle.backend == self.handle.backend
                    &&& h.handle.path@ == opfs_disk_path(self.handle.backend.unwrap().root(), vp)
                }
                &&& resolve_spec(self.handle.backend.unwrap().root(), join_path_spec(self.handle.virtual_path@, name@)) is Err
                    ==> (if create {
                    r matches Ok((LookupStep::Checked(ChildLookup::Create), _))
                } else {
                    r == Err::<(LookupStep, FileSystemFileHandle), HandleError>(HandleError::Dom(DomErrorName::NotFound))
                })
            },
    {
        if !is_valid_name(name) {
            return Err(HandleError::InvalidName);
        }
        match &self.handle.backend {
            None => {
                let path = join_path(self.handle.path.as_str(), name);
                Ok((LookupStep::Unchecked, FileSystemFileHandle::new(name.to_owned(), path)))
            },
            Some(backend) => {
                let child = join_path(self.handle.virtual_path.as_str(), name);
                let exists = backend.entry_exists(child.as_str());
                let is_dir = backend.is_dir(child.as_str());
                match decide_lookup(false, exists, is_dir, create) {
                    Ok(step) => {
                        let h = FileSystemFileHandle::new_opfs(name.to_owned(), child, backend.clone(), self.handle.is_opfs);
                        Ok((LookupStep::Checked(step), h))
                    },
                    Err(e) => Err(HandleError::Dom(e)),
                }
            },
        }
    }

    /// `getDirectoryHandle(name, {create})`: as `get_file_handle`, for a child
    /// directory (the caller makes the directory on `Checked(Create)`, and for
    /// a picker directory ensures the child directory exists).
    pub fn get_directory_handle(&self, name: &str, create: bool) -> (r: Result<(LookupStep, FileSystemDirectoryHandle), HandleError>)
        ensures
            !valid_entry_name(name@) ==> r == Err::<(LookupStep, FileSystemDirectoryHandle), HandleError>(HandleError::InvalidName),
            valid_entry_name(name@) && self.handle.backend is None ==> (r matches Ok((LookupStep::Unchecked, h)) && {
                &&& h.handle.name@ == name@
                &&& h.handle.kind@ == directory_kind()
                &&& h.handle.path@ == join_path_spec(self.handle.path@, name@)
                &&& !h.handle.is_opfs
                &&& h.handle.backend is None
            }),
            valid_entry_name(name@) && self.handle.backend is Some ==> {
                &&& opfs_lookup_outcome(r, create)
                &&& r matches Ok((_, h)) ==> {
                    let vp = join_path_spec(self.handle.virtual_path@, name@);
                    &&& h.handle.name@ == name@
                    &&& h.handle.kind@ == directory_kind()
                    &&& h.handle.virtual_path@ == vp
                    &&& h.handle.is_opfs == self.handle.is_opfs
                    &&& h.handle.backend == self.handle.backend
                    &&& h.handle.path@ == opfs_disk_path(self.handle.backend.unwrap().root(), vp)
                }
                &&& resolve_spec(self.handle.backend.unwrap().root(), join_path_spec(self.handle.virtual_path@, name@)) is Err
                    ==> (if create {
                    r matches Ok((LookupStep::Checked(ChildLookup::Create), _))
                } else {
                    r == Err::<(LookupStep, FileSystemDirectoryHandle), HandleError>(HandleError::Dom(DomErrorName::NotFound))
                })
            },
    {
        if !is_valid_name(name) {
            return Err(HandleError::InvalidName);
        }
        match &self.handle.backend {
            None => {
                let path = join_path(self.handle.path.as_str(), name);
                Ok((LookupStep::Unchecked, FileSystemDirectoryHandle::new(name.to_owned(), path)))
            },
            Some(backend) => {
                let child = join_path(self.handle.virtual_path.as_str(), name);
                let exists = backend.entry_exists(child.as_str());
                let is_dir = backend.is_dir(child.as_str());
                match decide_lookup(true, exists, is_dir, create) {
                    Ok(step) => {
                        let h = FileSystemDirectoryHandle::new_opfs(name.to_owned(), child, backend.clone(), self.handle.is_opfs);
                        Ok((LookupStep::Checked(step), h))
                    },
                    Err(e) => Err(HandleError::Dom(e)),
                }
            },
        }
    }

    /// `removeEntry(name, {recursive})`: validates the name; a picker
    /// directory removes nothing (`Ok(None)`); an OPFS directory answers the
    /// child's virtual path and how to remove it, by `decide_remove`, given
    /// whether the child, if a directory, is empty.
    pub fn remove_entry(&self, name: &str, recursive: bool, dir_empty: bool) -> (r: Result<Option<(String, RemoveAction)>, HandleError>)
        ensures
            !valid_entry_name(name@) ==> r == Err::<Option<(String, RemoveAction)>, HandleError>(HandleError::InvalidName),
            valid_entry_name(name@) && self.handle.backend is None ==> r == Ok::<Option<(String, RemoveAction)>, HandleError>(None),
            valid_entry_name(name@) && self.handle.backend is Some ==> {
                let vp = join_path_spec(self.handle.virtual_path@, name@);
                &&& match r {
                    Ok(Some((p, a))) => p@ == vp && (a == RemoveAction::RemoveFile || a == RemoveAction::RemoveDirRecursive
                        && recursive || a == RemoveAction::RemoveEmptyDir && !recursive && dir_empty),
                    Err(HandleError::Dom(DomErrorName::NotFound)) => true,
                    Err(HandleError::Dom(DomErrorName::InvalidModification)) => !recursive && !dir_empty,
                    _ => false,
                }
                &&& resolve_spec(self.handle.backend.unwrap().root(), vp) is Err
                    ==> r == Err::<Option<(String, RemoveAction)>, HandleError>(HandleError::Dom(DomErrorName::NotFound))
            },
    {
        if !is_valid_name(name) {
            return Err(HandleError::InvalidName);
        }
        match &self.handle.backend {
            None => Ok(None),
            Some(backend) => {
                let child = join_path(self.handle.virtual_path.as_str(), name);
                let exists = backend.entry_exists(child.as_str());
                let is_dir = backend.is_dir(child.as_str());
                match decide_remove(exists, is_dir, recursive, dir_empty) {
                    Ok(a) => Ok(Some((child, a))),
                    Err(e) => Err(HandleError::Dom(e)),
                }
            },
        }
    }

    /// `resolve(other)`: the entry names leading from this directory to the
    /// other handle's virtual path, or nothing when it is not below it.
    pub fn resolve(&self, other: &FileSystemHandle) -> (r: Option<Vec<String>>)
        ensures
            match (r, relative_names(self.handle.virtual_path@, other.virtual_path@)) {
                (Some(v), Some(w)) => v@.map_values(|x: String| x@) == w,
                (None, None) => true,
                _ => false,
            },
    {
        relative_path_names(self.handle.virtual_path.as_str(), other.virtual_path.as_str())
    }
}

/// Path of the file `showOpenFilePicker` hands out.
pub open spec fn open_picker_path() -> Seq<char> {
    "/documents/example_document.txt"@
}

/// Path of the file `showSaveFilePicker` hands out.
pub open spec fn save_picker_path() -> Seq<char> {
    "/documents/new_save_file.txt"@
}

/// Path of the directory `showDirectoryPicker` hands out.
pub open spec fn directory_picker_path() -> Seq<char> {
    "/documents"@
}

/// Sample content written to the file `showOpenFilePicker` hands out.
pub fn open_picker_sample() -> (s: &'static str)
    ensures
        s@ == "This is a sample document file created by showOpenFilePicker.\nYou can read and modify this content through the File System API."@,
{
    "This is a sample document file created by showOpenFilePicker.\nYou can read and modify this content through the File System API."
}

/// `showOpenFilePicker()`: the handles of the picked files (one sample
/// document; the caller writes `open_picker_sample()` to its path).
pub fn show_open_file_picker() -> (r: Vec<FileSystemFileHandle>)
    ensures
        r@.len() == 1,
        r@[0].handle.name@ == "example_document.txt"@,
        r@[0].handle.path@ == open_picker_path(),
        r@[0].handle.kind@ == file_kind(),
        !r@[0].handle.is_opfs,
        r@[0].handle.backend is None,
{
    let h = FileSystemFileHandle::new("example_document.txt".to_owned(), "/documents/example_document.txt".to_owned());
    let mut v: Vec<FileSystemFileHandle> = Vec::new();
    v.push(h);
    v
}

/// `showSaveFilePicker()`: the handle of the file to save to (the caller
/// creates it empty).
pub fn show_save_file_picker() -> (h: FileSystemFileHandle)
    ensures
        h.handle.name@ == "new_save_file.txt"@,
        h.handle.path@ == save_picker_path(),
        h.handle.kind@ == file_kind(),
        !h.handle.is_opfs,
        h.handle.backend is None,
{
    FileSystemFileHandle::new("new_save_file.txt".to_owned(), "/documents/new_save_file.txt".to_owned())
}

/// `showDirectoryPicker()`: the handle of the picked directory (the caller
/// puts `readme.txt` and `notes.txt` in it).
pub fn show_directory_picker() -> (h: FileSystemDirectoryHandle)
    ensures
        h.handle.name@ == "documents"@,
        h.handle.path@ == directory_picker_path(),
        h.handle.kind@ == directory_kind(),
        !h.handle.is_opfs,
        h.handle.backend is None,
{
    FileSystemDirectoryHandle::new("documents".to_owned(), "/documents".to_owned())
}

} // verus!
