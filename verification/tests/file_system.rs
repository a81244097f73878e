use std::sync::Arc;
use thalora_browser_apis::file::file_system::errors::{map_io_error, DomErrorName, IoErrorKind};
use thalora_browser_apis::file::file_system::handles::{
    decide_lookup, decide_remove, is_valid_name, same_entry, show_directory_picker, show_open_file_picker,
    show_save_file_picker, ChildLookup, FileSystemDirectoryHandle, FileSystemFileHandle, HandleError, LookupStep,
    RemoveAction,
};
use thalora_browser_apis::file::file_system::iterators::{ChildHandle, DirIteratorState, IterItem, IteratorKind};
use thalora_browser_apis::file::file_system::opfs_backend::{
    dir_listing, name_precedes, origin_slug, DirEntrySnapshot, OpfsBackend, RawDirEntry,
};
use thalora_browser_apis::file::file_system::sync_access::{FileSystemSyncAccessHandle, LockTable, OpfsExclusiveLock, SyncOpenError};
use thalora_browser_apis::file::file_system::writable_stream::{
    parse_command, Chunk, CommandError, FileSystemWritableFileStream, InitAction, StreamAction,
};
use thalora_browser_apis::file::file_system::{FileSystemPermissions, PermissionMode, PermissionState};

fn backend() -> Arc<OpfsBackend> {
    Arc::new(OpfsBackend::with_root("/tmp/thalora-verified-tests/opfs_test_root".to_string()))
}

#[test]
fn test_file_handle_methods_exist() {
    let handles = show_open_file_picker();
    assert_eq!(handles.len(), 1);
    let h = &handles[0];
    assert_eq!(h.handle.kind, "file");
    assert_eq!(h.handle.name, "example_document.txt");
    assert_eq!(h.handle.path, "/documents/example_document.txt");
    // createWritable is offered only with an OPFS backend.
    assert_eq!(h.check_create_writable(), Err(DomErrorName::InvalidState));
}

#[test]
fn test_directory_handle_methods_exist() {
    let d = show_directory_picker();
    assert_eq!(d.handle.kind, "directory");
    match d.get_file_handle("readme.txt", false) {
        Ok((LookupStep::Unchecked, f)) => assert_eq!(f.handle.path, "/documents/readme.txt"),
        _ => panic!("picker directories hand out child handles"),
    }
    match d.get_directory_handle("sub", true) {
        Ok((LookupStep::Unchecked, s)) => assert_eq!(s.handle.path, "/documents/sub"),
        _ => panic!("picker directories hand out child handles"),
    }
    assert_eq!(d.remove_entry("notes.txt", false, true).ok(), Some(None));
    let other = FileSystemDirectoryHandle::new("x".to_string(), "/elsewhere".to_string());
    assert_eq!(d.resolve(&other.handle), Some(Vec::new()));
}

#[test]
fn test_file_system_handle_common_methods() {
    let h = show_save_file_picker();
    assert_eq!(h.handle.name, "new_save_file.txt");
    assert!(h.handle.is_same_entry(&h.handle));
    let perms = FileSystemPermissions::new();
    assert_eq!(h.handle.query_permission(&perms, "https://a.example", PermissionMode::Read), PermissionState::Denied);
    assert_eq!(h.handle.request_permission(&perms, "https://a.example", PermissionMode::ReadWrite), PermissionState::Denied);
}

#[test]
fn slug_distinguishes_similar_origins() {
    assert_ne!(origin_slug("https://example.com"), origin_slug("https://example.com:8080"));
    assert_ne!(origin_slug("https://example.com/"), origin_slug("https://example.com"));
}

#[test]
fn resolve_rejects_traversal() {
    let backend = OpfsBackend::with_root("/tmp/opfs_test_root".to_string());
    assert!(backend.resolve("../etc/passwd").is_err());
    assert!(backend.resolve("/foo/../../etc").is_err());
    assert!(backend.resolve("/").is_ok());
    assert!(backend.resolve("/a/b/c").is_ok());
}

#[test]
fn resolve_joins_under_root() {
    let backend = OpfsBackend::with_root("/tmp/opfs_test_root".to_string());
    assert_eq!(backend.resolve("/a/b/c").unwrap(), "/tmp/opfs_test_root/a/b/c");
    assert_eq!(backend.resolve("/").unwrap(), "/tmp/opfs_test_root");
}

#[test]
fn opfs_query_permission_returns_granted() {
    let root = FileSystemDirectoryHandle::new_opfs_root(backend());
    let perms = FileSystemPermissions::new();
    assert_eq!(root.handle.query_permission(&perms, "https://a.example", PermissionMode::ReadWrite), PermissionState::Granted);
}

#[test]
fn opfs_get_file_handle_create_false_throws_not_found() {
    assert_eq!(decide_lookup(false, false, false, false), Err(DomErrorName::NotFound));
    let root = FileSystemDirectoryHandle::new_opfs_root(backend());
    match root.get_file_handle("definitely-missing-file.txt", false) {
        Err(HandleError::Dom(DomErrorName::NotFound)) => {}
        _ => panic!("a missing file without create is NotFound"),
    }
}

#[test]
fn opfs_remove_entry_non_empty_requires_recursive() {
    assert_eq!(decide_remove(true, true, false, false), Err(DomErrorName::InvalidModification));
    assert_eq!(decide_remove(true, true, true, false), Ok(RemoveAction::RemoveDirRecursive));
    assert_eq!(decide_remove(true, true, false, true), Ok(RemoveAction::RemoveEmptyDir));
    assert_eq!(decide_remove(true, false, false, false), Ok(RemoveAction::RemoveFile));
    assert_eq!(decide_remove(false, false, true, true), Err(DomErrorName::NotFound));
}

#[test]
fn opfs_create_sync_access_handle_blocked_on_main_thread() {
    let f = FileSystemFileHandle::new_opfs("a.txt".to_string(), "/a.txt".to_string(), backend(), true);
    assert_eq!(f.check_create_sync_access(false), Err(DomErrorName::InvalidState));
    assert_eq!(f.check_create_sync_access(true), Ok(()));
    let picked = FileSystemFileHandle::new("a.txt".to_string(), "/a.txt".to_string());
    assert_eq!(picked.check_create_sync_access(true), Err(DomErrorName::InvalidState));
}

#[test]
fn lookup_decisions() {
    assert_eq!(decide_lookup(false, true, false, false), Ok(ChildLookup::Existing));
    assert_eq!(decide_lookup(false, true, true, true), Err(DomErrorName::TypeMismatch));
    assert_eq!(decide_lookup(true, true, false, true), Err(DomErrorName::TypeMismatch));
    assert_eq!(decide_lookup(true, false, false, true), Ok(ChildLookup::Create));
}

#[test]
fn entry_names() {
    assert!(is_valid_name("a.txt"));
    assert!(!is_valid_name(""));
    assert!(!is_valid_name("."));
    assert!(!is_valid_name(".."));
    assert!(!is_valid_name("a/b"));
    assert!(!is_valid_name("a\\b"));
    assert!(!is_valid_name("a\0b"));
    let root = FileSystemDirectoryHandle::new_opfs_root(backend());
    assert!(matches!(root.get_file_handle("..", true), Err(HandleError::InvalidName)));
}

#[test]
fn same_entry_compares_components() {
    assert!(same_entry("/a/b", "/a//b/"));
    assert!(same_entry("/a/./b", "/a/b"));
    assert!(!same_entry("/a/b", "/a/c"));
}

#[test]
fn resolve_lists_names_below() {
    let b = backend();
    let dir = FileSystemDirectoryHandle::new_opfs("d".to_string(), "/d".to_string(), b.clone(), true);
    let deep = FileSystemFileHandle::new_opfs("f".to_string(), "/d/e/f".to_string(), b, true);
    assert_eq!(dir.resolve(&deep.handle), Some(vec!["e".to_string(), "f".to_string()]));
    let outside = FileSystemDirectoryHandle::new("x".to_string(), "/x".to_string());
    assert_eq!(dir.resolve(&outside.handle), None);
}

#[test]
fn io_errors_map_to_dom_names() {
    assert_eq!(map_io_error(IoErrorKind::NotFound), "NotFoundError");
    assert_eq!(map_io_error(IoErrorKind::PermissionDenied), "NoModificationAllowedError");
    assert_eq!(map_io_error(IoErrorKind::AlreadyExists), "TypeMismatchError");
    assert_eq!(map_io_error(IoErrorKind::InvalidData), "SyntaxError");
    assert_eq!(map_io_error(IoErrorKind::Other), "InvalidStateError");
}

#[test]
fn exclusive_lock_is_exclusive() {
    let mut table = LockTable::new();
    let a = OpfsExclusiveLock::acquire(&mut table, "/r/a".to_string());
    assert!(a.is_some());
    assert!(OpfsExclusiveLock::acquire(&mut table, "/r/a".to_string()).is_none());
    assert!(table.is_held("/r/a"));
    a.unwrap().release(&mut table);
    assert!(!table.is_held("/r/a"));
    assert!(OpfsExclusiveLock::acquire(&mut table, "/r/a".to_string()).is_some());
}

#[test]
fn sync_access_open_refuses_second_handle() {
    let mut table = LockTable::new();
    let first = FileSystemSyncAccessHandle::open(backend(), "/f.bin".to_string(), &mut table);
    assert!(first.is_ok());
    let second = FileSystemSyncAccessHandle::open(backend(), "/f.bin".to_string(), &mut table);
    assert!(matches!(second, Err(SyncOpenError::AlreadyLocked)));
    let bad = FileSystemSyncAccessHandle::open(backend(), "/../x".to_string(), &mut table);
    assert!(matches!(bad, Err(SyncOpenError::PathInvalid)));
    let mut h = first.ok().unwrap();
    assert_eq!(h.check_open(), Ok(()));
    h.close();
    assert_eq!(h.check_open(), Err(DomErrorName::InvalidState));
}

#[test]
fn directory_iterator_walks_snapshot() {
    let dir = FileSystemDirectoryHandle::new_opfs_root(backend());
    let snap = vec![
        DirEntrySnapshot { name: "a".to_string(), is_dir: false },
        DirEntrySnapshot { name: "b".to_string(), is_dir: true },
    ];
    let mut it = DirIteratorState::new(&dir, IteratorKind::Entries, snap).unwrap();
    match it.next() {
        Some(IterItem::Entry(k, ChildHandle::File(f))) => {
            assert_eq!(k, "a");
            assert_eq!(f.handle.virtual_path, "/a");
        }
        _ => panic!("first entry is the file a"),
    }
    match it.next() {
        Some(IterItem::Entry(k, ChildHandle::Directory(d))) => {
            assert_eq!(k, "b");
            assert_eq!(d.handle.kind, "directory");
        }
        _ => panic!("second entry is the directory b"),
    }
    assert!(it.next().is_none());
    assert!(it.next().is_none());
    let picker = show_directory_picker();
    assert!(DirIteratorState::new(&picker, IteratorKind::Keys, Vec::new()).is_none());
}

#[test]
fn writable_stream_state_machine() {
    let (mut s, init) = FileSystemWritableFileStream::new(backend(), "/t.txt".to_string(), false);
    assert_eq!(init, InitAction::CreateEmptyScratch);
    assert!(s.scratch_virtual.starts_with("/t.txt.crswap."));
    assert_eq!(s.scratch_virtual.len(), "/t.txt.crswap.".len() + 32);
    let a = s.write(&Chunk::Data(vec![1, 2, 3])).unwrap();
    assert_eq!(a, StreamAction::WriteAt { offset: 0, len: 3 });
    s.complete(&a);
    assert_eq!(s.state.position, 3);
    let a = s.write(&Chunk::Write { position: Some(10), data: vec![9] }).unwrap();
    assert_eq!(a, StreamAction::WriteAt { offset: 10, len: 1 });
    s.complete(&a);
    assert_eq!(s.state.position, 11);
    let t = s.truncate(4).unwrap();
    s.complete(&t);
    assert_eq!(s.state.position, 4);
    let c = s.close().unwrap();
    assert_eq!(c, StreamAction::RenameScratchOverTarget);
    s.complete(&c);
    assert_eq!(s.write(&Chunk::Seek(0)), Err(DomErrorName::InvalidState));
    assert_eq!(s.close(), Ok(StreamAction::Nothing));
    assert_eq!(s.abort(), StreamAction::Nothing);
}

#[test]
fn writable_stream_abort_then_close() {
    let (mut s, _) = FileSystemWritableFileStream::new(backend(), "/t.txt".to_string(), true);
    assert_eq!(s.abort(), StreamAction::RemoveScratch);
    assert_eq!(s.close(), Err(DomErrorName::InvalidState));
    assert_eq!(s.seek(1), Err(DomErrorName::InvalidState));
}

#[test]
fn write_commands() {
    assert!(matches!(parse_command("seek", Some(4), None, None), Ok(Chunk::Seek(4))));
    assert!(matches!(parse_command("truncate", None, Some(2), None), Ok(Chunk::Truncate(2))));
    assert!(matches!(parse_command("write", None, None, Some(vec![1])), Ok(Chunk::Write { position: None, .. })));
    assert!(matches!(parse_command("write", None, None, None), Err(CommandError::MissingData)));
    assert!(matches!(parse_command("seek", None, None, None), Err(CommandError::MissingPosition)));
    assert!(matches!(parse_command("truncate", None, None, None), Err(CommandError::MissingSize)));
    assert!(matches!(parse_command("jump", None, None, None), Err(CommandError::UnknownType)));
}

#[test]
fn permissions_grant_and_revoke() {
    let mut p = FileSystemPermissions::new();
    p.grant_permission("https://a.example", "/docs/./x", PermissionMode::Read);
    assert_eq!(p.query("https://a.example", "/docs/x", PermissionMode::Read), PermissionState::Granted);
    assert_eq!(p.query("https://a.example", "/docs/x", PermissionMode::ReadWrite), PermissionState::Denied);
    assert_eq!(p.query("https://b.example", "/docs/x", PermissionMode::Read), PermissionState::Denied);
    assert_eq!(p.list_granted().len(), 1);
    p.revoke_permission("https://a.example", "/docs/x", PermissionMode::Read);
    assert_ne!(p.query("https://a.example", "/docs/x", PermissionMode::Read), PermissionState::Granted);
    assert_eq!(PermissionMode::from_str("READ-WRITE"), PermissionMode::ReadWrite);
    assert_eq!(PermissionMode::from_str("read"), PermissionMode::Read);
    assert_eq!(PermissionState::Denied.as_str(), "denied");
    assert_eq!(FileSystemPermissions::normalize_path("/a/./b/../c"), "/a/c");
}

#[test]
fn origin_slug_exact_values() {
    assert_eq!(origin_slug("https://example.com"), "https___example.com_100680ad");
    assert_eq!(origin_slug(""), "origin_e3b0c442");
    assert_eq!(
        thalora_browser_apis::file::file_system::opfs_backend::origin_root("/data", "https://example.com"),
        "/data/thalora/opfs/https___example.com_100680ad"
    );
}

#[test]
fn get_file_builds_octet_stream_file() {
    let h = show_save_file_picker();
    let f = h.file_from_contents(b"abc".to_vec(), 0);
    assert_eq!(f.name(), "new_save_file.txt");
    assert_eq!(f.blob().mime_type(), "application/octet-stream");
    assert_eq!(f.blob().size(), 3);
    assert_eq!(f.last_modified(), 0);
}

#[test]
fn normalization_is_idempotent() {
    for p in ["/a/./b/../c", "a/../../b", "/", "", "x//y/"] {
        let once = FileSystemPermissions::normalize_path(p);
        assert_eq!(FileSystemPermissions::normalize_path(&once), once);
    }
}

#[test]
fn listing_skips_unnamed_and_sorts_by_bytes() {
    let raw = vec![
        RawDirEntry { name: Some("b.txt".to_string()), is_dir: false },
        RawDirEntry { name: None, is_dir: false },
        RawDirEntry { name: Some("Z".to_string()), is_dir: true },
        RawDirEntry { name: Some("a".to_string()), is_dir: true },
        RawDirEntry { name: Some("é".to_string()), is_dir: false },
    ];
    let names: Vec<(String, bool)> = dir_listing(raw).into_iter().map(|e| (e.name, e.is_dir)).collect();
    assert_eq!(
        names,
        vec![
            ("Z".to_string(), true),
            ("a".to_string(), true),
            ("b.txt".to_string(), false),
            ("é".to_string(), false),
        ]
    );
    assert!(name_precedes("ab", "abc"));
    assert!(!name_precedes("abc", "ab"));
    assert!(!name_precedes("x", "x"));
}

#[test]
fn clearing_an_origin_denies_it_and_keeps_others() {
    let mut p = FileSystemPermissions::new();
    p.grant_permission("https://a.example", "/x", PermissionMode::Read);
    p.grant_permission("https://a.example", "/y/../z", PermissionMode::ReadWrite);
    p.grant_permission("https://b.example", "/x", PermissionMode::Read);
    p.grant_permission("https://b.example", "/x", PermissionMode::Read);
    assert_eq!(p.list_granted().len(), 3);
    p.clear_origin("https://a.example");
    assert_eq!(p.query("https://a.example", "/x", PermissionMode::Read), PermissionState::Denied);
    assert_eq!(p.query("https://a.example", "/z", PermissionMode::ReadWrite), PermissionState::Denied);
    assert_eq!(p.query("https://b.example", "/x", PermissionMode::Read), PermissionState::Granted);
    let listed = p.list_granted();
    assert_eq!(listed.len(), 1);
    assert!(listed.iter().all(|e| e.origin != "https://a.example" && e.state == PermissionState::Granted && e.mcp_granted));
}
