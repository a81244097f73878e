use thalora_browser_apis::file::blob::BlobData;
use thalora_browser_apis::file::file::{File, FileData, IntegerOrInfinity};
use thalora_browser_apis::file::file_reader::{
    compute_read_result, FileReadResult, FileReaderData, FileReaderError, FileReaderEvent, FileReaderRegistry, FiredEvent,
    ReadOperation, ReadStartError, ReadyState,
};

fn file_of(content: &str, name: &str, mime: &str) -> FileData {
    File::from_parts(&vec![content.as_bytes().to_vec()], name.to_string(), mime.to_string(), None)
}

#[test]
fn test_file_name_property() {
    let f = file_of("content", "test.txt", "");
    assert_eq!(f.name(), "test.txt");
}

#[test]
fn test_file_size_property() {
    let f = file_of("hello", "test.txt", "");
    assert_eq!(f.blob().size(), 5);
}

#[test]
fn test_file_type_property() {
    let f = file_of("content", "test.txt", "text/plain");
    assert_eq!(f.blob().mime_type(), "text/plain");
}

#[test]
fn test_file_lastmodified_property() {
    let f = File::from_parts(&vec![b"content".to_vec()], "test.txt".to_string(), String::new(), Some(1234));
    assert_eq!(f.last_modified(), 1234);
    assert_eq!(f.webkit_relative_path(), "");
}

#[test]
fn test_file_constructor_with_type() {
    let f = File::from_parts(&vec![b"con".to_vec(), b"tent".to_vec()], "t.txt".to_string(), "text/plain".to_string(), None);
    assert_eq!(f.blob().data(), &b"content".to_vec());
}

#[test]
fn file_slice_clamps_and_counts_from_end() {
    let f = File::from_parts(&vec![b"hello world".to_vec()], "h.txt".to_string(), "text/plain".to_string(), Some(7));
    let s = File::slice(&f, Some(IntegerOrInfinity::Integer(-5)), None, None);
    assert_eq!(s.blob().data(), &b"world".to_vec());
    assert_eq!(s.blob().mime_type(), "text/plain");
    assert_eq!(s.name(), "h.txt");
    assert_eq!(s.last_modified(), 7);
    let s = File::slice(&f, Some(IntegerOrInfinity::Integer(0)), Some(IntegerOrInfinity::Integer(100)), Some("x/y".to_string()));
    assert_eq!(s.blob().data(), &b"hello world".to_vec());
    assert_eq!(s.blob().mime_type(), "x/y");
    let s = File::slice(&f, Some(IntegerOrInfinity::Integer(6)), Some(IntegerOrInfinity::Integer(2)), None);
    assert!(s.blob().data().is_empty());
    let s = File::slice(&f, Some(IntegerOrInfinity::NegativeInfinity), Some(IntegerOrInfinity::PositiveInfinity), None);
    assert_eq!(s.blob().size(), 11);
}

#[test]
fn file_text_decodes_utf8() {
    let f = FileData::new(BlobData::new("héllo".as_bytes().to_vec(), String::new()), "a".to_string(), Some(0));
    assert_eq!(f.text(), "héllo");
    let bad = FileData::new(BlobData::new(vec![0x61, 0xff], String::new()), "a".to_string(), Some(0));
    assert_eq!(bad.text(), "a\u{fffd}");
}

#[test]
fn test_filereader_readystate_empty() {
    let mut reg = FileReaderRegistry::new();
    let r = FileReaderData::new(&mut reg);
    assert_eq!(r.ready_state.as_u16(), 0);
}

#[test]
fn test_filereader_result_property() {
    let mut reg = FileReaderRegistry::new();
    let r = FileReaderData::new(&mut reg);
    assert!(r.result.is_none());
}

#[test]
fn test_filereader_error_property() {
    let mut reg = FileReaderRegistry::new();
    let r = FileReaderData::new(&mut reg);
    assert!(r.error.is_none());
}

#[test]
fn test_filereader_constants() {
    assert_eq!(ReadyState::Empty.as_u16(), 0);
    assert_eq!(ReadyState::Loading.as_u16(), 1);
    assert_eq!(ReadyState::Done.as_u16(), 2);
}

#[test]
fn test_filereader_abort_sets_error() {
    let mut reg = FileReaderRegistry::new();
    let mut r = FileReaderData::new(&mut reg);
    assert_eq!(r.ready_state.as_u16(), 0);
    assert!(r.abort().is_empty());
    r.begin_read(4).unwrap();
    let ev: Vec<FileReaderEvent> = r.abort().iter().map(|f| f.event).collect();
    assert_eq!(ev, vec![FileReaderEvent::Abort, FileReaderEvent::LoadEnd]);
    assert_eq!(r.error, Some(FileReaderError::Abort));
    assert_eq!(r.ready_state, ReadyState::Done);
    assert_eq!(FileReaderError::Abort.info(), ("AbortError", "The read operation was aborted.", 3));
}

#[test]
fn test_filereader_readastext_with_event_handler() {
    let mut reg = FileReaderRegistry::new();
    let mut r = FileReaderData::new(&mut reg);
    r.begin_read(4).unwrap();
    let events = r.complete_read(&mut reg, &b"test content".to_vec(), &ReadOperation::Text(None));
    assert_eq!(
        events,
        vec![
            FiredEvent { event: FileReaderEvent::Load, loaded: 12, total: 12, length_computable: true },
            FiredEvent { event: FileReaderEvent::LoadEnd, loaded: 12, total: 12, length_computable: true },
        ]
    );
    assert_eq!(r.ready_state.as_u16(), 2);
    assert_eq!(r.result.as_deref(), Some("test content"));
}

#[test]
fn test_filereader_readasdataurl_result() {
    let mut reg = FileReaderRegistry::new();
    let mut r = FileReaderData::new(&mut reg);
    r.begin_read(4).unwrap();
    r.complete_read(&mut reg, &b"hello".to_vec(), &ReadOperation::DataURL);
    let res = r.result.clone().unwrap();
    assert!(res.starts_with("data:"));
    assert_eq!(res, "data:application/octet-stream;base64,aGVsbG8=");
}

#[test]
fn test_filereader_readasbinarystring_result() {
    let mut reg = FileReaderRegistry::new();
    let mut r = FileReaderData::new(&mut reg);
    r.begin_read(4).unwrap();
    r.complete_read(&mut reg, &b"hello".to_vec(), &ReadOperation::BinaryString);
    assert_eq!(r.result.as_deref(), Some("hello"));
}

#[test]
fn test_filereader_load_event() {
    let mut reg = FileReaderRegistry::new();
    let mut r = FileReaderData::new(&mut reg);
    r.begin_read(4).unwrap();
    let events = r.complete_read(&mut reg, &b"test".to_vec(), &ReadOperation::Text(None));
    assert!(events.iter().any(|e| e.event == FileReaderEvent::Load));
    assert!(events.iter().any(|e| e.event == FileReaderEvent::LoadEnd));
}

#[test]
fn reader_refuses_second_read_while_loading() {
    let mut reg = FileReaderRegistry::new();
    let mut r = FileReaderData::new(&mut reg);
    let start = r.begin_read(4).unwrap();
    assert_eq!(start, FiredEvent { event: FileReaderEvent::LoadStart, loaded: 0, total: 4, length_computable: true });
    assert_eq!(r.begin_read(4), Err(ReadStartError::AlreadyReading));
}

#[test]
fn abort_during_loadstart_keeps_abort() {
    let mut reg = FileReaderRegistry::new();
    let mut r = FileReaderData::new(&mut reg);
    r.begin_read(4).unwrap();
    r.abort();
    let events = r.complete_read(&mut reg, &b"data".to_vec(), &ReadOperation::Text(None));
    assert!(events.is_empty());
    assert!(r.result.is_none());
    assert_eq!(r.error, Some(FileReaderError::Abort));
}

#[test]
fn array_buffer_result_is_kept_per_reader() {
    let mut reg = FileReaderRegistry::new();
    let mut a = FileReaderData::new(&mut reg);
    let mut b = FileReaderData::new(&mut reg);
    assert_eq!(a.reader_id, 1);
    assert_eq!(b.reader_id, 2);
    a.begin_read(3).unwrap();
    a.complete_read(&mut reg, &vec![1, 2, 3], &ReadOperation::ArrayBuffer);
    b.begin_read(1).unwrap();
    b.complete_read(&mut reg, &b"x".to_vec(), &ReadOperation::Text(None));
    assert!(a.result.is_none());
    assert_eq!(reg.get_array_buffer_result(a.reader_id), Some(vec![1, 2, 3]));
    assert_eq!(reg.get_array_buffer_result(b.reader_id), None);
    assert_eq!(reg.get_array_buffer_result(99), None);
}

#[test]
fn read_results_by_operation() {
    let latin1 = compute_read_result(&vec![0xe9], &ReadOperation::Text(Some("latin1".to_string())));
    assert!(matches!(latin1, FileReadResult::Text(ref s) if s == "é"));
    let utf8 = compute_read_result(&vec![0xe9], &ReadOperation::Text(Some("utf-8".to_string())));
    assert!(matches!(utf8, FileReadResult::Text(ref s) if s == "\u{fffd}"));
    let url = compute_read_result(&b"ab".to_vec(), &ReadOperation::DataURL);
    assert!(matches!(url, FileReadResult::DataURL(ref s) if s == "data:application/octet-stream;base64,YWI="));
    let empty = compute_read_result(&Vec::new(), &ReadOperation::DataURL);
    assert!(matches!(empty, FileReadResult::DataURL(ref s) if s == "data:application/octet-stream;base64,"));
}

#[test]
fn test_file_constructor_basic() {
    let f = file_of("content", "test.txt", "");
    assert_eq!(f.name(), "test.txt");
    assert_eq!(f.blob().data(), &b"content".to_vec());
}

#[test]
fn test_file_inherits_blob_methods() {
    let f = file_of("test", "test.txt", "");
    assert_eq!(f.text(), "test");
    let s = File::slice(&f, Some(IntegerOrInfinity::Integer(1)), None, None);
    assert_eq!(s.blob().data(), &b"est".to_vec());
}

#[test]
fn test_file_is_blob() {
    let f = file_of("content", "test.txt", "");
    let blob: &BlobData = f.blob();
    assert_eq!(blob.size(), 7);
}

#[test]
fn test_file_endings_option_native() {
    // The `endings` option leaves the bytes as they are.
    let f = file_of("line1\nline2", "test.txt", "");
    assert!(f.blob().size() > 0);
    assert_eq!(f.blob().data(), &b"line1\nline2".to_vec());
}

#[test]
fn test_filereader_constructor_basic() {
    let mut reg = FileReaderRegistry::new();
    let r = FileReaderData::new(&mut reg);
    assert_eq!(r.ready_state, ReadyState::Empty);
}

#[test]
fn test_filereader_readystate_property() {
    let mut reg = FileReaderRegistry::new();
    let r = FileReaderData::new(&mut reg);
    let state: u16 = r.ready_state.as_u16();
    assert_eq!(state, 0);
}

#[test]
fn test_filereader_loadstart_event() {
    let mut reg = FileReaderRegistry::new();
    let mut r = FileReaderData::new(&mut reg);
    let start = r.begin_read(4).unwrap();
    assert_eq!(start.event, FileReaderEvent::LoadStart);
}

#[test]
fn test_filereader_loadend_event() {
    let mut reg = FileReaderRegistry::new();
    let mut r = FileReaderData::new(&mut reg);
    r.begin_read(4).unwrap();
    let events = r.complete_read(&mut reg, &b"test".to_vec(), &ReadOperation::Text(None));
    assert_eq!(events.last().map(|e| e.event), Some(FileReaderEvent::LoadEnd));
}

#[test]
fn file_modified_at_clock_reading_when_not_given() {
    let f = FileData::new_at(BlobData::new(vec![1], String::new()), "a.txt".to_string(), None, 99);
    assert_eq!(f.last_modified(), 99);
    let g = FileData::new_at(BlobData::new(vec![1], String::new()), "a.txt".to_string(), Some(5), 99);
    assert_eq!(g.last_modified(), 5);
    assert_eq!(FileData::new(BlobData::new(vec![], String::new()), "a.txt".to_string(), Some(5)).last_modified(), 5);
}
