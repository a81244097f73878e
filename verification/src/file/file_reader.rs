//! The `FileReader` interface: reading a blob's bytes as an ArrayBuffer, a
//! binary string, a data URL or text, with its ready states, its errors and
//! the events it fires.
use base64::Engine as _;
use vstd::prelude::*;

use crate::text::{bytes_as_chars, str_eq, utf8_lossy, utf8_lossy_decode};

verus! {

/// FileReader ready states.
#[derive(Debug, Clone, Copy, PartialEq, Eq, Structural)]
pub enum ReadyState {
    Empty,
    Loading,
    Done,
}

impl ReadyState {
    pub open spec fn code(self) -> u16 {
        match self {
            ReadyState::Empty => 0,
            ReadyState::Loading => 1,
            ReadyState::Done => 2,
        }
    }

    /// The `readyState` number (`EMPTY`, `LOADING`, `DONE`).
    pub fn as_u16(&self) -> (n: u16)
        ensures
            n == self.code(),
    {
        match self {
            ReadyState::Empty => 0,
            ReadyState::Loading => 1,
            ReadyState::Done => 2,
        }
    }
}

/// FileReader error codes.
#[derive(Debug, Clone, Copy, PartialEq, Eq, Structural)]
pub enum FileReaderError {
    NotReadable,
    Security,
    Abort,
    Encoding,
}

impl FileReaderError {
    pub open spec fn info_spec(self) -> (Seq<char>, Seq<char>, u16) {
        match self {
            FileReaderError::NotReadable => ("NotReadableError"@, "The file could not be read."@, 1),
            FileReaderError::Security => ("SecurityError"@, "The file read was blocked by a security policy."@, 2),
            FileReaderError::Abort => ("AbortError"@, "The read operation was aborted."@, 3),
            FileReaderError::Encoding => ("EncodingError"@, "The file encoding is not valid."@, 4),
        }
    }

    /// The `name`, `message` and `code` of the DOMException the `error`
    /// property shows.
    pub fn info(&self) -> (r: (&'static str, &'static str, u16))
        ensures
            (r.0@, r.1@, r.2) == self.info_spec(),
    {
        match self {
            FileReaderError::NotReadable => ("NotReadableError", "The file could not be read.", 1),
            FileReaderError::Security => ("SecurityError", "The file read was blocked by a security policy.", 2),
            FileReaderError::Abort => ("AbortError", "The read operation was aborted.", 3),
            FileReaderError::Encoding => ("EncodingError", "The file encoding is not valid.", 4),
        }
    }
}

/// JavaScript `FileReader` constructor.
pub struct FileReader;

/// An event a FileReader fires.
#[derive(Debug, Clone, Copy, PartialEq, Eq, Structural)]
pub enum FileReaderEvent {
    LoadStart,
    Progress { loaded: usize, total: usize },
    Load,
    LoadEnd,
    Error,
    Abort,
}

/// An event a reader fires, with the values of its progress event.
#[derive(Debug, Clone, Copy, PartialEq, Eq, Structural)]
pub struct FiredEvent {
    pub event: FileReaderEvent,
    pub loaded: usize,
    pub total: usize,
    pub length_computable: bool,
}

/// Result of a file read operation.
pub enum FileReadResult {
    Text(String),
    BinaryString(String),
    DataURL(String),
    ArrayBuffer(Vec<u8>),
}

/// Pending result of a read, kept for the reader that made it.
pub struct PendingResult {
    pub result: Option<FileReadResult>,
    pub error: Option<FileReaderError>,
    pub events: Vec<FileReaderEvent>,
}

/// Read operation types.
pub enum ReadOperation {
    ArrayBuffer,
    BinaryString,
    DataURL,
    /// Text, with the encoding asked for.
    Text(Option<String>),
}

/// The base64 digit of a number below 64 (standard alphabet).
pub open spec fn b64_digit(n: int) -> char {
    if n < 26 {
        ('A' as int + n) as char
    } else if n < 52 {
        ('a' as int + (n - 26)) as char
    } else if n < 62 {
        ('0' as int + (n - 52)) as char
    } else if n == 62 {
        '+'
    } else {
        '/'
    }
}

/// Base64 with the standard alphabet and `=` padding (RFC 4648).
pub open spec fn base64_spec(d: Seq<u8>) -> Seq<char>
    decreases d.len(),
{
    let a = d[0] as int;
    let b = d[1] as int;
    let c = d[2] as int;
    if d.len() == 0 {
        Seq::empty()
    } else if d.len() == 1 {
        seq![b64_digit(a / 4), b64_digit((a % 4) * 16), '=', '=']
    } else if d.len() == 2 {
        seq![b64_digit(a / 4), b64_digit((a % 4) * 16 + b / 16), b64_digit((b % 16) * 4), '=']
    } else {
        seq![b64_digit(a / 4), b64_digit((a % 4) * 16 + b / 16), b64_digit((b % 16) * 4 + c / 64), b64_digit(c % 64)]
            + base64_spec(d.subrange(3, d.len() as int))
    }
}

/// Calls `base64::engine::general_purpose::STANDARD.encode`: base64 with the
/// standard alphabet and padding.
#[verifier::external_body]
pub(crate) fn base64_standard(data: &Vec<u8>) -> (r: String)
    ensures
        r@ == base64_spec(data@),
{
    base64::engine::general_purpose::STANDARD.encode(data.as_slice())
}

/// The prefix of a `readAsDataURL` result.
pub open spec fn data_url_prefix() -> Seq<char> {
    "data:application/octet-stream;base64,"@
}

/// Whether a `readAsText` encoding label selects Latin-1.
pub open spec fn latin1_label(e: Option<String>) -> bool {
    match e {
        Some(s) => s@ == "latin1"@ || s@ == "iso-8859-1"@,
        None => false,
    }
}

/// The string view of a read result, and whether it is an ArrayBuffer.
pub open spec fn result_shape(r: FileReadResult) -> (u8, Seq<char>, Seq<u8>) {
    match r {
        FileReadResult::Text(s) => (0, s@, Seq::empty()),
        FileReadResult::BinaryString(s) => (1, s@, Seq::empty()),
        FileReadResult::DataURL(s) => (2, s@, Seq::empty()),
        FileReadResult::ArrayBuffer(b) => (3, Seq::empty(), b@),
    }
}

/// What a read of `data` gives.
pub open spec fn read_result_spec(data: Seq<u8>, op: ReadOperation) -> (u8, Seq<char>, Seq<u8>) {
    match op {
        ReadOperation::ArrayBuffer => (3, Seq::empty(), data),
        ReadOperation::BinaryString => (1, bytes_as_chars(data), Seq::empty()),
        ReadOperation::DataURL => (2, data_url_prefix() + base64_spec(data), Seq::empty()),
        ReadOperation::Text(e) => (0, if latin1_label(e) {
            bytes_as_chars(data)
        } else {
            utf8_lossy(data)
        }, Seq::empty()),
    }
}

/// Each byte as the character of the same number (Latin-1).
pub fn latin1_decode(data: &Vec<u8>) -> (r: String)
    ensures
        r@ == bytes_as_chars(data@),
{
    let mut s = String::new();
    let mut i: usize = 0;
    while i < data.len()
        invariant
            0 <= i <= data@.len(),
            s@ == bytes_as_chars(data@.take(i as int)),
        decreases data@.len() - i,
    {
        let c = data[i] as char;
        crate::path::push_char(&mut s, c);
        proof {
            assert(s@ =~= bytes_as_chars(data@.take(i + 1)));
        }
        i = i + 1;
    }
    proof {
        assert(data@.take(data@.len() as int) =~= data@);
    }
    s
}

/// Perform a read operation on the bytes of a blob.
pub fn compute_read_result(data: &Vec<u8>, op: &ReadOperation) -> (r: FileReadResult)
    ensures
        result_shape(r) == read_result_spec(data@, *op),
{
    match op {
        ReadOperation::ArrayBuffer => {
            let mut out: Vec<u8> = Vec::new();
            let mut i: usize = 0;
            while i < data.len()
                invariant
                    0 <= i <= data@.len(),
                    out@ == data@.take(i as int),
                decreases data@.len() - i,
            {
                out.push(data[i]);
                proof {
                    assert(out@ =~= data@.take(i + 1));
                }
                i = i + 1;
            }
            proof {
                assert(data@.take(data@.len() as int) =~= data@);
            }
            FileReadResult::ArrayBuffer(out)
        },
        ReadOperation::BinaryString => FileReadResult::BinaryString(latin1_decode(data)),
        ReadOperation::DataURL => {
            let mut s = "data:application/octet-stream;base64,".to_owned();
            let b = base64_standard(data);
            s.append(b.as_str());
            FileReadResult::DataURL(s)
        },
        ReadOperation::Text(e) => {
            let latin1 = match e {
                Some(label) => str_eq(label.as_str(), "latin1") || str_eq(label.as_str(), "iso-8859-1"),
                None => false,
            };
            if latin1 {
                FileReadResult::Text(latin1_decode(data))
            } else {
                FileReadResult::Text(utf8_lossy_decode(data))
            }
        },
    }
}

/// The latest pending result of a reader: the entry for `id` nearest the end.
pub open spec fn lookup_pending(s: Seq<(u32, PendingResult)>, id: u32) -> Option<PendingResult>
    decreases s.len(),
{
    if s.len() == 0 {
        None
    } else if s.last().0 == id {
        Some(s.last().1)
    } else {
        lookup_pending(s.drop_last(), id)
    }
}

pub open spec fn ids_unique(s: Seq<(u32, PendingResult)>) -> bool {
    forall|i: int, j: int| 0 <= i < s.len() && 0 <= j < s.len() && i != j ==> s[i].0 != s[j].0
}

proof fn lemma_lookup_at(s: Seq<(u32, PendingResult)>, id: u32, j: int)
    requires
        ids_unique(s),
        0 <= j < s.len(),
        s[j].0 == id,
    ensures
        lookup_pending(s, id) == Some(s[j].1),
    decreases s.len(),
{
    if j < s.len() - 1 {
        lemma_lookup_at(s.drop_last(), id, j);
    }
}

proof fn lemma_lookup_absent(s: Seq<(u32, PendingResult)>, id: u32)
    requires
        forall|i: int| 0 <= i < s.len() ==> s[i].0 != id,
    ensures
        lookup_pending(s, id) is None,
    decreases s.len(),
{
    if s.len() > 0 {
        lemma_lookup_absent(s.drop_last(), id);
    }
}

/// The shared state of all readers: the next reader id and the pending
/// result of each reader.
pub struct FileReaderRegistry {
    next_id: u32,
    pending: Vec<(u32, PendingResult)>,
}

impl FileReaderRegistry {
    pub closed spec fn next(&self) -> u32 {
        self.next_id
    }

    /// The pending result stored for reader `id`.
    pub closed spec fn pending_of(&self, id: u32) -> Option<PendingResult> {
        lookup_pending(self.pending@, id)
    }

    pub closed spec fn wf(&self) -> bool {
        ids_unique(self.pending@)
    }

    /// A registry whose first reader gets id 1.
    pub fn new() -> (r: Self)
        ensures
            r.wf(),
            r.next() == 1,
            forall|id: u32| r.pending_of(id) is None,
    {
        FileReaderRegistry { next_id: 1, pending: Vec::new() }
    }

    /// Hand out the next reader id.
    pub fn allocate_id(&mut self) -> (id: u32)
        requires
            old(self).next() < u32::MAX,
        ensures
            id == old(self).next(),
            final(self).next() == old(self).next() + 1,
            final(self).wf() == old(self).wf(),
            forall|k: u32| final(self).pending_of(k) == old(self).pending_of(k),
    {
        let id = self.next_id;
        self.next_id = self.next_id + 1;
        id
    }

    /// Store the pending result of reader `id`, replacing an earlier one.
    pub fn store(&mut self, id: u32, p: PendingResult)
        requires
            old(self).wf(),
        ensures
            final(self).wf(),
            final(self).next() == old(self).next(),
            final(self).pending_of(id) == Some(p),
            forall|k: u32| k != id ==> final(self).pending_of(k) == old(self).pending_of(k),
    {
        let mut i: usize = 0;
        let mut found: Option<usize> = None;
        while i < self.pending.len()
            invariant_except_break
                found is None,
            invariant
                0 <= i <= self.pending@.len(),
                forall|j: int| 0 <= j < i ==> self.pending@[j].0 != id,
            ensures
                match found {
                    Some(k) => k < self.pending@.len() && self.pending@[k as int].0 == id,
                    None => forall|j: int| 0 <= j < self.pending@.len() ==> self.pending@[j].0 != id,
                },
            decreases self.pending@.len() - i,
        {
            if self.pending[i].0 == id {
                found = Some(i);
                break;
            }
            i = i + 1;
        }
        let ghost old_s = self.pending@;
        match found {
            Some(k) => {
                self.pending.set(k, (id, p));
                proof {
                    let s = self.pending@;
                    assert(s == old_s.update(k as int, (id, p)));
                    assert(ids_unique(s));
                    lemma_lookup_at(s, id, k as int);
                    assert forall|q: u32| q != id implies lookup_pending(s, q) == lookup_pending(old_s, q) by {
                        if exists|j: int| 0 <= j < old_s.len() && old_s[j].0 == q {
                            let j = choose|j: int| 0 <= j < old_s.len() && old_s[j].0 == q;
                            lemma_lookup_at(old_s, q, j);
                            lemma_lookup_at(s, q, j);
                        } else {
                            lemma_lookup_absent(old_s, q);
                            lemma_lookup_absent(s, q);
                        }
                    }
                }
            },
            None => {
                self.pending.push((id, p));
                proof {
                    let s = self.pending@;
                    assert(s == old_s.push((id, p)));
                    assert(s.drop_last() =~= old_s);
                    assert(ids_unique(s));
                }
            },
        }
    }

    /// The bytes of reader `id`'s pending ArrayBuffer result, if that is
    /// what it holds.
    pub fn get_array_buffer_result(&self, id: u32) -> (r: Option<Vec<u8>>)
        requires
            self.wf(),
        ensures
            match self.pending_of(id) {
                Some(PendingResult { result: Some(FileReadResult::ArrayBuffer(b)), .. }) => r matches Some(v) && v@ == b@,
                _ => r is None,
            },
    {
        let mut i: usize = 0;
        while i < self.pending.len()
            invariant
                0 <= i <= self.pending@.len(),
                forall|j: int| 0 <= j < i ==> self.pending@[j].0 != id,
                self.wf(),
            decreases self.pending@.len() - i,
        {
            if self.pending[i].0 == id {
                proof {
                    lemma_lookup_at(self.pending@, id, i as int);
                }
                match &self.pending[i].1.result {
                    Some(FileReadResult::ArrayBuffer(b)) => {
                        let mut out: Vec<u8> = Vec::new();
                        let mut k: usize = 0;
                        while k < b.len()
                            invariant
                                0 <= k <= b@.len(),
                                out@ == b@.take(k as int),
                            decreases b@.len() - k,
                        {
                            out.push(b[k]);
                            proof {
                                assert(out@ =~= b@.take(k + 1));
                            }
                            k = k + 1;
                        }
                        proof {
                            assert(b@.take(b@.len() as int) =~= b@);
                        }
                        return Some(out);
                    },
                    _ => {
                        return None;
                    },
                }
            }
            i = i + 1;
        }
        proof {
            lemma_lookup_absent(self.pending@, id);
        }
        None
    }
}

/// The state of one reader.
pub struct FileReaderData {
    pub ready_state: ReadyState,
    /// The string result (text, binary string or data URL).
    pub result: Option<String>,
    pub error: Option<FileReaderError>,
    pub reader_id: u32,
    pub is_aborted: bool,
    /// Handler ids of `onloadstart`, `onprogress`, `onload`, `onloadend`,
    /// `onerror`, `onabort`.
    pub on_loadstart: Option<u64>,
    pub on_progress: Option<u64>,
    pub on_load: Option<u64>,
    pub on_loadend: Option<u64>,
    pub on_error: Option<u64>,
    pub on_abort: Option<u64>,
}

/// Why a read could not start.
#[derive(Debug, Clone, Copy, PartialEq, Eq, Structural)]
pub enum ReadStartError {
    /// A read is already in progress (a `TypeError`).
    AlreadyReading,
}

impl FileReaderData {
    /// A fresh reader, with the next id of the registry.
    pub fn new(registry: &mut FileReaderRegistry) -> (r: Self)
        requires
            old(registry).next() < u32::MAX,
        ensures
            r.ready_state == ReadyState::Empty,
            r.result is None,
            r.error is None,
            !r.is_aborted,
            r.reader_id == old(registry).next(),
            final(registry).next() == old(registry).next() + 1,
            final(registry).wf() == old(registry).wf(),
            forall|k: u32| final(registry).pending_of(k) == old(registry).pending_of(k),
            r.on_loadstart is None && r.on_progress is None && r.on_load is None,
            r.on_loadend is None && r.on_error is None && r.on_abort is None,
    {
        let reader_id = registry.allocate_id();
        FileReaderData {
            ready_state: ReadyState::Empty,
            result: None,
            error: None,
            reader_id,
            is_aborted: false,
            on_loadstart: None,
            on_progress: None,
            on_load: None,
            on_loadend: None,
            on_error: None,
            on_abort: None,
        }
    }

    /// First step of a `readAs*` call: refused while a read is in progress;
    /// otherwise the reader is loading, with no result, error or abort. The
    /// caller then fires `loadstart` (progress `0` of the blob's size).
    pub fn begin_read(&mut self, total: usize) -> (r: Result<FiredEvent, ReadStartError>)
        ensures
            old(self).ready_state == ReadyState::Loading ==> r == Err::<FiredEvent, ReadStartError>(
                ReadStartError::AlreadyReading,
            ) && *final(self) == *old(self),
            old(self).ready_state != ReadyState::Loading ==> r == Ok::<FiredEvent, ReadStartError>(
                FiredEvent { event: FileReaderEvent::LoadStart, loaded: 0, total, length_computable: true },
            ) && *final(self) == (FileReaderData {
                ready_state: ReadyState::Loading,
                result: None,
                error: None,
                is_aborted: false,
                ..*old(self)
            }),
    {
        if self.ready_state == ReadyState::Loading {
            return Err(ReadStartError::AlreadyReading);
        }
        self.ready_state = ReadyState::Loading;
        self.result = None;
        self.error = None;
        self.is_aborted = false;
        Ok(FiredEvent { event: FileReaderEvent::LoadStart, loaded: 0, total, length_computable: true })
    }

    /// Second step: compute the result, store it for the reader, and unless
    /// the read was aborted meanwhile, finish it. Returns the events to fire
    /// (`load` then `loadend`), none after an abort.
    pub fn complete_read(&mut self, registry: &mut FileReaderRegistry, data: &Vec<u8>, op: &ReadOperation) -> (events: Vec<FiredEvent>)
        requires
            old(registry).wf(),
        ensures
            final(registry).wf(),
            final(registry).next() == old(registry).next(),
            final(registry).pending_of(old(self).reader_id) matches Some(p) && {
                &&& p.result matches Some(res) && result_shape(res) == read_result_spec(data@, *op)
                &&& p.error is None
                &&& p.events@ == seq![FileReaderEvent::Load, FileReaderEvent::LoadEnd]
            },
            forall|k: u32| k != old(self).reader_id ==> final(registry).pending_of(k) == old(registry).pending_of(k),
            old(self).is_aborted ==> events@ == Seq::<FiredEvent>::empty() && *final(self) == *old(self),
            !old(self).is_aborted ==> {
                &&& events@ == seq![
                    FiredEvent { event: FileReaderEvent::Load, loaded: data@.len() as usize, total: data@.len() as usize, length_computable: true },
                    FiredEvent { event: FileReaderEvent::LoadEnd, loaded: data@.len() as usize, total: data@.len() as usize, length_computable: true },
                ]
                &&& final(self).ready_state == ReadyState::Done
                &&& final(self).error == old(self).error
                &&& final(self).reader_id == old(self).reader_id
                &&& final(self).is_aborted == old(self).is_aborted
                &&& match read_result_spec(data@, *op) {
                    (3, _, _) => final(self).result is None,
                    (_, s, _) => final(self).result matches Some(t) && t@ == s,
                }
            },
    {
        let res = compute_read_result(data, op);
        let string_result: Option<String> = match &res {
            FileReadResult::Text(s) => Some(s.clone()),
            FileReadResult::BinaryString(s) => Some(s.clone()),
            FileReadResult::DataURL(s) => Some(s.clone()),
            FileReadResult::ArrayBuffer(_) => None,
        };
        let mut ev: Vec<FileReaderEvent> = Vec::new();
        ev.push(FileReaderEvent::Load);
        ev.push(FileReaderEvent::LoadEnd);
        let pending = PendingResult { result: Some(res), error: None, events: ev };
        registry.store(self.reader_id, pending);
        let mut out: Vec<FiredEvent> = Vec::new();
        if self.is_aborted {
            return out;
        }
        self.ready_state = ReadyState::Done;
        self.result = string_result;
        let n = data.len();
        out.push(FiredEvent { event: FileReaderEvent::Load, loaded: n, total: n, length_computable: true });
        out.push(FiredEvent { event: FileReaderEvent::LoadEnd, loaded: n, total: n, length_computable: true });
        out
    }

    /// `abort()`: while loading, the read ends with an `AbortError` and no
    /// result, and `abort` then `loadend` fire; otherwise nothing happens.
    pub fn abort(&mut self) -> (events: Vec<FiredEvent>)
        ensures
            old(self).ready_state == ReadyState::Loading ==> {
                &&& *final(self) == (FileReaderData {
                    ready_state: ReadyState::Done,
                    result: None,
                    error: Some(FileReaderError::Abort),
                    is_aborted: true,
                    ..*old(self)
                })
                &&& events@ == seq![
                    FiredEvent { event: FileReaderEvent::Abort, loaded: 0, total: 0, length_computable: false },
                    FiredEvent { event: FileReaderEvent::LoadEnd, loaded: 0, total: 0, length_computable: false },
                ]
            },
            old(self).ready_state != ReadyState::Loading ==> *final(self) == *old(self) && events@ == Seq::<
                FiredEvent,
            >::empty(),
    {
        let mut out: Vec<FiredEvent> = Vec::new();
        if self.ready_state == ReadyState::Loading {
            self.is_aborted = true;
            self.ready_state = ReadyState::Done;
            self.result = None;
            self.error = Some(FileReaderError::Abort);
            out.push(FiredEvent { event: FileReaderEvent::Abort, loaded: 0, total: 0, length_computable: false });
            out.push(FiredEvent { event: FileReaderEvent::LoadEnd, loaded: 0, total: 0, length_computable: false });
        }
        out
    }
}

} // verus!
