//! `FileSystemWritableFileStream`, the writer returned by
//! `FileHandle.createWritable()`. Writes go to a scratch file; `close()`
//! renames it over the target, so partially-written files stay invisible to
//! readers and `abort()` discards cleanly.
//!
//! The stream is a state machine: each operation checks and updates the
//! state and names the file operation to perform (`StreamAction`); the
//! caller performs it and, when it succeeded, reports it with `complete`.
use std::sync::Arc;
use vstd::prelude::*;

use super::errors::DomErrorName;
use super::opfs_backend::{resolve_spec, OpfsBackend};
use crate::text::str_eq;

verus! {

/// Whether `c` is a lower-case hexadecimal digit.
pub open spec fn is_lower_hex(c: char) -> bool {
    ('0' <= c && c <= '9') || ('a' <= c && c <= 'f')
}

/// Calls `uuid::Uuid::new_v4().simple()` and formats it. The result is random;
/// the contract states only its shape, which the crate's formatter fixes: 32
/// lower-case hexadecimal digits.
#[verifier::external_body]
fn random_uuid_simple() -> (r: String)
    ensures
        r@.len() == 32,
        forall|i: int| 0 <= i < r@.len() ==> is_lower_hex(#[trigger] r@[i]),
{
    uuid::Uuid::new_v4().simple().to_string()
}

/// The scratch path of a target: the target, `.crswap.` and a fresh id.
pub open spec fn scratch_path_spec(target: Seq<char>, id: Seq<char>) -> Seq<char> {
    target + ".crswap."@ + id
}

/// A fresh scratch path next to `target`.
pub fn scratch_path(target: &str) -> (r: String)
    ensures
        exists|id: Seq<char>| #![auto] id.len() == 32 && r@ == scratch_path_spec(target@, id),
{
    let id = random_uuid_simple();
    let mut p = target.to_owned();
    p.append(".crswap.");
    p.append(id.as_str());
    proof {
        assert(p@ == scratch_path_spec(target@, id@));
    }
    p
}

/// The position and lifecycle flags of a writable stream.
#[derive(Debug, Clone, Copy, PartialEq, Eq, Structural)]
pub struct StreamState {
    pub position: u64,
    pub closed: bool,
    pub aborted: bool,
}

/// A chunk handed to `write()`: raw data, or a write command.
pub enum Chunk {
    Data(Vec<u8>),
    Write { position: Option<u64>, data: Vec<u8> },
    Seek(u64),
    Truncate(u64),
}

/// The file operation the caller performs for a stream operation.
#[derive(Debug, Clone, PartialEq, Eq)]
pub enum StreamAction {
    Nothing,
    /// Write `len` bytes at `offset` of the scratch file.
    WriteAt { offset: u64, len: u64 },
    /// Set the scratch file's length.
    TruncateTo(u64),
    /// Rename the scratch file over the target.
    RenameScratchOverTarget,
    /// Remove the scratch file (its failure is ignored).
    RemoveScratch,
}

pub open spec fn accepts(s: StreamState) -> bool {
    !s.closed && !s.aborted
}

/// `write(chunk)`: the state before the file operation, and the operation.
pub open spec fn write_spec(s: StreamState, c: Chunk) -> Result<(StreamState, StreamAction), DomErrorName> {
    if !accepts(s) {
        Err(DomErrorName::InvalidState)
    } else {
        match c {
            Chunk::Data(d) => Ok((s, StreamAction::WriteAt { offset: s.position, len: d@.len() as u64 })),
            Chunk::Write { position, data } => {
                let p = match position {
                    Some(p) => p,
                    None => s.position,
                };
                Ok((StreamState { position: p, ..s }, StreamAction::WriteAt { offset: p, len: data@.len() as u64 }))
            },
            Chunk::Seek(p) => Ok((StreamState { position: p, ..s }, StreamAction::Nothing)),
            Chunk::Truncate(n) => Ok((s, StreamAction::TruncateTo(n))),
        }
    }
}

/// `seek(pos)`.
pub open spec fn seek_spec(s: StreamState, pos: u64) -> Result<StreamState, DomErrorName> {
    if !accepts(s) {
        Err(DomErrorName::InvalidState)
    } else {
        Ok(StreamState { position: pos, ..s })
    }
}

/// `truncate(size)`: the operation to perform.
pub open spec fn truncate_spec(s: StreamState, size: u64) -> Result<StreamAction, DomErrorName> {
    if !accepts(s) {
        Err(DomErrorName::InvalidState)
    } else {
        Ok(StreamAction::TruncateTo(size))
    }
}

/// `close()`: closing a closed stream does nothing; an aborted one is refused.
pub open spec fn close_spec(s: StreamState) -> Result<StreamAction, DomErrorName> {
    if s.closed {
        Ok(StreamAction::Nothing)
    } else if s.aborted {
        Err(DomErrorName::InvalidState)
    } else {
        Ok(StreamAction::RenameScratchOverTarget)
    }
}

/// `abort()`: the state after it and the operation.
pub open spec fn abort_spec(s: StreamState) -> (StreamState, StreamAction) {
    if s.closed || s.aborted {
        (s, StreamAction::Nothing)
    } else {
        (StreamState { aborted: true, ..s }, StreamAction::RemoveScratch)
    }
}

/// The state once the file operation `a` succeeded: a write moves the
/// position past the written bytes, a truncation pulls it back inside the
/// file, the rename closes the stream.
pub open spec fn complete_spec(s: StreamState, a: StreamAction) -> StreamState {
    match a {
        StreamAction::WriteAt { offset, len } => StreamState { position: (s.position + len) as u64, ..s },
        StreamAction::TruncateTo(n) => StreamState { position: if s.position > n { n } else { s.position }, ..s },
        StreamAction::RenameScratchOverTarget => StreamState { closed: true, ..s },
        _ => s,
    }
}

/// What a stream is made with: a copy of the target when existing data is
/// kept and the target is a file, an empty scratch file otherwise.
#[derive(Debug, Clone, Copy, PartialEq, Eq, Structural)]
pub enum InitAction {
    CopyTargetToScratch,
    CreateEmptyScratch,
}

/// The writer returned by `createWritable()`.
pub struct FileSystemWritableFileStream {
    pub backend: Arc<OpfsBackend>,
    pub target_virtual: String,
    pub scratch_virtual: String,
    pub state: StreamState,
}

impl FileSystemWritableFileStream {
    /// A stream on `target_virtual` with a fresh scratch path; the caller
    /// performs the returned initial file operation.
    pub fn new(backend: Arc<OpfsBackend>, target_virtual: String, keep_existing_data: bool) -> (r: (Self, InitAction))
        ensures
            r.0.backend == backend,
            r.0.target_virtual@ == target_virtual@,
            exists|id: Seq<char>| #![auto] id.len() == 32 && r.0.scratch_virtual@ == scratch_path_spec(target_virtual@, id),
            r.0.state == (StreamState { position: 0, closed: false, aborted: false }),
            !keep_existing_data ==> r.1 == InitAction::CreateEmptyScratch,
            resolve_spec(backend.root(), target_virtual@) is Err ==> r.1 == InitAction::CreateEmptyScratch,
    {
        let scratch_virtual = scratch_path(target_virtual.as_str());
        let init = if keep_existing_data && backend.is_file(target_virtual.as_str()) {
            InitAction::CopyTargetToScratch
        } else {
            InitAction::CreateEmptyScratch
        };
        let s = FileSystemWritableFileStream {
            backend,
            target_virtual,
            scratch_virtual,
            state: StreamState { position: 0, closed: false, aborted: false },
        };
        (s, init)
    }

    /// `write(chunk)`.
    pub fn write(&mut self, chunk: &Chunk) -> (r: Result<StreamAction, DomErrorName>)
        ensures
            match write_spec(old(self).state, *chunk) {
                Ok((s, a)) => r == Ok::<StreamAction, DomErrorName>(a) && final(self).state == s,
                Err(e) => r == Err::<StreamAction, DomErrorName>(e) && final(self).state == old(self).state,
            },
            final(self).target_virtual == old(self).target_virtual,
            final(self).scratch_virtual == old(self).scratch_virtual,
            final(self).backend == old(self).backend,
    {
        if self.state.closed || self.state.aborted {
            return Err(DomErrorName::InvalidState);
        }
        match chunk {
            Chunk::Data(d) => Ok(StreamAction::WriteAt { offset: self.state.position, len: d.len() as u64 }),
            Chunk::Write { position, data } => {
                match position {
                    Some(p) => {
                        self.state.position = *p;
                    },
                    None => {},
                }
                Ok(StreamAction::WriteAt { offset: self.state.position, len: data.len() as u64 })
            },
            Chunk::Seek(p) => {
                self.state.position = *p;
                Ok(StreamAction::Nothing)
            },
            Chunk::Truncate(n) => Ok(StreamAction::TruncateTo(*n)),
        }
    }

    /// `seek(pos)`.
    pub fn seek(&mut self, pos: u64) -> (r: Result<(), DomErrorName>)
        ensures
            match seek_spec(old(self).state, pos) {
                Ok(s) => r is Ok && final(self).state == s,
                Err(e) => r == Err::<(), DomErrorName>(e) && final(self).state == old(self).state,
            },
            final(self).target_virtual == old(self).target_virtual,
            final(self).scratch_virtual == old(self).scratch_virtual,
            final(self).backend == old(self).backend,
    {
        if self.state.closed || self.state.aborted {
            return Err(DomErrorName::InvalidState);
        }
        self.state.position = pos;
        Ok(())
    }

    /// `truncate(size)`.
    pub fn truncate(&self, size: u64) -> (r: Result<StreamAction, DomErrorName>)
        ensures
            r == truncate_spec(self.state, size),
    {
        if self.state.closed || self.state.aborted {
            return Err(DomErrorName::InvalidState);
        }
        Ok(StreamAction::TruncateTo(size))
    }

    /// `close()`.
    pub fn close(&self) -> (r: Result<StreamAction, DomErrorName>)
        ensures
            r == close_spec(self.state),
    {
        if self.state.closed {
            return Ok(StreamAction::Nothing);
        }
        if self.state.aborted {
            return Err(DomErrorName::InvalidState);
        }
        Ok(StreamAction::RenameScratchOverTarget)
    }

    /// `abort()`.
    pub fn abort(&mut self) -> (a: StreamAction)
        ensures
            (final(self).state, a) == abort_spec(old(self).state),
            final(self).target_virtual == old(self).target_virtual,
            final(self).scratch_virtual == old(self).scratch_virtual,
            final(self).backend == old(self).backend,
    {
        if self.state.closed || self.state.aborted {
            return StreamAction::Nothing;
        }
        self.state.aborted = true;
        StreamAction::RemoveScratch
    }

    /// Record that the file operation `a` succeeded.
    pub fn complete(&mut self, a: &StreamAction)
        requires
            *a matches StreamAction::WriteAt { offset, len } ==> old(self).state.position + len <= u64::MAX,
        ensures
            final(self).state == complete_spec(old(self).state, *a),
            final(self).target_virtual == old(self).target_virtual,
            final(self).scratch_virtual == old(self).scratch_virtual,
            final(self).backend == old(self).backend,
    {
        match a {
            StreamAction::WriteAt { offset: _, len } => {
                self.state.position = self.state.position + *len;
            },
            StreamAction::TruncateTo(n) => {
                if self.state.position > *n {
                    self.state.position = *n;
                }
            },
            StreamAction::RenameScratchOverTarget => {
                self.state.closed = true;
            },
            _ => {},
        }
    }
}

/// Why a write command could not be read.
#[derive(Debug, Clone, Copy, PartialEq, Eq, Structural)]
pub enum CommandError {
    /// `write` without data.
    MissingData,
    /// `seek` without a position.
    MissingPosition,
    /// `truncate` without a size.
    MissingSize,
    /// A `type` that is none of `write`, `seek`, `truncate`.
    UnknownType,
}

/// Read a write command `{type, position?, size?, data?}` whose fields were
/// already taken from the object.
pub fn parse_command(ty: &str, position: Option<u64>, size: Option<u64>, data: Option<Vec<u8>>) -> (r: Result<Chunk, CommandError>)
    ensures
        ty@ == "write"@ ==> match data {
            Some(d) => r matches Ok(Chunk::Write { position: p, data: e }) && p == position && e@ == d@,
            None => r == Err::<Chunk, CommandError>(CommandError::MissingData),
        },
        ty@ == "seek"@ ==> match position {
            Some(p) => r matches Ok(Chunk::Seek(q)) && q == p,
            None => r == Err::<Chunk, CommandError>(CommandError::MissingPosition),
        },
        ty@ == "truncate"@ ==> match size {
            Some(n) => r matches Ok(Chunk::Truncate(m)) && m == n,
            None => r == Err::<Chunk, CommandError>(CommandError::MissingSize),
        },
        ty@ != "write"@ && ty@ != "seek"@ && ty@ != "truncate"@ ==> r == Err::<Chunk, CommandError>(CommandError::UnknownType),
{
    proof {
        reveal_strlit("write");
        reveal_strlit("seek");
        reveal_strlit("truncate");
        assert("write"@[0] == 'w' && "seek"@[0] == 's' && "truncate"@[0] == 't');
        assert("write"@ != "seek"@ && "write"@ != "truncate"@ && "seek"@ != "truncate"@);
    }
    if str_eq(ty, "write") {
        match data {
            Some(d) => Ok(Chunk::Write { position, data: d }),
            None => Err(CommandError::MissingData),
        }
    } else if str_eq(ty, "seek") {
        match position {
            Some(p) => Ok(Chunk::Seek(p)),
            None => Err(CommandError::MissingPosition),
        }
    } else if str_eq(ty, "truncate") {
        match size {
            Some(n) => Ok(Chunk::Truncate(n)),
            None => Err(CommandError::MissingSize),
        }
    } else {
        Err(CommandError::UnknownType)
    }
}

/// Once a stream is closed, every write, seek and truncation is refused and
/// closing again does nothing.
pub proof fn law_closed_stream_refuses(s: StreamState, c: Chunk, pos: u64, size: u64)
    requires
        s.closed,
    ensures
        write_spec(s, c) == Err::<(StreamState, StreamAction), DomErrorName>(DomErrorName::InvalidState),
        seek_spec(s, pos) == Err::<StreamState, DomErrorName>(DomErrorName::InvalidState),
        truncate_spec(s, size) == Err::<StreamAction, DomErrorName>(DomErrorName::InvalidState),
        close_spec(s) == Ok::<StreamAction, DomErrorName>(StreamAction::Nothing),
        abort_spec(s) == (s, StreamAction::Nothing),
{
}

/// An aborted stream refuses `close()`, and a second `abort()` does nothing.
pub proof fn law_abort_then_close_refused(s: StreamState)
    requires
        accepts(s),
    ensures
        close_spec(abort_spec(s).0) == Err::<StreamAction, DomErrorName>(DomErrorName::InvalidState),
        abort_spec(abort_spec(s).0).1 == StreamAction::Nothing,
{
}

/// A successful close, then nothing more: closing an open stream renames the
/// scratch file, and the completed stream is closed.
pub proof fn law_close_completes(s: StreamState)
    requires
        accepts(s),
    ensures
        close_spec(s) == Ok::<StreamAction, DomErrorName>(StreamAction::RenameScratchOverTarget),
        complete_spec(s, StreamAction::RenameScratchOverTarget).closed,
        !accepts(complete_spec(s, StreamAction::RenameScratchOverTarget)),
{
}

/// Writing `n` bytes at the current position and completing it leaves the
/// position `n` further on; a write command with a position writes there.
pub proof fn law_write_advances(s: StreamState, c: Chunk)
    requires
        accepts(s),
        write_spec(s, c) matches Ok((t, StreamAction::WriteAt { offset, len })) && t.position + len <= u64::MAX,
    ensures
        write_spec(s, c) matches Ok((t, StreamAction::WriteAt { offset, len })) && {
            &&& offset == t.position
            &&& complete_spec(t, StreamAction::WriteAt { offset, len }).position == offset + len
            &&& (c matches Chunk::Write { position: Some(p), .. } ==> offset == p)
            &&& (c is Data ==> offset == s.position)
        },
{
}

} // verus!
