//! DOMException names of the File System API and the mapping of I/O error kinds
//! onto them.
use vstd::prelude::*;
use super::opfs_backend::FsError;

verus! {

/// DOMException names used by the File System API.
#[derive(Debug, Clone, Copy, PartialEq, Eq, Structural)]
pub enum DomErrorName {
    NotFound,
    TypeMismatch,
    InvalidModification,
    NoModificationAllowed,
    QuotaExceeded,
    Abort,
    InvalidState,
    Security,
    Syntax,
}

impl DomErrorName {
    pub open spec fn spec_str(self) -> Seq<char> {
        match self {
            DomErrorName::NotFound => "NotFoundError"@,
            DomErrorName::TypeMismatch => "TypeMismatchError"@,
            DomErrorName::InvalidModification => "InvalidModificationError"@,
            DomErrorName::NoModificationAllowed => "NoModificationAllowedError"@,
            DomErrorName::QuotaExceeded => "QuotaExceededError"@,
            DomErrorName::Abort => "AbortError"@,
            DomErrorName::InvalidState => "InvalidStateError"@,
            DomErrorName::Security => "SecurityError"@,
            DomErrorName::Syntax => "SyntaxError"@,
        }
    }

    /// The `name` of the DOMException.
    pub fn as_str(&self) -> (s: &'static str)
        ensures
            s@ == self.spec_str(),
    {
        match self {
            DomErrorName::NotFound => "NotFoundError",
            DomErrorName::TypeMismatch => "TypeMismatchError",
            DomErrorName::InvalidModification => "InvalidModificationError",
            DomErrorName::NoModificationAllowed => "NoModificationAllowedError",
            DomErrorName::QuotaExceeded => "QuotaExceededError",
            DomErrorName::Abort => "AbortError",
            DomErrorName::InvalidState => "InvalidStateError",
            DomErrorName::Security => "SecurityError",
            DomErrorName::Syntax => "SyntaxError",
        }
    }
}

/// The kinds of I/O error the mapping tells apart (the kind of a
/// `std::io::Error`; every other kind is `Other`).
#[derive(Debug, Clone, Copy, PartialEq, Eq, Structural)]
pub enum IoErrorKind {
    NotFound,
    PermissionDenied,
    AlreadyExists,
    InvalidInput,
    InvalidData,
    Other,
}

/// The DOMException an I/O error kind maps to.
pub open spec fn io_error_name(kind: IoErrorKind) -> DomErrorName {
    match kind {
        IoErrorKind::NotFound => DomErrorName::NotFound,
        IoErrorKind::PermissionDenied => DomErrorName::NoModificationAllowed,
        IoErrorKind::AlreadyExists => DomErrorName::TypeMismatch,
        IoErrorKind::InvalidInput => DomErrorName::Syntax,
        IoErrorKind::InvalidData => DomErrorName::Syntax,
        IoErrorKind::Other => DomErrorName::InvalidState,
    }
}

/// The DOMException name of an I/O error of the given kind.
pub fn io_error_dom_name(kind: IoErrorKind) -> (n: DomErrorName)
    ensures
        n == io_error_name(kind),
{
    match kind {
        IoErrorKind::NotFound => DomErrorName::NotFound,
        IoErrorKind::PermissionDenied => DomErrorName::NoModificationAllowed,
        IoErrorKind::AlreadyExists => DomErrorName::TypeMismatch,
        IoErrorKind::InvalidInput | IoErrorKind::InvalidData => DomErrorName::Syntax,
        IoErrorKind::Other => DomErrorName::InvalidState,
    }
}

/// Map an I/O error kind to the most appropriate DOMException name.
pub fn map_io_error(kind: IoErrorKind) -> (s: &'static str)
    ensures
        s@ == io_error_name(kind).spec_str(),
{
    io_error_dom_name(kind).as_str()
}

/// The I/O error a path violation is reported as: its kind and message.
pub open spec fn fs_error_io(e: FsError) -> (IoErrorKind, Seq<char>) {
    match e {
        FsError::InvalidName => (IoErrorKind::InvalidInput, "invalid OPFS name"@),
        FsError::PathEscape => (IoErrorKind::PermissionDenied, "OPFS path escape"@),
    }
}

/// Report a path violation as an I/O error.
pub fn invalid_name_to_io(e: FsError) -> (r: (IoErrorKind, &'static str))
    ensures
        (r.0, r.1@) == fs_error_io(e),
{
    match e {
        FsError::InvalidName => (IoErrorKind::InvalidInput, "invalid OPFS name"),
        FsError::PathEscape => (IoErrorKind::PermissionDenied, "OPFS path escape"),
    }
}

} // verus!
