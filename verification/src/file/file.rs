//! The `File` interface: a blob with a name and a modification time.
use vstd::prelude::*;

use super::blob::BlobData;
use crate::events::event::now_millis;
use crate::text::{utf8_lossy, utf8_lossy_decode};

verus! {

/// JavaScript `File` constructor.
pub struct File;

/// Internal data for File objects (extends the blob data).
pub struct FileData {
    blob_data: BlobData,
    name: String,
    last_modified: u64,
    webkit_relative_path: String,
}

impl FileData {
    pub closed spec fn blob_spec(&self) -> BlobData {
        self.blob_data
    }

    pub closed spec fn name_spec(&self) -> Seq<char> {
        self.name@
    }

    pub closed spec fn modified_spec(&self) -> u64 {
        self.last_modified
    }

    pub closed spec fn relative_path_spec(&self) -> Seq<char> {
        self.webkit_relative_path@
    }

    /// File data from blob data and file properties, at clock reading `now_ms`
    /// (milliseconds since the epoch): with no modification time given, the
    /// file was modified at `now_ms`.
    pub fn new_at(blob_data: BlobData, name: String, last_modified: Option<u64>, now_ms: u64) -> (f: Self)
        ensures
            f.blob_spec() == blob_data,
            f.name_spec() == name@,
            f.modified_spec() == match last_modified {
                Some(t) => t,
                None => now_ms,
            },
            f.relative_path_spec() == Seq::<char>::empty(),
    {
        let last_modified = match last_modified {
            Some(t) => t,
            None => now_ms,
        };
        FileData { blob_data, name, last_modified, webkit_relative_path: String::new() }
    }

    /// File data from blob data and file properties; with no modification time
    /// given, the clock is read (`new_at` with that reading, which the contract
    /// cannot know).
    pub fn new(blob_data: BlobData, name: String, last_modified: Option<u64>) -> (f: Self)
        ensures
            f.blob_spec() == blob_data,
            f.name_spec() == name@,
            last_modified matches Some(t) ==> f.modified_spec() == t,
            f.relative_path_spec() == Seq::<char>::empty(),
    {
        let now_ms = match last_modified {
            Some(t) => t,
            None => now_millis(),
        };
        Self::new_at(blob_data, name, last_modified, now_ms)
    }

    /// The underlying blob data.
    pub fn blob(&self) -> (r: &BlobData)
        ensures
            *r == self.blob_spec(),
    {
        &self.blob_data
    }

    /// The file name.
    pub fn name(&self) -> (r: &str)
        ensures
            r@ == self.name_spec(),
    {
        self.name.as_str()
    }

    /// The last modification time, in milliseconds since the epoch.
    pub fn last_modified(&self) -> (r: u64)
        ensures
            r == self.modified_spec(),
    {
        self.last_modified
    }

    /// The path relative to a picked directory (empty here).
    pub fn webkit_relative_path(&self) -> (r: &str)
        ensures
            r@ == self.relative_path_spec(),
    {
        self.webkit_relative_path.as_str()
    }

    /// `text()`: the contents decoded as UTF-8, invalid sequences replaced.
    pub fn text(&self) -> (r: String)
        ensures
            r@ == utf8_lossy(self.blob_spec().bytes()),
    {
        utf8_lossy_decode(self.blob_data.data())
    }
}

/// The concatenation of byte sequences.
pub open spec fn concat_parts(parts: Seq<Seq<u8>>) -> Seq<u8>
    decreases parts.len(),
{
    if parts.len() == 0 {
        Seq::empty()
    } else {
        concat_parts(parts.drop_last()) + parts.last()
    }
}

/// A number after `ToIntegerOrInfinity`.
#[derive(Debug, Clone, Copy, PartialEq, Eq, Structural)]
pub enum IntegerOrInfinity {
    Integer(i64),
    PositiveInfinity,
    NegativeInfinity,
}

/// A `slice` bound within a blob of `len` bytes: absent gives `default`,
/// negative counts from the end, and the result is clamped to `0..=len`.
pub open spec fn relative_index(v: Option<IntegerOrInfinity>, len: int, default: int) -> int {
    match v {
        None => default,
        Some(IntegerOrInfinity::Integer(i)) => if i < 0 {
            if len + i < 0 {
                0
            } else {
                len + i
            }
        } else if i > len {
            len
        } else {
            i as int
        },
        Some(IntegerOrInfinity::NegativeInfinity) => 0,
        Some(IntegerOrInfinity::PositiveInfinity) => len,
    }
}

/// Resolve one `slice` bound.
pub fn resolve_slice_index(v: Option<IntegerOrInfinity>, len: usize, default: usize) -> (r: usize)
    requires
        default <= len,
    ensures
        r == relative_index(v, len as int, default as int),
        r <= len,
{
    match v {
        None => default,
        Some(IntegerOrInfinity::Integer(i)) => {
            if i < 0 {
                let sum: i128 = (len as i128) + (i as i128);
                if sum < 0 {
                    0
                } else {
                    sum as usize
                }
            } else if (i as u64) > (len as u64) {
                len
            } else {
                i as usize
            }
        },
        Some(IntegerOrInfinity::NegativeInfinity) => 0,
        Some(IntegerOrInfinity::PositiveInfinity) => len,
    }
}

/// The bytes `start..end` of `data` (nothing when `start >= end`).
pub open spec fn slice_bytes(data: Seq<u8>, start: int, end: int) -> Seq<u8> {
    if start < end {
        data.subrange(start, end)
    } else {
        Seq::empty()
    }
}

impl File {
    /// `new File(fileBits, fileName, options)` once the parts were turned into
    /// bytes: the file holds their concatenation.
    pub fn from_parts(parts: &Vec<Vec<u8>>, file_name: String, mime_type: String, last_modified: Option<u64>) -> (f: FileData)
        ensures
            f.blob_spec().bytes() == concat_parts(parts@.map_values(|p: Vec<u8>| p@)),
            f.blob_spec().mime() == mime_type@,
            f.name_spec() == file_name@,
            last_modified matches Some(t) ==> f.modified_spec() == t,
    {
        let ghost ps = parts@.map_values(|p: Vec<u8>| p@);
        let mut data: Vec<u8> = Vec::new();
        let mut i: usize = 0;
        while i < parts.len()
            invariant
                0 <= i <= parts@.len(),
                ps == parts@.map_values(|p: Vec<u8>| p@),
                data@ == concat_parts(ps.take(i as int)),
            decreases parts@.len() - i,
        {
            let part = &parts[i];
            let mut j: usize = 0;
            let ghost base = data@;
            while j < part.len()
                invariant
                    0 <= j <= part@.len(),
                    data@ == base + part@.take(j as int),
                decreases part@.len() - j,
            {
                data.push(part[j]);
                proof {
                    assert(part@.take(j + 1) =~= part@.take(j as int).push(part@[j as int]));
                    assert(data@ =~= base + part@.take(j + 1));
                }
                j = j + 1;
            }
            proof {
                assert(part@.take(part@.len() as int) =~= part@);
                assert(ps.take(i + 1).drop_last() =~= ps.take(i as int));
                assert(ps.take(i + 1).last() == ps[i as int]);
            }
            i = i + 1;
        }
        proof {
            assert(ps.take(parts@.len() as int) =~= ps);
        }
        FileData::new(BlobData::new(data, mime_type), file_name, last_modified)
    }

    /// `File.prototype.slice(start, end, contentType)`: a new file with the
    /// selected bytes, the same name and modification time, and the given
    /// type (the file's own type when none is given).
    pub fn slice(
        file: &FileData,
        start: Option<IntegerOrInfinity>,
        end: Option<IntegerOrInfinity>,
        content_type: Option<String>,
    ) -> (r: FileData)
        ensures
            ({
                let len = file.blob_spec().bytes().len() as int;
                let s = relative_index(start, len, 0);
                let e = relative_index(end, len, len);
                r.blob_spec().bytes() == slice_bytes(file.blob_spec().bytes(), s, e)
            }),
            r.blob_spec().mime() == match content_type {
                Some(t) => t@,
                None => file.blob_spec().mime(),
            },
            r.name_spec() == file.name_spec(),
            r.modified_spec() == file.modified_spec(),
    {
        let bytes = file.blob_data.data();
        let len = file.blob_data.size();
        let s = resolve_slice_index(start, len, 0);
        let e = resolve_slice_index(end, len, len);
        let ct = match content_type {
            Some(t) => t,
            None => file.blob_data.mime_type().to_owned(),
        };
        let mut out: Vec<u8> = Vec::new();
        if s < e {
            let mut k: usize = s;
            while k < e
                invariant
                    s <= k <= e,
                    e <= bytes@.len(),
                    out@ == bytes@.subrange(s as int, k as int),
                decreases e - k,
            {
                out.push(bytes[k]);
                proof {
                    assert(out@ =~= bytes@.subrange(s as int, k + 1));
                }
                k = k + 1;
            }
        }
        FileData::new(BlobData::new(out, ct), file.name.clone(), Some(file.last_modified))
    }
}

} // verus!
