//! The byte contents and MIME type a `Blob` (and so a `File`) carries.
use vstd::prelude::*;

verus! {

/// Blob contents: its bytes and its MIME type.
pub struct BlobData {
    data: Vec<u8>,
    mime_type: String,
}

impl BlobData {
    pub closed spec fn bytes(&self) -> Seq<u8> {
        self.data@
    }

    pub closed spec fn mime(&self) -> Seq<char> {
        self.mime_type@
    }

    /// A blob holding `data`, of type `mime_type`.
    pub fn new(data: Vec<u8>, mime_type: String) -> (b: Self)
        ensures
            b.bytes() == data@,
            b.mime() == mime_type@,
    {
        BlobData { data, mime_type }
    }

    /// The bytes.
    pub fn data(&self) -> (r: &Vec<u8>)
        ensures
            r@ == self.bytes(),
    {
        &self.data
    }

    /// The number of bytes.
    pub fn size(&self) -> (n: usize)
        ensures
            n == self.bytes().len(),
    {
        self.data.len()
    }

    /// The MIME type.
    pub fn mime_type(&self) -> (r: &str)
        ensures
            r@ == self.mime(),
    {
        self.mime_type.as_str()
    }
}

} // verus!
