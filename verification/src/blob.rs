use vstd::prelude::*;
use vstd::utf8::{valid_utf8, decode_utf8};
use crate::errors::StoreError;
use crate::text::utf8_decode;

verus! {

/// A blob: opaque byte content, not necessarily valid text.
#[derive(Debug, PartialEq)]
pub struct Blob {
    pub content: Vec<u8>,
}

impl Blob {
    /// Wraps raw bytes as a blob.
    pub fn new(content: Vec<u8>) -> (r: Self)
        ensures
            r.content@ == content@,
    {
        Self { content }
    }

    /// The blob's content as text: the UTF-8 decoding of its bytes, or
    /// `InvalidEncoding` exactly when they are not valid UTF-8. A
    /// best-effort textual view; binary blobs are rejected, not mangled.
    pub fn get_content_string(&self) -> (r: Result<String, StoreError>)
        ensures
            (r matches Ok(s) ==> valid_utf8(self.content@) && s@ == decode_utf8(self.content@)),
            (r matches Err(e) ==> !valid_utf8(self.content@) && e == StoreError::InvalidEncoding),
    {
        utf8_decode(self.content.as_slice())
    }
}

} // verus!
