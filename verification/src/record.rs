use vstd::prelude::*;
use vstd::string::StrSliceExecFns;
use crate::compress::{compress, decompress, deflate_of, inflate_of};
use crate::digest::{digest_chars, sha1_hex};
use crate::errors::StoreError;
use crate::object::{Object, GetContent, raw_content};
use crate::paths::path_chars;
use crate::text::{dec_digits, dec_value, is_dec_digits, parse_dec, usize_to_dec};
use crate::tree::{find_byte, find_byte_from, parse_entries, entries_correspond};

verus! {

/// The record header tag of a blob, as ASCII bytes (`blob`).
pub open spec fn blob_tag() -> Seq<u8> {
    seq![98u8, 108u8, 111u8, 98u8]
}

/// The record header tag of a tree, as ASCII bytes (`tree`).
pub open spec fn tree_tag() -> Seq<u8> {
    seq![116u8, 114u8, 101u8, 101u8]
}

/// The header tag an object serializes with.
pub open spec fn tag_bytes(o: Object) -> Seq<u8> {
    match o {
        Object::Blob(_) => blob_tag(),
        Object::Tree(_) => tree_tag(),
    }
}

/// The record bytes of tagged content: `tag SP size NUL content`, the size
/// in decimal.
pub open spec fn record_bytes(tag: Seq<u8>, content: Seq<u8>) -> Seq<u8> {
    tag + seq![32u8] + dec_digits(content.len()) + seq![0u8] + content
}

/// Splits a record into tag, declared size and content. Fails with
/// `MalformedRecord` when no NUL terminates the header, and with
/// `InvalidSize` when the size field is missing, is not a plain decimal
/// number, or does not equal the content's length.
pub open spec fn record_parts(buf: Seq<u8>) -> Result<(Seq<u8>, nat, Seq<u8>), StoreError> {
    match find_byte(buf, 0u8) {
        None => Err(StoreError::MalformedRecord),
        Some(nul) => {
            let header = buf.take(nul);
            let content = buf.skip(nul + 1);
            match find_byte(header, 32u8) {
                None => Err(StoreError::InvalidSize),
                Some(sp) => {
                    let tag = header.take(sp);
                    let digits = header.skip(sp + 1);
                    if !(is_dec_digits(digits) && dec_value(digits) <= usize::MAX) {
                        Err(StoreError::InvalidSize)
                    } else if dec_value(digits) != content.len() {
                        Err(StoreError::InvalidSize)
                    } else {
                        Ok((tag, dec_value(digits), content))
                    }
                },
            }
        },
    }
}

/// A decoded record: the declared content size and the typed object.
#[derive(Debug)]
pub struct GitObject {
    pub size: usize,
    pub object: Object,
}

/// What decoding a record buffer must yield: the header split per
/// `record_parts`, then the object built from the tag and content, with
/// tree bodies parsed and every failure passed through unchanged.
pub open spec fn decode_post(buf: Seq<u8>, r: Result<GitObject, StoreError>) -> bool {
    match record_parts(buf) {
        Err(e) => r == Err::<GitObject, StoreError>(e),
        Ok((tag, size, content)) => {
            if tag == blob_tag() {
                r matches Ok(g) && g.size == size && (g.object matches Object::Blob(b)
                    && b.content@ == content)
            } else if tag == tree_tag() {
                match parse_entries(content) {
                    Ok(se) => r matches Ok(g) && g.size == size && (g.object matches Object::Tree(
                        t,
                    ) && t.content@ == content && entries_correspond(se, t.tree_entries@)),
                    Err(e) => r == Err::<GitObject, StoreError>(e),
                }
            } else {
                r == Err::<GitObject, StoreError>(StoreError::UnrecognizedType)
            }
        },
    }
}

/// `tt` is the blob tag.
fn is_blob_tag(tt: &[u8]) -> (r: bool)
    ensures
        r == (tt@ == blob_tag()),
{
    if tt.len() != 4 {
        return false;
    }
    let r = *vstd::slice::slice_index_get(tt, 0) == 98 && *vstd::slice::slice_index_get(tt, 1)
        == 108 && *vstd::slice::slice_index_get(tt, 2) == 111 && *vstd::slice::slice_index_get(
        tt,
        3,
    ) == 98;
    proof {
        if r {
            assert(tt@ =~= blob_tag());
        }
    }
    r
}

/// `tt` is the tree tag.
fn is_tree_tag(tt: &[u8]) -> (r: bool)
    ensures
        r == (tt@ == tree_tag()),
{
    if tt.len() != 4 {
        return false;
    }
    let r = *vstd::slice::slice_index_get(tt, 0) == 116 && *vstd::slice::slice_index_get(tt, 1)
        == 114 && *vstd::slice::slice_index_get(tt, 2) == 101 && *vstd::slice::slice_index_get(
        tt,
        3,
    ) == 101;
    proof {
        if r {
            assert(tt@ =~= tree_tag());
        }
    }
    r
}

impl GitObject {
    /// Pairs a declared size with a typed object.
    pub fn new(size: usize, object_type: Object) -> (r: Self)
        ensures
            r.size == size,
            r.object == object_type,
    {
        Self { size, object: object_type }
    }

    /// Decodes a record buffer: header up to the NUL, tag and decimal size
    /// split on the space, size checked against the content, then the typed
    /// object built from the content.
    pub fn from_object_file_buffer(file_buffer: &Vec<u8>) -> (r: Result<Self, StoreError>)
        ensures
            decode_post(file_buffer@, r),
    {
        let buf = file_buffer.as_slice();
        let buf_len = buf.len();
        proof {
            assert(file_buffer@.skip(0) =~= file_buffer@);
        }
        let nul = match find_byte_from(buf, 0, 0) {
            Some(i) => i,
            None => {
                return Err(StoreError::MalformedRecord);
            },
        };
        let header = vstd::slice::slice_subrange(buf, 0, nul);
        proof {
            assert(header@ =~= file_buffer@.take(nul as int));
            assert(header@.skip(0) =~= header@);
        }
        let sp = match find_byte_from(header, 0, 32) {
            Some(i) => i,
            None => {
                return Err(StoreError::InvalidSize);
            },
        };
        let digits = vstd::slice::slice_subrange(header, sp + 1, nul);
        proof {
            assert(digits@ =~= header@.skip(sp + 1 as int));
        }
        let size = match parse_dec(digits) {
            Some(v) => v,
            None => {
                return Err(StoreError::InvalidSize);
            },
        };
        if size != buf_len - (nul + 1) {
            proof {
                assert(file_buffer@.skip(nul + 1 as int).len() == buf_len - (nul + 1));
            }
            return Err(StoreError::InvalidSize);
        }
        let content = vstd::slice::slice_to_vec(
            vstd::slice::slice_subrange(buf, nul + 1, buf_len),
        );
        proof {
            assert(content@ =~= file_buffer@.skip(nul + 1 as int));
        }
        let tag = vstd::slice::slice_subrange(header, 0, sp);
        proof {
            assert(tag@ =~= header@.take(sp as int));
        }
        let object = if is_blob_tag(tag) {
            match Object::new("blob", content) {
                Ok(o) => o,
                Err(e) => {
                    return Err(e);
                },
            }
        } else if is_tree_tag(tag) {
            proof {
                reveal_strlit("blob");
                reveal_strlit("tree");
                assert("blob"@[0] != "tree"@[0]);
            }
            match Object::new("tree", content) {
                Ok(o) => o,
                Err(e) => {
                    return Err(e);
                },
            }
        } else {
            return Err(StoreError::UnrecognizedType);
        };
        Ok(Self { size, object })
    }
}

impl GitObject {
    /// Decodes a record given as text: the same decoding, applied to the
    /// string's UTF-8 bytes.
    pub fn from_object_file_string(file_string: &str) -> (r: Result<Self, StoreError>)
        ensures
            decode_post(vstd::utf8::encode_utf8(file_string@), r),
    {
        let buffer = file_string.as_bytes_vec();
        GitObject::from_object_file_buffer(&buffer)
    }
}

impl GetContent for GitObject {
    /// A record renders as its object does.
    open spec fn content_result(&self) -> Result<Seq<char>, StoreError> {
        self.object.content_result()
    }

    fn get_content(&self) -> (r: Result<String, StoreError>) {
        self.object.get_content()
    }
}

/// Builds the record of an object: its tag, a space, the content length in
/// decimal, a NUL, then the content.
pub fn build_record(object: &Object) -> (r: Vec<u8>)
    ensures
        r@ == record_bytes(tag_bytes(*object), raw_content(*object)),
{
    let content = object.get_raw_content();
    let mut out: Vec<u8> = Vec::new();
    match object {
        Object::Blob(_) => {
            out.push(98);
            out.push(108);
            out.push(111);
            out.push(98);
            proof {
                assert(out@ =~= blob_tag());
            }
        },
        Object::Tree(_) => {
            out.push(116);
            out.push(114);
            out.push(101);
            out.push(101);
            proof {
                assert(out@ =~= tree_tag());
            }
        },
    }
    out.push(32);
    let digits = usize_to_dec(content.len());
    out.extend_from_slice(digits.as_slice());
    out.push(0);
    out.extend_from_slice(content.as_slice());
    proof {
        assert(out@ =~= record_bytes(tag_bytes(*object), raw_content(*object)));
    }
    out
}

/// Serializes an object for persistence: its record bytes, the 40-character
/// digest that identifies them, and their compressed form. The digest and
/// the compressed bytes are functions of the record alone, so writing the
/// same content twice yields the identical digest, path and stored bytes.
pub fn write_object(object: &Object) -> (r: (String, Vec<u8>))
    ensures
        r.0@ == digest_chars(record_bytes(tag_bytes(*object), raw_content(*object))),
        r.0@.len() == 40,
        r.1@ == deflate_of(record_bytes(tag_bytes(*object), raw_content(*object))),
        inflate_of(r.1@) == Some(record_bytes(tag_bytes(*object), raw_content(*object))),
{
    let record = build_record(object);
    let digest = sha1_hex(record.as_slice());
    let compressed = compress(&record);
    (digest, compressed)
}

/// Reads a stored object file: inflates the compressed bytes, then decodes
/// the record. Fails with `CorruptStream` exactly when inflation fails, and
/// as record decoding does otherwise.
pub fn read_object(compressed: &Vec<u8>) -> (r: Result<GitObject, StoreError>)
    ensures
        (match inflate_of(compressed@) {
            None => r == Err::<GitObject, StoreError>(StoreError::CorruptStream),
            Some(record) => decode_post(record, r),
        }),
{
    let record = match decompress(compressed) {
        Ok(d) => d,
        Err(e) => {
            return Err(e);
        },
    };
    GitObject::from_object_file_buffer(&record)
}

/// Idempotent persistence: the record, its digest, its storage path and its
/// compressed bytes are all functions of the object's tag and content alone,
/// so two writes of equal content produce identical results.
pub proof fn lemma_persist_idempotent(tag: Seq<u8>, c1: Seq<u8>, c2: Seq<u8>)
    requires
        c1 == c2,
    ensures
        record_bytes(tag, c1) == record_bytes(tag, c2),
        digest_chars(record_bytes(tag, c1)) == digest_chars(record_bytes(tag, c2)),
        deflate_of(record_bytes(tag, c1)) == deflate_of(record_bytes(tag, c2)),
        path_chars(digest_chars(record_bytes(tag, c1))) == path_chars(
            digest_chars(record_bytes(tag, c2)),
        ),
{
}

} // verus!
