use vstd::prelude::*;
use vstd::utf8::encode_utf8;
use crate::errors::StoreError;
use crate::hexcode::{hex_of, hex_encode, lemma_hex_of_len};

verus! {

/// What SHA-1 returns on a byte sequence: 20 bytes determined by the input
/// alone, in every process and on every machine.
pub uninterp spec fn sha1_of(data: Seq<u8>) -> Seq<u8>;

/// Relies on `sha1::Sha1` through the `digest` traits: the hash is a pure
/// function of the input bytes and is exactly 20 bytes long.
#[verifier::external_body]
fn sha1_bytes(data: &[u8]) -> (r: Vec<u8>)
    ensures
        r@ == sha1_of(data@),
        r@.len() == 20,
{
    let mut hasher = <sha1::Sha1 as sha1::Digest>::new();
    sha1::Digest::update(&mut hasher, data);
    sha1::Digest::finalize(hasher).to_vec()
}

/// The 40-character lowercase hex digest that identifies a byte sequence.
pub open spec fn digest_chars(data: Seq<u8>) -> Seq<char> {
    hex_of(sha1_of(data))
}

/// Computes the hex SHA-1 digest of the given bytes: the object identity
/// used throughout the store. Total: defined for every input length.
pub fn sha1_hex(data: &[u8]) -> (r: String)
    ensures
        r@ == digest_chars(data@),
        r@.len() == 40,
{
    let h = sha1_bytes(data);
    proof {
        lemma_hex_of_len(h@);
    }
    hex_encode(h.as_slice())
}

/// The digest is a function of the content bytes alone: equal byte sequences
/// always yield the identical 40-character digest, in every call and process.
pub proof fn lemma_digest_deterministic(a: Seq<u8>, b: Seq<u8>)
    requires
        a == b,
    ensures
        digest_chars(a) == digest_chars(b),
        digest_chars(a).len() == 40 <==> sha1_of(a).len() == 20,
{
    lemma_hex_of_len(sha1_of(a));
}

/// Anything whose bytes can be hashed into a hex digest.
pub trait ShaGetter {
    /// The bytes this value hashes.
    spec fn sha_input(&self) -> Seq<u8>;

    /// The hex SHA-1 digest of this value's bytes.
    fn get_sha(&self) -> (r: Result<String, StoreError>)
        ensures
            r matches Ok(s) && s@ == digest_chars(self.sha_input()) && s@.len() == 40,
    ;
}

impl ShaGetter for Vec<u8> {
    open spec fn sha_input(&self) -> Seq<u8> {
        self@
    }

    fn get_sha(&self) -> (r: Result<String, StoreError>) {
        Ok(sha1_hex(self.as_slice()))
    }
}

impl ShaGetter for String {
    open spec fn sha_input(&self) -> Seq<u8> {
        encode_utf8(self@)
    }

    fn get_sha(&self) -> (r: Result<String, StoreError>) {
        Ok(sha1_hex(self.as_str().as_bytes()))
    }
}

impl ShaGetter for &str {
    open spec fn sha_input(&self) -> Seq<u8> {
        encode_utf8(self@)
    }

    fn get_sha(&self) -> (r: Result<String, StoreError>) {
        Ok(sha1_hex(self.as_bytes()))
    }
}

} // verus!
