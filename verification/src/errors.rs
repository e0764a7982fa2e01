use vstd::prelude::*;

verus! {

/// Every failure the store can report. Each parsing, codec or lookup step
/// returns one of these kinds rather than aborting; callers choose how to
/// present it.
#[derive(Clone, Copy, Debug, PartialEq, Eq, Structural)]
pub enum StoreError {
    /// A digest string is not exactly 40 characters.
    InvalidDigest,
    /// The underlying object file is missing or unreadable.
    NotFoundOrUnreadable,
    /// Decompression failed on malformed or truncated compressed bytes.
    CorruptStream,
    /// A record has no NUL header terminator.
    MalformedRecord,
    /// A record's header size field is not a valid non-negative integer,
    /// or does not equal the length of the content that follows the header.
    InvalidSize,
    /// A record's header type token is neither `blob` nor `tree`.
    UnrecognizedType,
    /// A tree entry has no space-terminated mode token.
    InvalidMode,
    /// A tree entry's mode token is not one of the four canonical forms.
    UnrecognizedMode,
    /// A tree entry's name has no NUL terminator.
    InvalidName,
    /// A tree entry's name is empty.
    EmptyName,
    /// Fewer than 20 bytes remain for a tree entry's child id.
    TruncatedDigest,
    /// Blob content is not valid UTF-8 when a textual render is requested.
    InvalidEncoding,
    /// A tree-only operation was invoked on a blob.
    NotATree,
}

/// The text of each error kind, as a spec-level character sequence.
pub open spec fn message_chars(e: StoreError) -> Seq<char> {
    match e {
        StoreError::InvalidDigest => "file sha is invalid. Needs to be 40 char"@,
        StoreError::NotFoundOrUnreadable => "object file missing or unreadable"@,
        StoreError::CorruptStream => "error decompressing object file"@,
        StoreError::MalformedRecord => "not a valid git object file"@,
        StoreError::InvalidSize => "error parsing object size"@,
        StoreError::UnrecognizedType => "Object type not recognized"@,
        StoreError::InvalidMode => "Invalid mode"@,
        StoreError::UnrecognizedMode => "tree entry mode string not recognized"@,
        StoreError::InvalidName => "Invalid name"@,
        StoreError::EmptyName => "Name missing"@,
        StoreError::TruncatedDigest => "Invalid sha: start position"@,
        StoreError::InvalidEncoding => "error parsing blob content"@,
        StoreError::NotATree => "not a tree object"@,
    }
}

impl StoreError {
    /// A human-readable description of the error, for the command layer.
    pub fn message(&self) -> (r: String)
        ensures
            r@ == message_chars(*self),
    {
        match self {
            StoreError::InvalidDigest => String::from_str("file sha is invalid. Needs to be 40 char"),
            StoreError::NotFoundOrUnreadable => String::from_str("object file missing or unreadable"),
            StoreError::CorruptStream => String::from_str("error decompressing object file"),
            StoreError::MalformedRecord => String::from_str("not a valid git object file"),
            StoreError::InvalidSize => String::from_str("error parsing object size"),
            StoreError::UnrecognizedType => String::from_str("Object type not recognized"),
            StoreError::InvalidMode => String::from_str("Invalid mode"),
            StoreError::UnrecognizedMode => String::from_str("tree entry mode string not recognized"),
            StoreError::InvalidName => String::from_str("Invalid name"),
            StoreError::EmptyName => String::from_str("Name missing"),
            StoreError::TruncatedDigest => String::from_str("Invalid sha: start position"),
            StoreError::InvalidEncoding => String::from_str("error parsing blob content"),
            StoreError::NotATree => String::from_str("not a tree object"),
        }
    }
}

} // verus!
