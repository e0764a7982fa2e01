use vstd::prelude::*;
use vstd::string::{StringExecFns, StrSliceExecFns};
use crate::errors::{StoreError, message_chars};

verus! {

/// The two-level storage path of a digest, relative to the store root:
/// `objects/` then the first two characters, a slash, and the remaining 38.
pub open spec fn path_chars(digest: Seq<char>) -> Seq<char> {
    "objects/"@ + digest.subrange(0, 2) + "/"@ + digest.subrange(2, 40)
}

/// The same path below the repository metadata directory.
pub open spec fn object_path_chars(digest: Seq<char>) -> Seq<char> {
    ".git/"@ + path_chars(digest)
}

/// Maps a digest to the storage path of its object, relative to the store
/// root. Succeeds exactly on 40-character input; no further character-set
/// validation is performed.
pub fn resolve(digest: &str) -> (r: Result<String, StoreError>)
    ensures
        digest@.len() == 40 ==> (r matches Ok(p) && p@ == path_chars(digest@)),
        digest@.len() != 40 ==> (r matches Err(e) && e == StoreError::InvalidDigest),
{
    let n = digest.unicode_len();
    if n != 40 {
        return Err(StoreError::InvalidDigest);
    }
    let first = digest.substring_char(0, 2);
    let rest = digest.substring_char(2, 40);
    let mut p = String::from_str("objects/");
    p.append(first);
    p.append("/");
    p.append(rest);
    proof {
        assert(p@ =~= path_chars(digest@));
    }
    Ok(p)
}

/// Maps a digest to the full path of its object file, below `.git/`.
/// Succeeds exactly on 40-character input.
pub fn get_object_path(sha: &str) -> (r: Result<String, &'static str>)
    ensures
        sha@.len() == 40 ==> (r matches Ok(p) && p@ == object_path_chars(sha@)),
        sha@.len() != 40 ==> (r matches Err(e) && e@ == message_chars(StoreError::InvalidDigest)),
{
    match resolve(sha) {
        Ok(rel) => {
            let mut p = String::from_str(".git/");
            p.append(rel.as_str());
            proof {
                assert(p@ =~= object_path_chars(sha@));
            }
            Ok(p)
        },
        Err(_) => Err("file sha is invalid. Needs to be 40 char"),
    }
}

/// How a command learns where an object lives. Each implementation fixes at
/// the specification level what it maps a digest to; the store's resolver is
/// the canonical implementation, and tests may substitute their own.
pub trait ObjectPathGetter {
    /// The path, or the error text, this resolver yields for a digest.
    spec fn path_result(&self, sha: Seq<char>) -> Result<Seq<char>, Seq<char>>;

    /// Maps a digest to the path its object would be stored at: exactly what
    /// `path_result` states.
    fn get_object_path(&self, sha: &str) -> (r: Result<String, &'static str>)
        ensures
            (r matches Ok(p) ==> self.path_result(sha@) matches Ok(q) && p@ == q),
            (r matches Err(e) ==> self.path_result(sha@) matches Err(q) && e@ == q),
    ;
}

/// The resolver that derives the path from the digest itself.
pub struct ActualObjectPathGetter {}

impl ObjectPathGetter for ActualObjectPathGetter {
    /// The full object path below `.git/` for a 40-character digest, the
    /// invalid-digest message otherwise.
    open spec fn path_result(&self, sha: Seq<char>) -> Result<Seq<char>, Seq<char>> {
        if sha.len() == 40 {
            Ok(object_path_chars(sha))
        } else {
            Err(message_chars(StoreError::InvalidDigest))
        }
    }

    fn get_object_path(&self, sha: &str) -> (r: Result<String, &'static str>) {
        get_object_path(sha)
    }
}

} // verus!
