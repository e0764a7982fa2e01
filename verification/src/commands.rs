use vstd::prelude::*;
use vstd::string::StringExecFns;
use vstd::utf8::{valid_utf8, decode_utf8};
use crate::blob::Blob;
use crate::compress::{decompress, deflate_of, inflate_of};
use crate::digest::digest_chars;
use crate::errors::{StoreError, message_chars};
use crate::object::{Object, GetContent};
use crate::paths::{ObjectPathGetter, get_object_path, object_path_chars};
use crate::record::{GitObject, decode_post, record_parts, record_bytes, blob_tag, tree_tag,
    write_object};
use crate::text::str_eq;
use crate::tree::{names_chars, render_chars, names_parsed, render_parsed, parse_entries,
    lemma_listing_of_parsed};

verus! {

/// A parsed command line: which operation to run and its arguments, borrowed
/// from the argument vector.
#[derive(Debug)]
pub enum GitCommand<'a> {
    CatFile { sha: &'a str, flag: &'a str },
    HashObject { file_path: &'a str, flag: Option<&'a str> },
    LsTree { sha: &'a str, flag: Option<&'a str> },
    Init,
}

impl<'a> GitCommand<'a> {
    /// Reads a command from the argument vector: the word after the program
    /// name selects the operation, the remaining words fill its fields.
    pub fn from_args(args: &'a Vec<String>) -> (r: Result<Self, String>)
        requires
            args@.len() >= 2,
            args@[1]@ == "hash-object"@ ==> args@.len() >= 3,
            args@[1]@ == "ls-tree"@ ==> args@.len() >= 3,
        ensures
            args@[1]@ == "init"@ ==> (r matches Ok(c) && c is Init),
            args@[1]@ == "cat-file"@ ==> (if args@.len() != 4 {
                r matches Err(e) && e@ == "usage: git cat-file -p <object_sha>"@
            } else {
                r matches Ok(c) && (c matches GitCommand::CatFile { sha, flag } && sha@ == args@[3]@
                    && flag@ == args@[2]@)
            }),
            args@[1]@ == "hash-object"@ ==> (if args@.len() == 3 {
                r matches Ok(c) && (c matches GitCommand::HashObject { file_path, flag }
                    && file_path@ == args@[2]@ && flag is None)
            } else {
                r matches Ok(c) && (c matches GitCommand::HashObject { file_path, flag }
                    && file_path@ == args@[3]@ && (flag matches Some(f) && f@ == args@[2]@))
            }),
            args@[1]@ == "ls-tree"@ ==> (if args@.len() == 3 {
                r matches Ok(c) && (c matches GitCommand::LsTree { sha, flag } && sha@ == args@[2]@
                    && flag is None)
            } else {
                r matches Ok(c) && (c matches GitCommand::LsTree { sha, flag } && sha@ == args@[3]@
                    && (flag matches Some(f) && f@ == args@[2]@))
            }),
            (args@[1]@ != "init"@ && args@[1]@ != "cat-file"@ && args@[1]@ != "hash-object"@
                && args@[1]@ != "ls-tree"@) ==> (r matches Err(e) && e@
                == "not a recognized git command"@),
    {
        proof {
            reveal_strlit("init");
            reveal_strlit("cat-file");
            reveal_strlit("hash-object");
            reveal_strlit("ls-tree");
            assert("init"@.len() == 4);
            assert("cat-file"@.len() == 8);
            assert("hash-object"@.len() == 11);
            assert("ls-tree"@.len() == 7);
        }
        let selector = args[1].as_str();
        if str_eq(selector, "init") {
            Ok(GitCommand::Init)
        } else if str_eq(selector, "cat-file") {
            if args.len() != 4 {
                return Err(String::from_str("usage: git cat-file -p <object_sha>"));
            }
            Ok(GitCommand::CatFile { flag: args[2].as_str(), sha: args[3].as_str() })
        } else if str_eq(selector, "hash-object") {
            if args.len() == 3 {
                Ok(GitCommand::HashObject { file_path: args[2].as_str(), flag: None })
            } else {
                Ok(GitCommand::HashObject {
                    file_path: args[3].as_str(),
                    flag: Some(args[2].as_str()),
                })
            }
        } else if str_eq(selector, "ls-tree") {
            if args.len() == 3 {
                Ok(GitCommand::LsTree { sha: args[2].as_str(), flag: None })
            } else {
                Ok(GitCommand::LsTree { sha: args[3].as_str(), flag: Some(args[2].as_str()) })
            }
        } else {
            Err(String::from_str("not a recognized git command"))
        }
    }
}

/// What showing stored object bytes yields: the rendering of the decoded
/// object, or the error of the first failing stage — inflation, record
/// decoding, or a blob that is not valid text.
pub open spec fn cat_file_result(bytes: Seq<u8>) -> Result<Seq<char>, StoreError> {
    match inflate_of(bytes) {
        None => Err(StoreError::CorruptStream),
        Some(record) => match record_parts(record) {
            Err(e) => Err(e),
            Ok((tag, size, content)) => {
                if tag == blob_tag() {
                    if valid_utf8(content) {
                        Ok(decode_utf8(content))
                    } else {
                        Err(StoreError::InvalidEncoding)
                    }
                } else if tag == tree_tag() {
                    match parse_entries(content) {
                        Err(e) => Err(e),
                        Ok(se) => Ok(render_parsed(se)),
                    }
                } else {
                    Err(StoreError::UnrecognizedType)
                }
            },
        },
    }
}

/// What listing stored tree bytes yields: the names or the full lines of the
/// decoded tree, `NotATree` for a stored blob, or the error of the failing
/// stage.
pub open spec fn ls_tree_result(bytes: Seq<u8>, name_only: bool) -> Result<Seq<char>, StoreError> {
    match inflate_of(bytes) {
        None => Err(StoreError::CorruptStream),
        Some(record) => match record_parts(record) {
            Err(e) => Err(e),
            Ok((tag, size, content)) => {
                if tag == blob_tag() {
                    Err(StoreError::NotATree)
                } else if tag == tree_tag() {
                    match parse_entries(content) {
                        Err(e) => Err(e),
                        Ok(se) => Ok(
                            if name_only {
                                names_parsed(se)
                            } else {
                                render_parsed(se)
                            },
                        ),
                    }
                } else {
                    Err(StoreError::UnrecognizedType)
                }
            },
        },
    }
}

/// A record that fails to decode fixes both command outputs to that error.
proof fn lemma_decode_err_result(bytes: Seq<u8>, record: Seq<u8>, e: StoreError)
    requires
        inflate_of(bytes) == Some(record),
        decode_post(record, Err(e)),
    ensures
        cat_file_result(bytes) == Err::<Seq<char>, StoreError>(e),
        ls_tree_result(bytes, true) == Err::<Seq<char>, StoreError>(e),
        ls_tree_result(bytes, false) == Err::<Seq<char>, StoreError>(e),
{
}

/// A record that decodes fixes both command outputs in terms of the decoded
/// object: its rendering for `cat_file`, its listing — or `NotATree` — for
/// `ls_tree`.
proof fn lemma_decode_ok_result(bytes: Seq<u8>, record: Seq<u8>, g: GitObject)
    requires
        inflate_of(bytes) == Some(record),
        decode_post(record, Ok(g)),
    ensures
        cat_file_result(bytes) == (match g.content_result() {
            Ok(cs) => Ok::<Seq<char>, StoreError>(cs),
            Err(e) => Err::<Seq<char>, StoreError>(e),
        }),
        (g.object matches Object::Tree(t) ==> ls_tree_result(bytes, true) == Ok::<
            Seq<char>,
            StoreError,
        >(names_chars(t.tree_entries@)) && ls_tree_result(bytes, false) == Ok::<
            Seq<char>,
            StoreError,
        >(render_chars(t.tree_entries@))),
        (g.object matches Object::Blob(b) ==> ls_tree_result(bytes, true) == Err::<
            Seq<char>,
            StoreError,
        >(StoreError::NotATree) && ls_tree_result(bytes, false) == Err::<Seq<char>, StoreError>(
            StoreError::NotATree,
        )),
{
    match record_parts(record) {
        Ok(parts) => {
            if parts.0 == tree_tag() {
                match parse_entries(parts.2) {
                    Ok(se) => {
                        match g.object {
                            Object::Tree(t) => {
                                lemma_listing_of_parsed(se, t.tree_entries@);
                            },
                            Object::Blob(_) => {},
                        }
                    },
                    Err(_) => {},
                }
            }
        },
        Err(_) => {},
    }
}

/// Shows a stored object: validates the flag, consults the resolver for the
/// object's path, then inflates, decodes and renders the stored bytes the
/// caller read from that path (`None` where the file could not be read).
/// Exact on every input: the bad-flag message on any other flag; otherwise
/// the resolver's error propagated, the not-found message where no bytes
/// were at hand, and else precisely `cat_file_result` of the bytes, with
/// each failure kind's message.
pub fn cat_file<O: ObjectPathGetter>(
    sha: &str,
    flag: &str,
    object_path_getter: &O,
    stored: Option<&Vec<u8>>,
) -> (r: Result<String, String>)
    ensures
        flag@ != "-p"@ ==> (r matches Err(e) && e@ == "flag not recognized. Available flags: -p"@),
        (flag@ == "-p"@ && object_path_getter.path_result(sha@) is Err ==> (r matches Err(e) && e@
            == object_path_getter.path_result(sha@)->Err_0)),
        ((flag@ == "-p"@ && object_path_getter.path_result(sha@) is Ok) ==> (match stored {
            None => r matches Err(e) && e@ == message_chars(StoreError::NotFoundOrUnreadable),
            Some(b) => (match cat_file_result(b@) {
                Ok(out) => r matches Ok(s) && s@ == out,
                Err(k) => r matches Err(e) && e@ == message_chars(k),
            }),
        })),
{
    if !str_eq(flag, "-p") {
        return Err(String::from_str("flag not recognized. Available flags: -p"));
    }
    let _object_path = match object_path_getter.get_object_path(sha) {
        Ok(p) => p,
        Err(e) => {
            return Err(String::from_str(e));
        },
    };
    let bytes = match stored {
        Some(b) => b,
        None => {
            return Err(StoreError::NotFoundOrUnreadable.message());
        },
    };
    let record = match decompress(bytes) {
        Ok(d) => d,
        Err(e) => {
            return Err(e.message());
        },
    };
    let git_object = match GitObject::from_object_file_buffer(&record) {
        Ok(g) => g,
        Err(e) => {
            proof {
                lemma_decode_err_result(bytes@, record@, e);
            }
            return Err(e.message());
        },
    };
    let ghost gg = git_object;
    proof {
        lemma_decode_ok_result(bytes@, record@, gg);
    }
    match git_object.get_content() {
        Ok(s) => Ok(s),
        Err(e) => Err(e.message()),
    }
}

/// The listing flag is acceptable: absent, or exactly `--name-only`.
pub open spec fn ls_flag_ok(flag: Option<&str>) -> bool {
    match flag {
        None => true,
        Some(f) => f@ == "--name-only"@,
    }
}

/// Lists a stored tree: validates the flag, consults the resolver, then
/// inflates and decodes the stored bytes the caller read from the resolved
/// path and lists the tree's entries — names only under `--name-only`, full
/// lines otherwise. Exact on every input: the bad-flag message on any other
/// flag; otherwise the resolver's error propagated, the not-found message
/// where no bytes were at hand, and else precisely `ls_tree_result` of the
/// bytes — a stored blob rejected with the not-a-tree message, every other
/// failure kind with its own.
pub fn ls_tree<O: ObjectPathGetter>(
    sha: &str,
    flag: &Option<&str>,
    object_path_getter: &O,
    stored: Option<&Vec<u8>>,
) -> (r: Result<String, String>)
    ensures
        ((*flag) matches Some(f) && f@ != "--name-only"@ ==> (r matches Err(e) && e@
            == "flag no recognized. Available flags: --name-only"@)),
        (ls_flag_ok(*flag) && object_path_getter.path_result(sha@) is Err ==> (r matches Err(e)
            && e@ == object_path_getter.path_result(sha@)->Err_0)),
        ((ls_flag_ok(*flag) && object_path_getter.path_result(sha@) is Ok) ==> (match stored {
            None => r matches Err(e) && e@ == message_chars(StoreError::NotFoundOrUnreadable),
            Some(b) => (match ls_tree_result(b@, (*flag) is Some) {
                Ok(out) => r matches Ok(s) && s@ == out,
                Err(k) => r matches Err(e) && e@ == message_chars(k),
            }),
        })),
{
    let name_only = match flag {
        Some(f) => {
            if !str_eq(f, "--name-only") {
                return Err(String::from_str("flag no recognized. Available flags: --name-only"));
            }
            true
        },
        None => false,
    };
    let _object_path = match object_path_getter.get_object_path(sha) {
        Ok(p) => p,
        Err(e) => {
            return Err(String::from_str(e));
        },
    };
    let bytes = match stored {
        Some(b) => b,
        None => {
            return Err(StoreError::NotFoundOrUnreadable.message());
        },
    };
    let record = match decompress(bytes) {
        Ok(d) => d,
        Err(e) => {
            return Err(e.message());
        },
    };
    let git_object = match GitObject::from_object_file_buffer(&record) {
        Ok(g) => g,
        Err(e) => {
            proof {
                lemma_decode_err_result(bytes@, record@, e);
            }
            return Err(e.message());
        },
    };
    let ghost gg = git_object;
    proof {
        lemma_decode_ok_result(bytes@, record@, gg);
    }
    let to_print = match git_object.object {
        Object::Blob(_) => {
            return Err(StoreError::NotATree.message());
        },
        Object::Tree(tree) => {
            if name_only {
                tree.get_names()
            } else {
                match tree.get_content_string() {
                    Ok(s) => s,
                    Err(e) => {
                        return Err(e.message());
                    },
                }
            }
        },
    };
    Ok(to_print)
}

/// The computing core of hashing a file as a blob: validates the flag,
/// builds the blob record and its digest, and — under `-w` — also the
/// storage path and the compressed bytes for the caller to persist.
/// Succeeds exactly when the flag is absent or `-w`, and then always
/// returns the digest.
pub fn hash_object(contents: Vec<u8>, flag: &Option<&str>) -> (r: Result<
    (String, Option<(String, Vec<u8>)>),
    String,
>)
    ensures
        ((*flag) matches Some(f) && f@ != "-w"@ ==> (r matches Err(e) && e@
            == "flag not recognized, Available flags: -w"@)),
        (((*flag) is None || ((*flag) matches Some(f) && f@ == "-w"@)) ==> r is Ok),
        (r matches Ok(p) ==> {
            &&& p.0@ == digest_chars(record_bytes(blob_tag(), contents@))
            &&& p.0@.len() == 40
            &&& ((*flag) is None ==> p.1 is None)
            &&& ((*flag) matches Some(f) ==> (p.1 matches Some(w) && w.0@ == object_path_chars(
                digest_chars(record_bytes(blob_tag(), contents@)),
            ) && w.1@ == deflate_of(record_bytes(blob_tag(), contents@)) && inflate_of(w.1@)
                == Some(record_bytes(blob_tag(), contents@))))
        }),
{
    let should_write = match flag {
        Some(f) => {
            if !str_eq(f, "-w") {
                return Err(String::from_str("flag not recognized, Available flags: -w"));
            }
            true
        },
        None => false,
    };
    let object = Object::Blob(Blob::new(contents));
    let (sha, compressed) = write_object(&object);
    if !should_write {
        return Ok((sha, None));
    }
    let object_file_path = match get_object_path(sha.as_str()) {
        Ok(p) => p,
        Err(e) => {
            return Err(String::from_str(e));
        },
    };
    Ok((sha, Some((object_file_path, compressed))))
}

} // verus!
