use vstd::prelude::*;
use vstd::utf8::{valid_utf8, decode_utf8};
use crate::blob::Blob;
use crate::errors::StoreError;
use crate::text::str_eq;
use crate::tree::{Tree, parse_entries, entries_correspond, render_chars, names_chars, SpecEntry};

verus! {

/// A typed object: a closed tagged union over the two variants, matched
/// exhaustively at every consumption site.
#[derive(Debug, PartialEq)]
pub enum Object {
    Blob(Blob),
    Tree(Tree),
}

/// The type tag an object carries in its record header.
pub open spec fn type_tag_chars(o: Object) -> Seq<char> {
    match o {
        Object::Blob(_) => "blob"@,
        Object::Tree(_) => "tree"@,
    }
}

/// The raw content bytes an object owns.
pub open spec fn raw_content(o: Object) -> Seq<u8> {
    match o {
        Object::Blob(b) => b.content@,
        Object::Tree(t) => t.content@,
    }
}

/// Anything that renders itself as text, with a failure kind where the
/// rendering is impossible.
pub trait GetContent {
    /// The text this value renders to, or the error it reports.
    spec fn content_result(&self) -> Result<Seq<char>, StoreError>;

    /// Renders the value: returns exactly `content_result`.
    fn get_content(&self) -> (r: Result<String, StoreError>)
        ensures
            (r matches Ok(s) ==> self.content_result() matches Ok(cs) && s@ == cs),
            (r matches Err(e) ==> self.content_result() == Err::<Seq<char>, StoreError>(e)),
    ;
}

impl Object {
    /// Builds the variant named by `type_str` around the content bytes:
    /// `blob` wraps them, `tree` parses them as a tree body (failures there
    /// propagate unchanged), and any other tag is `UnrecognizedType`.
    pub fn new(type_str: &str, content: Vec<u8>) -> (r: Result<Self, StoreError>)
        ensures
            type_str@ == "blob"@ ==> (r matches Ok(o) && (o matches Object::Blob(b) && b.content@
                == content@)),
            type_str@ == "tree"@ ==> (match parse_entries(content@) {
                Ok(se) => r matches Ok(o) && (o matches Object::Tree(t) && t.content@ == content@
                    && entries_correspond(se, t.tree_entries@)),
                Err(e) => r == Err::<Object, StoreError>(e),
            }),
            (type_str@ != "blob"@ && type_str@ != "tree"@) ==> r == Err::<Object, StoreError>(
                StoreError::UnrecognizedType,
            ),
    {
        proof {
            reveal_strlit("blob");
            reveal_strlit("tree");
            assert("blob"@[0] != "tree"@[0]);
        }
        if str_eq(type_str, "blob") {
            Ok(Object::Blob(Blob::new(content)))
        } else if str_eq(type_str, "tree") {
            match Tree::new(content) {
                Ok(t) => Ok(Object::Tree(t)),
                Err(e) => Err(e),
            }
        } else {
            Err(StoreError::UnrecognizedType)
        }
    }

    /// The object's type tag: `blob` or `tree`. Pure, no failure mode.
    pub fn get_type(&self) -> (r: &'static str)
        ensures
            r@ == type_tag_chars(*self),
    {
        match self {
            Object::Blob(_) => "blob",
            Object::Tree(_) => "tree",
        }
    }

    /// The names of a tree's entries, newline-terminated in stored order;
    /// fails with `NotATree` exactly when the object is a blob.
    pub fn get_names(&self) -> (r: Result<String, StoreError>)
        ensures
            (match *self {
                Object::Blob(_) => r == Err::<String, StoreError>(StoreError::NotATree),
                Object::Tree(t) => r matches Ok(s) && s@ == names_chars(t.tree_entries@),
            }),
    {
        match self {
            Object::Blob(_) => Err(StoreError::NotATree),
            Object::Tree(t) => Ok(t.get_names()),
        }
    }

    /// The raw content bytes the object owns.
    pub fn get_raw_content(&self) -> (r: &Vec<u8>)
        ensures
            r@ == raw_content(*self),
    {
        match self {
            Object::Blob(b) => &b.content,
            Object::Tree(t) => &t.content,
        }
    }
}

impl GetContent for Object {
    /// A blob renders as the UTF-8 decoding of its bytes; a tree renders
    /// one line per entry.
    open spec fn content_result(&self) -> Result<Seq<char>, StoreError> {
        match *self {
            Object::Blob(b) => if valid_utf8(b.content@) {
                Ok(decode_utf8(b.content@))
            } else {
                Err(StoreError::InvalidEncoding)
            },
            Object::Tree(t) => Ok(render_chars(t.tree_entries@)),
        }
    }

    fn get_content(&self) -> (r: Result<String, StoreError>) {
        match self {
            Object::Blob(blob) => blob.get_content_string(),
            Object::Tree(tree) => tree.get_content_string(),
        }
    }
}

} // verus!
