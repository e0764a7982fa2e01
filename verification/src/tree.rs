use vstd::prelude::*;
use vstd::utf8::{valid_utf8, decode_utf8};
use vstd::string::StringExecFns;
use crate::errors::StoreError;
use crate::hexcode::{hex_of, hex_encode, is_hex_lower, hex_str_to_bytes, lemma_hex_of_is_hex_lower};
use crate::text::{utf8_decode_lossy, lossy_utf8_of, ascii_chars_of, str_eq};

verus! {

/// A tree entry's permission/type tag. Each has a fixed, canonical
/// six-character token in the binary format.
#[derive(Clone, Copy, Debug, PartialEq, Eq, Structural)]
pub enum TreeEntryMode {
    RegularFile,
    ExecutableFile,
    SymbolicLink,
    Directory,
}

/// The canonical mode token as ASCII bytes: `100644`, `100755`, `120000` or
/// `040000`.
pub open spec fn mode_bytes(m: TreeEntryMode) -> Seq<u8> {
    match m {
        TreeEntryMode::RegularFile => seq![49u8, 48u8, 48u8, 54u8, 52u8, 52u8],
        TreeEntryMode::ExecutableFile => seq![49u8, 48u8, 48u8, 55u8, 53u8, 53u8],
        TreeEntryMode::SymbolicLink => seq![49u8, 50u8, 48u8, 48u8, 48u8, 48u8],
        TreeEntryMode::Directory => seq![48u8, 52u8, 48u8, 48u8, 48u8, 48u8],
    }
}

/// The canonical mode token as text.
pub open spec fn mode_chars(m: TreeEntryMode) -> Seq<char> {
    ascii_chars_of(mode_bytes(m))
}

/// Which mode a token of bytes denotes, if any: exact match against the four
/// canonical forms.
pub open spec fn mode_of_bytes(s: Seq<u8>) -> Option<TreeEntryMode> {
    if s == mode_bytes(TreeEntryMode::RegularFile) {
        Some(TreeEntryMode::RegularFile)
    } else if s == mode_bytes(TreeEntryMode::ExecutableFile) {
        Some(TreeEntryMode::ExecutableFile)
    } else if s == mode_bytes(TreeEntryMode::SymbolicLink) {
        Some(TreeEntryMode::SymbolicLink)
    } else if s == mode_bytes(TreeEntryMode::Directory) {
        Some(TreeEntryMode::Directory)
    } else {
        None
    }
}

/// Every canonical mode token is six bytes, free of space and NUL, and maps
/// back to its own mode.
pub proof fn lemma_mode_bytes_props(m: TreeEntryMode)
    ensures
        mode_bytes(m).len() == 6,
        forall|i: int| 0 <= i < 6 ==> #[trigger] mode_bytes(m)[i] != 32 && mode_bytes(m)[i] != 0,
        mode_of_bytes(mode_bytes(m)) == Some(m),
{
    assert(mode_bytes(TreeEntryMode::RegularFile)[3] == 54);
    assert(mode_bytes(TreeEntryMode::ExecutableFile)[3] == 55);
    assert(mode_bytes(TreeEntryMode::SymbolicLink)[1] == 50);
    assert(mode_bytes(TreeEntryMode::Directory)[0] == 48);
    assert(mode_bytes(TreeEntryMode::SymbolicLink)[0] == 49);
}

/// The canonical text of each mode, as string-literal views.
pub proof fn lemma_mode_chars()
    ensures
        mode_chars(TreeEntryMode::RegularFile) == "100644"@,
        mode_chars(TreeEntryMode::ExecutableFile) == "100755"@,
        mode_chars(TreeEntryMode::SymbolicLink) == "120000"@,
        mode_chars(TreeEntryMode::Directory) == "040000"@,
{
    reveal_strlit("100644");
    reveal_strlit("100755");
    reveal_strlit("120000");
    reveal_strlit("040000");
    assert(mode_chars(TreeEntryMode::RegularFile) =~= "100644"@);
    assert(mode_chars(TreeEntryMode::ExecutableFile) =~= "100755"@);
    assert(mode_chars(TreeEntryMode::SymbolicLink) =~= "120000"@);
    assert(mode_chars(TreeEntryMode::Directory) =~= "040000"@);
}

/// The byte-level content of one tree entry: the fields the binary format
/// carries, before any textual presentation.
#[verifier::ext_equal]
pub ghost struct SpecEntry {
    pub mode: TreeEntryMode,
    pub name: Seq<u8>,
    pub sha: Seq<u8>,
}

/// A well-formed entry: non-empty NUL-free name and exactly 20 id bytes.
pub open spec fn entry_wf(e: SpecEntry) -> bool {
    &&& e.name.len() > 0
    &&& !e.name.contains(0u8)
    &&& e.sha.len() == 20
}

/// The bytes one entry contributes to a tree body:
/// `mode SP name NUL id(20)`.
pub open spec fn entry_bytes(e: SpecEntry) -> Seq<u8> {
    mode_bytes(e.mode) + seq![32u8] + e.name + seq![0u8] + e.sha
}

/// The body bytes of a whole entry sequence, concatenated in order with no
/// separator.
pub open spec fn serialize_entries(es: Seq<SpecEntry>) -> Seq<u8>
    decreases es.len(),
{
    if es.len() == 0 {
        Seq::empty()
    } else {
        entry_bytes(es.first()) + serialize_entries(es.drop_first())
    }
}

/// The position of the first occurrence of `b` in `s`, if any.
pub open spec fn find_byte(s: Seq<u8>, b: u8) -> Option<int>
    decreases s.len(),
{
    if s.len() == 0 {
        None
    } else if s.first() == b {
        Some(0)
    } else {
        match find_byte(s.drop_first(), b) {
            None => None,
            Some(i) => Some(i + 1),
        }
    }
}

/// What `find_byte` returns: the found position holds `b` and nothing before
/// it does; absence means no position holds `b`.
pub proof fn lemma_find_byte_props(s: Seq<u8>, b: u8)
    ensures
        match find_byte(s, b) {
            Some(i) => 0 <= i < s.len() && s[i] == b && (forall|j: int| 0 <= j < i ==> s[j] != b),
            None => forall|j: int| 0 <= j < s.len() ==> s[j] != b,
        },
    decreases s.len(),
{
    if s.len() > 0 && s.first() != b {
        lemma_find_byte_props(s.drop_first(), b);
        match find_byte(s.drop_first(), b) {
            Some(i) => {
                assert(s.drop_first()[i] == s[i + 1]);
                assert forall|j: int| 0 <= j < i + 1 implies s[j] != b by {
                    if j > 0 {
                        assert(s.drop_first()[j - 1] == s[j]);
                    }
                }
            },
            None => {
                assert forall|j: int| 0 <= j < s.len() implies s[j] != b by {
                    if j > 0 {
                        assert(s.drop_first()[j - 1] == s[j]);
                    }
                }
            },
        }
    }
}

/// A position holding `b` with none before it is what `find_byte` returns.
pub proof fn lemma_find_byte_is(s: Seq<u8>, b: u8, k: int)
    requires
        0 <= k < s.len(),
        s[k] == b,
        forall|j: int| 0 <= j < k ==> s[j] != b,
    ensures
        find_byte(s, b) == Some(k),
    decreases s.len(),
{
    if s.first() == b {
        assert(k == 0);
    } else {
        assert(k > 0);
        assert forall|j: int| 0 <= j < k - 1 implies s.drop_first()[j] != b by {
            assert(s.drop_first()[j] == s[j + 1]);
        }
        assert(s.drop_first()[k - 1] == s[k]);
        lemma_find_byte_is(s.drop_first(), b, k - 1);
    }
}

/// `b` occurring nowhere means `find_byte` finds nothing.
pub proof fn lemma_find_byte_absent(s: Seq<u8>, b: u8)
    requires
        forall|j: int| 0 <= j < s.len() ==> s[j] != b,
    ensures
        find_byte(s, b) is None,
    decreases s.len(),
{
    if s.len() > 0 {
        assert forall|j: int| 0 <= j < s.drop_first().len() implies s.drop_first()[j] != b by {
            assert(s.drop_first()[j] == s[j + 1]);
        }
        lemma_find_byte_absent(s.drop_first(), b);
    }
}

/// Reads a tree body into its entries, byte by byte from the front:
/// a space-terminated canonical mode token, a NUL-terminated non-empty name,
/// then exactly 20 id bytes, repeated to the end. The empty body is the empty
/// entry sequence. Each failure names the field that was malformed.
pub open spec fn parse_entries(body: Seq<u8>) -> Result<Seq<SpecEntry>, StoreError>
    decreases body.len(),
{
    if body.len() == 0 {
        Ok(Seq::empty())
    } else {
        match find_byte(body, 32u8) {
            None => Err(StoreError::InvalidMode),
            Some(sp) => match mode_of_bytes(body.take(sp)) {
                None => Err(StoreError::UnrecognizedMode),
                Some(mode) => {
                    proof {
                        lemma_find_byte_props(body, 32u8);
                    }
                    let rest = body.skip(sp + 1);
                    match find_byte(rest, 0u8) {
                        None => Err(StoreError::InvalidName),
                        Some(nl) => {
                            if nl == 0 {
                                Err(StoreError::EmptyName)
                            } else {
                                proof {
                                    lemma_find_byte_props(rest, 0u8);
                                }
                                let name = rest.take(nl);
                                let rest2 = rest.skip(nl + 1);
                                if rest2.len() < 20 {
                                    Err(StoreError::TruncatedDigest)
                                } else {
                                    let sha = rest2.take(20);
                                    match parse_entries(rest2.skip(20)) {
                                        Ok(tail) => Ok(
                                            seq![SpecEntry { mode, name, sha }] + tail,
                                        ),
                                        Err(e) => Err(e),
                                    }
                                }
                            }
                        },
                    }
                },
            },
        }
    }
}

/// Every entry a successful parse yields is well formed: a non-empty,
/// NUL-free name and exactly 20 id bytes — the data-model invariants of a
/// tree entry.
pub proof fn lemma_parse_entries_wf(body: Seq<u8>)
    ensures
        parse_entries(body) matches Ok(se) ==> forall|i: int|
            0 <= i < se.len() ==> entry_wf(#[trigger] se[i]),
    decreases body.len(),
{
    if body.len() > 0 {
        if let Some(sp) = find_byte(body, 32u8) {
            if mode_of_bytes(body.take(sp)) is Some {
                lemma_find_byte_props(body, 32u8);
                let rest = body.skip(sp + 1);
                if let Some(nl) = find_byte(rest, 0u8) {
                    if nl != 0 {
                        lemma_find_byte_props(rest, 0u8);
                        let rest2 = rest.skip(nl + 1);
                        if rest2.len() >= 20 {
                            lemma_parse_entries_wf(rest2.skip(20));
                            if let Ok(tail) = parse_entries(rest2.skip(20)) {
                                let name = rest.take(nl);
                                assert forall|j: int| 0 <= j < name.len() implies #[trigger] name[j]
                                    != 0u8 by {
                                    assert(name[j] == rest[j]);
                                }
                                assert(!name.contains(0u8));
                                let e = SpecEntry { mode: mode_of_bytes(body.take(sp))->0, name, sha: rest2.take(20) };
                                assert(entry_wf(e));
                                assert forall|i: int|
                                    0 <= i < (seq![e] + tail).len() implies entry_wf(
                                    #[trigger] (seq![e] + tail)[i],
                                ) by {
                                    if i > 0 {
                                        assert((seq![e] + tail)[i] == tail[i - 1]);
                                    }
                                }
                            }
                        }
                    }
                }
            }
        }
    }
}

/// One directory entry: a mode, the referenced object's id as 40 lowercase
/// hex characters, and a non-empty name.
#[derive(Debug, PartialEq)]
pub struct TreeEntry {
    pub mode: TreeEntryMode,
    pub sha: String,
    pub name: String,
}

/// A tree object: its raw body bytes and the entries parsed from them, in
/// on-disk order.
#[derive(Debug, PartialEq)]
pub struct Tree {
    pub tree_entries: Vec<TreeEntry>,
    pub content: Vec<u8>,
}

/// An executable entry presents a byte-level entry: the same mode, the name
/// bytes read as text, the child id rendered as hex. The presented fields
/// keep the data-model invariants: a non-empty, NUL-free name and a
/// 40-character lowercase hex id.
pub open spec fn entry_views(e: SpecEntry, t: TreeEntry) -> bool {
    &&& t.mode == e.mode
    &&& t.name@ == lossy_utf8_of(e.name)
    &&& (valid_utf8(e.name) ==> t.name@ == decode_utf8(e.name))
    &&& t.name@.len() > 0
    &&& !t.name@.contains('\0')
    &&& t.sha@ == hex_of(e.sha)
    &&& is_hex_lower(t.sha@)
    &&& t.sha@.len() == 40
}

/// The executable entries present the byte-level entries one for one, in
/// order.
pub open spec fn entries_correspond(es: Seq<SpecEntry>, ts: Seq<TreeEntry>) -> bool {
    &&& ts.len() == es.len()
    &&& forall|i: int| 0 <= i < es.len() ==> entry_views(es[i], #[trigger] ts[i])
}

/// Scans `s` from position `from` for the first occurrence of `b`.
pub(crate) fn find_byte_from(s: &[u8], from: usize, b: u8) -> (r: Option<usize>)
    requires
        from <= s@.len(),
    ensures
        r matches Some(i) ==> (from <= i < s@.len() && find_byte(s@.skip(from as int), b) == Some(
            i - from,
        )),
        r is None ==> find_byte(s@.skip(from as int), b) is None,
{
    let n = s.len();
    let mut i = from;
    while i < n
        invariant
            from <= i <= n,
            n == s@.len(),
            forall|j: int| from <= j < i ==> s@[j] != b,
        decreases n - i,
    {
        if *vstd::slice::slice_index_get(s, i) == b {
            proof {
                let sk = s@.skip(from as int);
                assert(sk[i - from] == s@[i as int]);
                assert forall|j: int| 0 <= j < i - from implies sk[j] != b by {
                    assert(sk[j] == s@[j + from]);
                }
                lemma_find_byte_is(sk, b, i - from);
            }
            return Some(i);
        }
        i += 1;
    }
    proof {
        let sk = s@.skip(from as int);
        assert forall|j: int| 0 <= j < sk.len() implies sk[j] != b by {
            assert(sk[j] == s@[j + from]);
        }
        lemma_find_byte_absent(sk, b);
    }
    None
}

/// Matches a token against the four canonical mode forms.
fn match_mode(token: &[u8]) -> (r: Option<TreeEntryMode>)
    ensures
        r == mode_of_bytes(token@),
{
    proof {
        lemma_mode_bytes_props(TreeEntryMode::RegularFile);
        lemma_mode_bytes_props(TreeEntryMode::ExecutableFile);
        lemma_mode_bytes_props(TreeEntryMode::SymbolicLink);
        lemma_mode_bytes_props(TreeEntryMode::Directory);
    }
    if token.len() != 6 {
        return None;
    }
    let b0 = *vstd::slice::slice_index_get(token, 0);
    let b1 = *vstd::slice::slice_index_get(token, 1);
    let b2 = *vstd::slice::slice_index_get(token, 2);
    let b3 = *vstd::slice::slice_index_get(token, 3);
    let b4 = *vstd::slice::slice_index_get(token, 4);
    let b5 = *vstd::slice::slice_index_get(token, 5);
    if b0 == 49 && b1 == 48 && b2 == 48 && b3 == 54 && b4 == 52 && b5 == 52 {
        proof {
            assert(token@ =~= mode_bytes(TreeEntryMode::RegularFile));
        }
        Some(TreeEntryMode::RegularFile)
    } else if b0 == 49 && b1 == 48 && b2 == 48 && b3 == 55 && b4 == 53 && b5 == 53 {
        proof {
            assert(token@ =~= mode_bytes(TreeEntryMode::ExecutableFile));
        }
        Some(TreeEntryMode::ExecutableFile)
    } else if b0 == 49 && b1 == 50 && b2 == 48 && b3 == 48 && b4 == 48 && b5 == 48 {
        proof {
            assert(token@ =~= mode_bytes(TreeEntryMode::SymbolicLink));
        }
        Some(TreeEntryMode::SymbolicLink)
    } else if b0 == 48 && b1 == 52 && b2 == 48 && b3 == 48 && b4 == 48 && b5 == 48 {
        proof {
            assert(token@ =~= mode_bytes(TreeEntryMode::Directory));
        }
        Some(TreeEntryMode::Directory)
    } else {
        None
    }
}

impl TreeEntryMode {
    /// Maps a mode token, given as text, to its mode: exact match against
    /// the four canonical forms.
    pub fn from_string(mode_str: &str) -> (r: Result<Self, StoreError>)
        ensures
            (r matches Ok(m) ==> mode_chars(m) == mode_str@),
            (r matches Err(e) ==> e == StoreError::UnrecognizedMode && (forall|m: TreeEntryMode|
                mode_chars(m) != mode_str@)),
            (exists|m: TreeEntryMode| mode_chars(m) == mode_str@) ==> r is Ok,
    {
        proof {
            lemma_mode_chars();
        }
        if str_eq(mode_str, "100644") {
            Ok(TreeEntryMode::RegularFile)
        } else if str_eq(mode_str, "100755") {
            Ok(TreeEntryMode::ExecutableFile)
        } else if str_eq(mode_str, "120000") {
            Ok(TreeEntryMode::SymbolicLink)
        } else if str_eq(mode_str, "040000") {
            Ok(TreeEntryMode::Directory)
        } else {
            proof {
                assert forall|m: TreeEntryMode| mode_chars(m) != mode_str@ by {
                    lemma_mode_chars();
                }
            }
            Err(StoreError::UnrecognizedMode)
        }
    }
}

impl Tree {
    /// The lossy text of a byte region: how the parser presents name bytes
    /// as text.
    pub fn parse_string_from_content(content: &[u8], start_idx: usize, end_idx: usize) -> (r:
        String)
        requires
            start_idx <= end_idx <= content@.len(),
        ensures
            r@ == lossy_utf8_of(content@.subrange(start_idx as int, end_idx as int)),
            valid_utf8(content@.subrange(start_idx as int, end_idx as int)) ==> r@ == decode_utf8(
                content@.subrange(start_idx as int, end_idx as int),
            ),
            start_idx < end_idx ==> r@.len() > 0,
            !content@.subrange(start_idx as int, end_idx as int).contains(0u8) ==> !r@.contains(
                '\0',
            ),
    {
        utf8_decode_lossy(vstd::slice::slice_subrange(content, start_idx, end_idx))
    }

    /// Parses a tree body into a `Tree` holding both the body and its
    /// entries. Succeeds exactly when the byte-level parse succeeds, with
    /// the same error otherwise, and the entries present the parsed fields.
    pub fn new(content: Vec<u8>) -> (r: Result<Self, StoreError>)
        ensures
            (r matches Ok(t) ==> {
                &&& parse_entries(content@) matches Ok(se) && entries_correspond(
                    se,
                    t.tree_entries@,
                )
                &&& t.content@ == content@
            }),
            (r matches Err(e) ==> parse_entries(content@) == Err::<Seq<SpecEntry>, StoreError>(e)),
    {
        match Self::content_to_tree_entries(&content) {
            Ok(tree_entries) => Ok(Self { tree_entries, content }),
            Err(e) => Err(e),
        }
    }

    /// Reads a tree body into its entries, tracking a byte cursor: mode
    /// token to the space, name to the NUL, then 20 id bytes, repeated
    /// until the body is exhausted.
    pub fn content_to_tree_entries(content: &Vec<u8>) -> (r: Result<Vec<TreeEntry>, StoreError>)
        ensures
            (r matches Ok(ts) ==> parse_entries(content@) matches Ok(se) && entries_correspond(
                se,
                ts@,
            )),
            (r matches Err(e) ==> parse_entries(content@) == Err::<Seq<SpecEntry>, StoreError>(e)),
    {
        let mut tree_entries: Vec<TreeEntry> = Vec::new();
        let ghost mut gse: Seq<SpecEntry> = Seq::empty();
        let mut pos: usize = 0;
        let n = content.len();
        proof {
            assert(content@.skip(0) =~= content@);
            assert(gse + Seq::<SpecEntry>::empty() =~= gse);
        }
        while pos < n
            invariant
                pos <= n,
                n == content@.len(),
                entries_correspond(gse, tree_entries@),
                parse_entries(content@) == (match parse_entries(content@.skip(pos as int)) {
                    Ok(tail) => Ok::<Seq<SpecEntry>, StoreError>(gse + tail),
                    Err(e) => Err::<Seq<SpecEntry>, StoreError>(e),
                }),
            decreases n - pos,
        {
            let ghost body = content@.skip(pos as int);
            let sp_abs = match find_byte_from(content.as_slice(), pos, 32) {
                Some(i) => i,
                None => {
                    return Err(StoreError::InvalidMode);
                },
            };
            let token = vstd::slice::slice_subrange(content.as_slice(), pos, sp_abs);
            proof {
                assert(token@ =~= body.take(sp_abs - pos as int));
            }
            let mode = match match_mode(token) {
                Some(m) => m,
                None => {
                    return Err(StoreError::UnrecognizedMode);
                },
            };
            proof {
                assert(content@.skip(sp_abs + 1 as int) =~= body.skip(sp_abs - pos as int + 1));
            }
            let nl_abs = match find_byte_from(content.as_slice(), sp_abs + 1, 0) {
                Some(i) => i,
                None => {
                    return Err(StoreError::InvalidName);
                },
            };
            if nl_abs == sp_abs + 1 {
                return Err(StoreError::EmptyName);
            }
            let ghost rest = body.skip(sp_abs - pos as int + 1);
            proof {
                lemma_find_byte_props(rest, 0u8);
                assert(content@.subrange(sp_abs + 1, nl_abs as int) =~= rest.take(
                    nl_abs - (sp_abs + 1),
                ));
            }
            if n - (nl_abs + 1) < 20 {
                proof {
                    assert(content@.skip(nl_abs + 1 as int) =~= rest.skip(
                        nl_abs - (sp_abs + 1) + 1,
                    ));
                }
                return Err(StoreError::TruncatedDigest);
            }
            let name = Self::parse_string_from_content(content.as_slice(), sp_abs + 1, nl_abs);
            let sha_bytes = vstd::slice::slice_subrange(content.as_slice(), nl_abs + 1, nl_abs
                + 21);
            let sha = hex_encode(sha_bytes);
            let ghost rest2 = rest.skip(nl_abs - (sp_abs + 1) + 1);
            let ghost ge = SpecEntry {
                mode,
                name: rest.take(nl_abs - (sp_abs + 1)),
                sha: rest2.take(20),
            };
            proof {
                assert(content@.skip(nl_abs + 1 as int) =~= rest2);
                assert(sha_bytes@ =~= rest2.take(20));
                assert(content@.skip(nl_abs + 21 as int) =~= rest2.skip(20));
                assert(entry_views(ge, TreeEntry { mode, sha: sha, name: name })) by {
                    assert(ge.name =~= content@.subrange(sp_abs + 1, nl_abs as int));
                    assert forall|j: int| 0 <= j < ge.name.len() implies #[trigger] ge.name[j]
                        != 0u8 by {
                        assert(ge.name[j] == rest[j]);
                    }
                    assert(!content@.subrange(sp_abs + 1, nl_abs as int).contains(0u8));
                    lemma_hex_of_is_hex_lower(ge.sha);
                    crate::hexcode::lemma_hex_of_len(ge.sha);
                }
                assert(parse_entries(body) == (match parse_entries(rest2.skip(20)) {
                    Ok(tail) => Ok::<Seq<SpecEntry>, StoreError>(seq![ge] + tail),
                    Err(e) => Err::<Seq<SpecEntry>, StoreError>(e),
                }));
            }
            tree_entries.push(TreeEntry { mode, sha, name });
            proof {
                let old_gse = gse;
                gse = gse.push(ge);
                match parse_entries(rest2.skip(20)) {
                    Ok(tail) => {
                        assert((old_gse + (seq![ge] + tail)) =~= (gse + tail));
                    },
                    Err(e) => {},
                }
            }
            pos = nl_abs + 21;
        }
        proof {
            assert(content@.skip(pos as int) =~= Seq::<u8>::empty());
            assert(gse + Seq::<SpecEntry>::empty() =~= gse);
        }
        Ok(tree_entries)
    }
}

/// The type word an entry renders with: `tree` for a directory, `blob`
/// otherwise.
pub open spec fn type_chars(m: TreeEntryMode) -> Seq<char> {
    match m {
        TreeEntryMode::Directory => "tree"@,
        _ => "blob"@,
    }
}

/// One rendered line: `mode type sha name`, newline-terminated.
pub open spec fn render_line(m: TreeEntryMode, sha: Seq<char>, name: Seq<char>) -> Seq<char> {
    mode_chars(m) + " "@ + type_chars(m) + " "@ + sha + " "@ + name + "\n"@
}

/// The rendered text of a whole entry sequence, one line per entry in
/// stored order, each newline-terminated.
pub open spec fn render_chars(ts: Seq<TreeEntry>) -> Seq<char>
    decreases ts.len(),
{
    if ts.len() == 0 {
        Seq::empty()
    } else {
        render_line(ts.first().mode, ts.first().sha@, ts.first().name@) + render_chars(
            ts.drop_first(),
        )
    }
}

/// The names of an entry sequence in stored order, each newline-terminated.
pub open spec fn names_chars(ts: Seq<TreeEntry>) -> Seq<char>
    decreases ts.len(),
{
    if ts.len() == 0 {
        Seq::empty()
    } else {
        ts.first().name@ + "\n"@ + names_chars(ts.drop_first())
    }
}

/// The rendered text of parsed byte-level entries: what any executable
/// entries presenting them must render to, one line per entry.
pub open spec fn render_parsed(se: Seq<SpecEntry>) -> Seq<char>
    decreases se.len(),
{
    if se.len() == 0 {
        Seq::empty()
    } else {
        render_line(se.first().mode, hex_of(se.first().sha), lossy_utf8_of(se.first().name))
            + render_parsed(se.drop_first())
    }
}

/// The name listing of parsed byte-level entries.
pub open spec fn names_parsed(se: Seq<SpecEntry>) -> Seq<char>
    decreases se.len(),
{
    if se.len() == 0 {
        Seq::empty()
    } else {
        lossy_utf8_of(se.first().name) + "\n"@ + names_parsed(se.drop_first())
    }
}

/// The listing is a function of the parsed fields alone: any entries that
/// present the same byte-level entries render to the same text and list the
/// same names.
pub proof fn lemma_listing_of_parsed(se: Seq<SpecEntry>, ts: Seq<TreeEntry>)
    requires
        entries_correspond(se, ts),
    ensures
        render_chars(ts) == render_parsed(se),
        names_chars(ts) == names_parsed(se),
    decreases se.len(),
{
    if se.len() > 0 {
        assert(entry_views(se[0], ts[0]));
        assert(entries_correspond(se.drop_first(), ts.drop_first())) by {
            assert forall|i: int| 0 <= i < se.drop_first().len() implies entry_views(
                se.drop_first()[i],
                #[trigger] ts.drop_first()[i],
            ) by {
                assert(se.drop_first()[i] == se[i + 1]);
                assert(ts.drop_first()[i] == ts[i + 1]);
            }
        }
        lemma_listing_of_parsed(se.drop_first(), ts.drop_first());
        assert(render_chars(ts) =~= render_parsed(se));
        assert(names_chars(ts) =~= names_parsed(se));
    } else {
        assert(render_chars(ts) =~= render_parsed(se));
        assert(names_chars(ts) =~= names_parsed(se));
    }
}

/// Appending one entry appends its line.
proof fn lemma_render_push(ts: Seq<TreeEntry>, t: TreeEntry)
    ensures
        render_chars(ts.push(t)) =~= render_chars(ts) + render_line(t.mode, t.sha@, t.name@),
    decreases ts.len(),
{
    if ts.len() == 0 {
        assert(ts.push(t).first() == t);
        assert(ts.push(t).drop_first() =~= Seq::<TreeEntry>::empty());
        assert(render_chars(ts.push(t).drop_first()) =~= Seq::<char>::empty());
        assert(render_chars(ts) =~= Seq::<char>::empty());
        assert(render_chars(ts.push(t)) =~= render_chars(ts) + render_line(
            t.mode,
            t.sha@,
            t.name@,
        ));
    } else {
        assert(ts.push(t).first() == ts.first());
        assert(ts.push(t).drop_first() =~= ts.drop_first().push(t));
        lemma_render_push(ts.drop_first(), t);
        assert(render_chars(ts.push(t)) =~= render_chars(ts) + render_line(
            t.mode,
            t.sha@,
            t.name@,
        ));
    }
}

/// Appending one entry appends its name line.
proof fn lemma_names_push(ts: Seq<TreeEntry>, t: TreeEntry)
    ensures
        names_chars(ts.push(t)) =~= names_chars(ts) + t.name@ + "\n"@,
    decreases ts.len(),
{
    if ts.len() == 0 {
        assert(ts.push(t).first() == t);
        assert(ts.push(t).drop_first() =~= Seq::<TreeEntry>::empty());
        assert(names_chars(ts.push(t).drop_first()) =~= Seq::<char>::empty());
        assert(names_chars(ts) =~= Seq::<char>::empty());
        assert(names_chars(ts.push(t)) =~= names_chars(ts) + t.name@ + "\n"@);
    } else {
        assert(ts.push(t).first() == ts.first());
        assert(ts.push(t).drop_first() =~= ts.drop_first().push(t));
        lemma_names_push(ts.drop_first(), t);
        assert(names_chars(ts.push(t)) =~= names_chars(ts) + t.name@ + "\n"@);
    }
}

impl TreeEntryMode {
    /// The canonical six-character token of this mode.
    pub fn as_str(&self) -> (r: &'static str)
        ensures
            r@ == mode_chars(*self),
    {
        proof {
            lemma_mode_chars();
        }
        match self {
            TreeEntryMode::RegularFile => "100644",
            TreeEntryMode::ExecutableFile => "100755",
            TreeEntryMode::SymbolicLink => "120000",
            TreeEntryMode::Directory => "040000",
        }
    }
}

impl TreeEntry {
    /// The type word this entry renders with.
    pub fn object_type(&self) -> (r: String)
        ensures
            r@ == type_chars(self.mode),
    {
        match self.mode {
            TreeEntryMode::Directory => String::from_str("tree"),
            _ => String::from_str("blob"),
        }
    }
}

impl Tree {
    /// Renders the tree as text: one `mode type sha name` line per entry in
    /// stored order, each newline-terminated, nothing after the final
    /// newline. Total: always returns the rendering.
    pub fn get_content_string(&self) -> (r: Result<String, StoreError>)
        ensures
            r matches Ok(s) && s@ == render_chars(self.tree_entries@),
    {
        let mut content = String::new();
        let n = self.tree_entries.len();
        proof {
            assert(self.tree_entries@.take(0) =~= Seq::<TreeEntry>::empty());
        }
        for i in 0..n
            invariant
                n == self.tree_entries@.len(),
                content@ == render_chars(self.tree_entries@.take(i as int)),
        {
            let entry = &self.tree_entries[i];
            content.append(entry.mode.as_str());
            content.append(" ");
            let ot = entry.object_type();
            content.append(ot.as_str());
            content.append(" ");
            content.append(entry.sha.as_str());
            content.append(" ");
            content.append(entry.name.as_str());
            content.append("\n");
            proof {
                lemma_render_push(self.tree_entries@.take(i as int), self.tree_entries@[i as int]);
                assert(self.tree_entries@.take(i as int).push(self.tree_entries@[i as int])
                    =~= self.tree_entries@.take(i as int + 1));
                assert(content@ =~= render_chars(self.tree_entries@.take(i as int + 1)));
            }
        }
        proof {
            assert(self.tree_entries@.take(n as int) =~= self.tree_entries@);
        }
        Ok(content)
    }

    /// The entry names in stored order, each newline-terminated.
    pub fn get_names(&self) -> (r: String)
        ensures
            r@ == names_chars(self.tree_entries@),
    {
        let mut names = String::new();
        let n = self.tree_entries.len();
        proof {
            assert(self.tree_entries@.take(0) =~= Seq::<TreeEntry>::empty());
        }
        for i in 0..n
            invariant
                n == self.tree_entries@.len(),
                names@ == names_chars(self.tree_entries@.take(i as int)),
        {
            let entry = &self.tree_entries[i];
            names.append(entry.name.as_str());
            names.append("\n");
            proof {
                lemma_names_push(self.tree_entries@.take(i as int), self.tree_entries@[i as int]);
                assert(self.tree_entries@.take(i as int).push(self.tree_entries@[i as int])
                    =~= self.tree_entries@.take(i as int + 1));
                assert(names@ =~= names_chars(self.tree_entries@.take(i as int + 1)));
            }
        }
        proof {
            assert(self.tree_entries@.take(n as int) =~= self.tree_entries@);
        }
        names
    }
}

/// A byte-level entry serializing an executable one: the same mode, the
/// name's UTF-8 bytes, and the id bytes the sha renders from.
pub open spec fn entry_unviews(t: TreeEntry, e: SpecEntry) -> bool {
    &&& e.mode == t.mode
    &&& e.name == vstd::utf8::encode_utf8(t.name@)
    &&& hex_of(e.sha) == t.sha@
}

/// An executable entry the serializer accepts: a name with UTF-8 bytes that
/// are non-empty and NUL-free, and a 40-character lowercase hex id.
pub open spec fn exec_entry_wf(t: TreeEntry) -> bool {
    &&& vstd::utf8::encode_utf8(t.name@).len() > 0
    &&& !vstd::utf8::encode_utf8(t.name@).contains(0u8)
    &&& is_hex_lower(t.sha@)
    &&& t.sha@.len() == 40
}

/// What is wrong with an entry the serializer rejects, checked in the order
/// the serializer looks: empty name, then a NUL in the name, then an id that
/// is not 40 lowercase hex characters.
pub open spec fn entry_error(t: TreeEntry) -> Option<StoreError> {
    if vstd::utf8::encode_utf8(t.name@).len() == 0 {
        Some(StoreError::EmptyName)
    } else if vstd::utf8::encode_utf8(t.name@).contains(0u8) {
        Some(StoreError::InvalidName)
    } else if !(is_hex_lower(t.sha@) && t.sha@.len() == 40) {
        Some(StoreError::InvalidDigest)
    } else {
        None
    }
}

/// The error of the first ill-formed entry, if any.
pub open spec fn first_entry_error(ts: Seq<TreeEntry>) -> Option<StoreError>
    decreases ts.len(),
{
    if ts.len() == 0 {
        None
    } else if entry_error(ts.first()) is Some {
        entry_error(ts.first())
    } else {
        first_entry_error(ts.drop_first())
    }
}

/// The first error is the one at the first position whose entry has one.
proof fn lemma_first_entry_error_at(ts: Seq<TreeEntry>, i: int)
    requires
        0 <= i < ts.len(),
        forall|j: int| 0 <= j < i ==> entry_error(#[trigger] ts[j]) is None,
        entry_error(ts[i]) is Some,
    ensures
        first_entry_error(ts) == entry_error(ts[i]),
    decreases ts.len(),
{
    if i == 0 {
    } else {
        assert(entry_error(ts.first()) is None);
        assert forall|j: int| 0 <= j < i - 1 implies entry_error(
            #[trigger] ts.drop_first()[j],
        ) is None by {
            assert(ts.drop_first()[j] == ts[j + 1]);
        }
        assert(ts.drop_first()[i - 1] == ts[i]);
        lemma_first_entry_error_at(ts.drop_first(), i - 1);
    }
}

/// No entry has an error exactly when the scan finds none.
proof fn lemma_first_entry_error_none(ts: Seq<TreeEntry>)
    requires
        forall|j: int| 0 <= j < ts.len() ==> entry_error(#[trigger] ts[j]) is None,
    ensures
        first_entry_error(ts) is None,
    decreases ts.len(),
{
    if ts.len() > 0 {
        assert forall|j: int| 0 <= j < ts.drop_first().len() implies entry_error(
            #[trigger] ts.drop_first()[j],
        ) is None by {
            assert(ts.drop_first()[j] == ts[j + 1]);
        }
        lemma_first_entry_error_none(ts.drop_first());
    }
}

/// `bytes` is the serialization of `ts` through the byte-level entries `es`,
/// and parses back to exactly `es`.
pub open spec fn serialized_from(es: Seq<SpecEntry>, ts: Seq<TreeEntry>, bytes: Seq<u8>) -> bool {
    &&& bytes == serialize_entries(es)
    &&& parse_entries(bytes) == Ok::<Seq<SpecEntry>, StoreError>(es)
    &&& es.len() == ts.len()
    &&& forall|i: int|
        0 <= i < es.len() ==> entry_unviews(ts[i], #[trigger] es[i]) && entry_wf(es[i])
}

/// What a successful serialization guarantees: every input entry was well
/// formed and the bytes serialize a byte-level image of the inputs.
pub open spec fn serialize_ok_post(ts: Seq<TreeEntry>, bytes: Seq<u8>) -> bool {
    &&& (forall|i: int| 0 <= i < ts.len() ==> exec_entry_wf(#[trigger] ts[i]))
    &&& (exists|es: Seq<SpecEntry>| serialized_from(es, ts, bytes))
}

/// Appending one entry appends its bytes.
proof fn lemma_serialize_push(es: Seq<SpecEntry>, e: SpecEntry)
    ensures
        serialize_entries(es.push(e)) =~= serialize_entries(es) + entry_bytes(e),
    decreases es.len(),
{
    if es.len() == 0 {
        assert(es.push(e).first() == e);
        assert(es.push(e).drop_first() =~= Seq::<SpecEntry>::empty());
        assert(serialize_entries(es.push(e).drop_first()) =~= Seq::<u8>::empty());
        assert(serialize_entries(es) =~= Seq::<u8>::empty());
        assert(serialize_entries(es.push(e)) =~= serialize_entries(es) + entry_bytes(e));
    } else {
        assert(es.push(e).first() == es.first());
        assert(es.push(e).drop_first() =~= es.drop_first().push(e));
        lemma_serialize_push(es.drop_first(), e);
        assert(serialize_entries(es.push(e)) =~= serialize_entries(es) + entry_bytes(e));
    }
}

/// The canonical mode token as owned bytes.
fn mode_token(m: TreeEntryMode) -> (v: Vec<u8>)
    ensures
        v@ == mode_bytes(m),
{
    match m {
        TreeEntryMode::RegularFile => {
            let v: Vec<u8> = vec![49u8, 48, 48, 54, 52, 52];
            proof {
                assert(v@ =~= mode_bytes(TreeEntryMode::RegularFile));
            }
            v
        },
        TreeEntryMode::ExecutableFile => {
            let v: Vec<u8> = vec![49u8, 48, 48, 55, 53, 53];
            proof {
                assert(v@ =~= mode_bytes(TreeEntryMode::ExecutableFile));
            }
            v
        },
        TreeEntryMode::SymbolicLink => {
            let v: Vec<u8> = vec![49u8, 50, 48, 48, 48, 48];
            proof {
                assert(v@ =~= mode_bytes(TreeEntryMode::SymbolicLink));
            }
            v
        },
        TreeEntryMode::Directory => {
            let v: Vec<u8> = vec![48u8, 52, 48, 48, 48, 48];
            proof {
                assert(v@ =~= mode_bytes(TreeEntryMode::Directory));
            }
            v
        },
    }
}

impl Tree {
    /// Serializes entries back into a tree body: `mode SP name NUL id(20)`
    /// per entry in the given order, no separator between entries. Succeeds
    /// exactly when every entry is well formed, and the result is the
    /// byte-level serialization of the entries.
    #[verifier::rlimit(60)]
    pub fn serialize(entries: &Vec<TreeEntry>) -> (r: Result<Vec<u8>, StoreError>)
        ensures
            (match r {
                Ok(bytes) => serialize_ok_post(entries@, bytes@),
                Err(e) => first_entry_error(entries@) == Some(e),
            }),
    {
        let mut out: Vec<u8> = Vec::new();
        let ghost mut ges: Seq<SpecEntry> = Seq::empty();
        let n = entries.len();
        proof {
            assert(serialize_entries(ges) =~= Seq::<u8>::empty());
        }
        for i in 0..n
            invariant
                n == entries@.len(),
                ges.len() == i,
                out@ == serialize_entries(ges),
                forall|j: int| 0 <= j < i ==> exec_entry_wf(#[trigger] entries@[j]),
                forall|j: int|
                    0 <= j < i ==> entry_unviews(entries@[j], #[trigger] ges[j]) && entry_wf(
                        ges[j],
                    ),
        {
            let entry = &entries[i];
            proof {
                assert forall|j: int| 0 <= j < i implies entry_error(
                    #[trigger] entries@[j],
                ) is None by {
                    assert(exec_entry_wf(entries@[j]));
                }
            }
            let name_b = entry.name.as_str().as_bytes();
            if name_b.len() == 0 {
                proof {
                    lemma_first_entry_error_at(entries@, i as int);
                }
                return Err(StoreError::EmptyName);
            }
            match find_byte_from(name_b, 0, 0) {
                Some(k) => {
                    proof {
                        assert(name_b@.skip(0) =~= name_b@);
                        lemma_find_byte_props(name_b@, 0u8);
                        assert(name_b@.contains(0u8));
                        lemma_first_entry_error_at(entries@, i as int);
                    }
                    return Err(StoreError::InvalidName);
                },
                None => {
                    proof {
                        assert(name_b@.skip(0) =~= name_b@);
                        lemma_find_byte_props(name_b@, 0u8);
                        assert(!name_b@.contains(0u8));
                    }
                },
            }
            let sha_b = match hex_str_to_bytes(entry.sha.as_str()) {
                Some(v) => v,
                None => {
                    proof {
                        lemma_first_entry_error_at(entries@, i as int);
                    }
                    return Err(StoreError::InvalidDigest);
                },
            };
            if sha_b.len() != 20 {
                proof {
                    lemma_first_entry_error_at(entries@, i as int);
                }
                return Err(StoreError::InvalidDigest);
            }
            let mode_b = mode_token(entry.mode);
            out.extend_from_slice(mode_b.as_slice());
            out.push(32);
            out.extend_from_slice(name_b);
            out.push(0);
            out.extend_from_slice(sha_b.as_slice());
            proof {
                let ge = SpecEntry { mode: entry.mode, name: name_b@, sha: sha_b@ };
                lemma_serialize_push(ges, ge);
                assert(out@ =~= serialize_entries(ges.push(ge)));
                ges = ges.push(ge);
            }
        }
        proof {
            lemma_tree_codec_round_trip(ges);
            assert(serialized_from(ges, entries@, out@));
            assert(serialize_ok_post(entries@, out@));
        }
        Ok(out)
    }
}

/// Round-trip law of the tree entry codec: a well-formed entry sequence,
/// once serialized, parses back to exactly the same sequence, in the same
/// order. `entry_wf` asks only what the format itself requires: a non-empty
/// NUL-free name and a 20-byte id.
#[verifier::rlimit(60)]
pub proof fn lemma_tree_codec_round_trip(es: Seq<SpecEntry>)
    requires
        forall|i: int| 0 <= i < es.len() ==> entry_wf(#[trigger] es[i]),
    ensures
        parse_entries(serialize_entries(es)) == Ok::<Seq<SpecEntry>, StoreError>(es),
    decreases es.len(),
{
    if es.len() == 0 {
        assert(serialize_entries(es) =~= Seq::<u8>::empty());
        assert(es =~= Seq::<SpecEntry>::empty());
        assert(parse_entries(serialize_entries(es)) == Ok::<Seq<SpecEntry>, StoreError>(es));
    } else {
        let e = es.first();
        let tail = es.drop_first();
        let body = serialize_entries(es);
        let eb = entry_bytes(e);
        let mb = mode_bytes(e.mode);
        lemma_mode_bytes_props(e.mode);
        assert(entry_wf(e));
        assert(body == eb + serialize_entries(tail));
        assert(body[6] == 32);
        assert forall|j: int| 0 <= j < 6 implies body[j] != 32 by {
            assert(body[j] == mb[j]);
        }
        lemma_find_byte_is(body, 32u8, 6);
        assert(body.take(6) =~= mb);
        let rest = body.skip(7);
        let nl = e.name.len() as int;
        assert(rest =~= e.name + seq![0u8] + e.sha + serialize_entries(tail));
        assert(rest[nl] == 0);
        assert forall|j: int| 0 <= j < nl implies rest[j] != 0 by {
            assert(rest[j] == e.name[j]);
            if e.name[j] == 0 {
                assert(e.name.contains(0u8));
            }
        }
        lemma_find_byte_is(rest, 0u8, nl);
        assert(nl > 0);
        assert(rest.take(nl) =~= e.name);
        let rest2 = rest.skip(nl + 1);
        assert(rest2 =~= e.sha + serialize_entries(tail));
        assert(rest2.len() >= 20);
        assert(rest2.take(20) =~= e.sha);
        assert(rest2.skip(20) =~= serialize_entries(tail));
        assert forall|i: int| 0 <= i < tail.len() implies entry_wf(#[trigger] tail[i]) by {
            assert(tail[i] == es[i + 1]);
        }
        lemma_tree_codec_round_trip(tail);
        let pe = SpecEntry { mode: e.mode, name: rest.take(nl), sha: rest2.take(20) };
        assert(pe =~= e);
        assert(parse_entries(body) == Ok::<Seq<SpecEntry>, StoreError>(seq![pe] + tail));
        assert(seq![pe] + tail =~= es);
    }
}

/// The round-trip law at the entry level: entries the serializer accepted,
/// once parsed back from the serialized bytes, present the same mode, the
/// same id text and the same name, in the same order.
pub proof fn lemma_serialize_parse_views(
    es: Seq<SpecEntry>,
    ts: Seq<TreeEntry>,
    bytes: Seq<u8>,
    ts2: Seq<TreeEntry>,
)
    requires
        serialized_from(es, ts, bytes),
        entries_correspond(es, ts2),
    ensures
        ts2.len() == ts.len(),
        forall|i: int|
            0 <= i < ts.len() ==> (#[trigger] ts2[i]).mode == ts[i].mode && ts2[i].sha@
                == ts[i].sha@ && ts2[i].name@ == ts[i].name@,
{
    assert forall|i: int|
        0 <= i < ts.len() implies (#[trigger] ts2[i]).mode == ts[i].mode && ts2[i].sha@
        == ts[i].sha@ && ts2[i].name@ == ts[i].name@ by {
        assert(entry_unviews(ts[i], es[i]));
        assert(entry_views(es[i], ts2[i]));
        vstd::utf8::encode_utf8_valid_utf8(ts[i].name@);
        vstd::utf8::encode_utf8_decode_utf8(ts[i].name@);
    }
}

} // verus!
