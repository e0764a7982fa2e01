use git_store::commands::{cat_file, hash_object, ls_tree, GitCommand};
use git_store::compress::{compress, decompress};
use git_store::errors::StoreError;
use git_store::object::Object;
use git_store::paths::{ActualObjectPathGetter, ObjectPathGetter};
use git_store::blob::Blob;
use git_store::record::{read_object, write_object};

struct MockObjectPathGetter {
    file_path: String,
}

impl ObjectPathGetter for MockObjectPathGetter {
    // The specification-level method is ghost code: erased from compiled
    // crates and never called at run time.
    fn path_result(
        &self,
        _sha: vstd::seq::Seq<char>,
    ) -> Result<vstd::seq::Seq<char>, vstd::seq::Seq<char>> {
        unreachable!()
    }

    fn get_object_path(&self, _sha: &str) -> Result<String, &'static str> {
        Ok(self.file_path.clone())
    }
}

struct FailingObjectPathGetter {}

impl ObjectPathGetter for FailingObjectPathGetter {
    fn path_result(
        &self,
        _sha: vstd::seq::Seq<char>,
    ) -> Result<vstd::seq::Seq<char>, vstd::seq::Seq<char>> {
        unreachable!()
    }

    fn get_object_path(&self, _sha: &str) -> Result<String, &'static str> {
        Err("invalid sha")
    }
}

#[test]
pub fn cat_file_prints_content() {
    let content = "blob 13\0Hello, world!";
    let compressed_content = compress(&content.as_bytes().to_vec());

    let getter = MockObjectPathGetter { file_path: "some_path".to_string() };
    let result = cat_file("some_sha", "-p", &getter, Some(&compressed_content)).unwrap();

    let expected = "Hello, world!";
    assert_eq!(result, expected);
}

#[test]
pub fn cat_file_fails_with_invalid_flag() {
    let getter = MockObjectPathGetter { file_path: "some_path".to_string() };
    let result = cat_file("some_sha", "invalid_flag", &getter, None);

    assert!(result.is_err());
    assert_eq!(result.unwrap_err(), "flag not recognized. Available flags: -p");
}

#[test]
pub fn cat_file_fails_with_invalid_sha() {
    let getter = FailingObjectPathGetter {};
    let result = cat_file("invalid_sha", "-p", &getter, None);

    assert!(result.is_err());
    assert_eq!(result.unwrap_err(), "invalid sha");
}

#[test]
pub fn cat_file_fails_with_invalid_file_path() {
    let getter = MockObjectPathGetter { file_path: "invalid_path".to_string() };
    let result = cat_file("some_sha", "-p", &getter, None);

    assert!(result.is_err());
}

#[test]
fn cat_file_with_real_resolver_rejects_a_short_digest() {
    let getter = ActualObjectPathGetter {};
    let result = cat_file("abc", "-p", &getter, None);

    assert_eq!(result.unwrap_err(), "file sha is invalid. Needs to be 40 char");
}

#[test]
fn cat_file_renders_a_stored_tree() {
    let body = [b"040000 src\0".to_vec(), vec![0x2a; 20]].concat();
    let record = [format!("tree {}\0", body.len()).into_bytes(), body].concat();
    let compressed = compress(&record);

    let getter = MockObjectPathGetter { file_path: "some_path".to_string() };
    let out = cat_file("some_sha", "-p", &getter, Some(&compressed)).unwrap();

    assert_eq!(out, "040000 tree 2a2a2a2a2a2a2a2a2a2a2a2a2a2a2a2a2a2a2a2a src\n");
}

#[test]
fn cat_file_fails_on_corrupt_stream() {
    let getter = MockObjectPathGetter { file_path: "some_path".to_string() };
    let stored = b"This is not a valid zlib compressed file".to_vec();
    let result = cat_file("some_sha", "-p", &getter, Some(&stored));

    assert!(result.is_err());
}

#[test]
fn ls_tree_lists_full_lines() {
    let body = [b"100644 file1.txt\0".to_vec(), vec![0xab; 20]].concat();
    let record = [format!("tree {}\0", body.len()).into_bytes(), body].concat();
    let compressed = compress(&record);

    let getter = MockObjectPathGetter { file_path: "some_path".to_string() };
    let out = ls_tree("some_sha", &None, &getter, Some(&compressed)).unwrap();

    assert_eq!(out, "100644 blob abababababababababababababababababababab file1.txt\n");
}

#[test]
fn ls_tree_lists_names_only() {
    let body1 = [b"100644 file1.txt\0".to_vec(), vec![1; 20]].concat();
    let body2 = [b"040000 dir1\0".to_vec(), vec![2; 20]].concat();
    let body = [body1, body2].concat();
    let record = [format!("tree {}\0", body.len()).into_bytes(), body].concat();
    let compressed = compress(&record);

    let getter = MockObjectPathGetter { file_path: "some_path".to_string() };
    let out = ls_tree("some_sha", &Some("--name-only"), &getter, Some(&compressed)).unwrap();

    assert_eq!(out, "file1.txt\ndir1\n");
}

#[test]
fn ls_tree_rejects_unknown_flag() {
    let getter = MockObjectPathGetter { file_path: "some_path".to_string() };
    let result = ls_tree("some_sha", &Some("--bad"), &getter, None);

    assert_eq!(result.unwrap_err(), "flag no recognized. Available flags: --name-only");
}

#[test]
fn ls_tree_rejects_a_blob() {
    let record = b"blob 5\0hello".to_vec();
    let compressed = compress(&record);

    let getter = MockObjectPathGetter { file_path: "some_path".to_string() };
    let result = ls_tree("some_sha", &None, &getter, Some(&compressed));

    assert_eq!(result.unwrap_err(), "not a tree object");
}

#[test]
fn compression_round_trips_arbitrary_bytes() {
    let data: Vec<u8> = (0u16..2048).map(|i| (i % 251) as u8).collect();
    let compressed = compress(&data);
    assert_eq!(decompress(&compressed).unwrap(), data);
}

#[test]
fn compression_round_trips_the_empty_sequence() {
    let data: Vec<u8> = Vec::new();
    let compressed = compress(&data);
    assert_eq!(decompress(&compressed).unwrap(), data);
}

#[test]
fn decompress_rejects_a_corrupt_stream() {
    let garbage = b"This is not a valid zlib compressed file".to_vec();
    assert_eq!(decompress(&garbage).unwrap_err(), StoreError::CorruptStream);
}

#[test]
fn hash_object_returns_digest_of_the_blob_record() {
    let (sha, persisted) = hash_object(b"Hello, world!".to_vec(), &None).unwrap();

    assert_eq!(sha.len(), 40);
    assert!(persisted.is_none());

    let (sha2, _) = write_object(&Object::Blob(Blob::new(b"Hello, world!".to_vec())));
    assert_eq!(sha, sha2);
}

#[test]
fn hash_object_rejects_unknown_flag() {
    let result = hash_object(b"x".to_vec(), &Some("-z"));
    assert_eq!(result.unwrap_err(), "flag not recognized, Available flags: -w");
}

#[test]
fn hash_object_with_write_flag_derives_path_and_bytes() {
    let (sha, persisted) = hash_object(b"Hello, world!".to_vec(), &Some("-w")).unwrap();
    let (path, compressed) = persisted.unwrap();

    assert_eq!(path, format!(".git/objects/{}/{}", &sha[0..2], &sha[2..]));
    assert_eq!(
        decompress(&compressed).unwrap(),
        b"blob 13\0Hello, world!".to_vec()
    );
}

#[test]
fn writing_the_same_content_twice_is_idempotent() {
    let first = hash_object(b"identical content".to_vec(), &Some("-w")).unwrap();
    let second = hash_object(b"identical content".to_vec(), &Some("-w")).unwrap();

    assert_eq!(first.0, second.0);
    let (path1, bytes1) = first.1.unwrap();
    let (path2, bytes2) = second.1.unwrap();
    assert_eq!(path1, path2);
    assert_eq!(bytes1, bytes2);
}

#[test]
fn stored_object_reads_back_as_written() {
    let object = Object::Blob(Blob::new(b"round trip me".to_vec()));
    let (_, compressed) = write_object(&object);

    let read_back = read_object(&compressed).unwrap();
    assert_eq!(read_back.size, 13);
    assert_eq!(read_back.object.get_type(), "blob");
    assert_eq!(read_back.object.get_raw_content(), &b"round trip me".to_vec());
}

#[test]
fn from_args_selects_each_command() {
    let args: Vec<String> = vec!["git".to_string(), "init".to_string()];
    assert!(matches!(GitCommand::from_args(&args).unwrap(), GitCommand::Init));

    let args: Vec<String> =
        vec!["git".to_string(), "cat-file".to_string(), "-p".to_string(), "abc".to_string()];
    match GitCommand::from_args(&args).unwrap() {
        GitCommand::CatFile { sha, flag } => {
            assert_eq!(sha, "abc");
            assert_eq!(flag, "-p");
        },
        _ => panic!("expected cat-file"),
    }

    let args: Vec<String> = vec!["git".to_string(), "hash-object".to_string(), "f".to_string()];
    match GitCommand::from_args(&args).unwrap() {
        GitCommand::HashObject { file_path, flag } => {
            assert_eq!(file_path, "f");
            assert!(flag.is_none());
        },
        _ => panic!("expected hash-object"),
    }

    let args: Vec<String> = vec![
        "git".to_string(),
        "ls-tree".to_string(),
        "--name-only".to_string(),
        "abc".to_string(),
    ];
    match GitCommand::from_args(&args).unwrap() {
        GitCommand::LsTree { sha, flag } => {
            assert_eq!(sha, "abc");
            assert_eq!(flag, Some("--name-only"));
        },
        _ => panic!("expected ls-tree"),
    }
}

#[test]
fn from_args_rejects_bad_usage() {
    let args: Vec<String> = vec!["git".to_string(), "cat-file".to_string(), "-p".to_string()];
    assert_eq!(
        GitCommand::from_args(&args).unwrap_err(),
        "usage: git cat-file -p <object_sha>"
    );

    let args: Vec<String> = vec!["git".to_string(), "unknown".to_string()];
    assert_eq!(GitCommand::from_args(&args).unwrap_err(), "not a recognized git command");
}
