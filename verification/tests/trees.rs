use git_store::errors::StoreError;
use git_store::tree::{Tree, TreeEntry, TreeEntryMode};

#[test]
fn tree_object_new_with_valid_content() {
    let content = b"100644 blob.txt\0".to_vec();
    let content = [content, vec![1; 20]].concat();
    let tree_object = Tree::new(content).unwrap();

    assert_eq!(tree_object.tree_entries.len(), 1);
    assert_eq!(tree_object.tree_entries[0].mode, TreeEntryMode::RegularFile);
    assert_eq!(tree_object.tree_entries[0].name, "blob.txt");
}

#[test]
fn tree_object_new_with_invalid_mode() {
    let content = b"999999 blob.txt\0".to_vec();
    let content = [content, vec![0; 20]].concat();
    let tree_object = Tree::new(content);

    assert!(tree_object.is_err());
}

#[test]
fn tree_object_new_with_invalid_name() {
    let content = b"100644 \0".to_vec();
    let content = [content, vec![1; 20]].concat();
    let tree_object = Tree::new(content);

    assert!(tree_object.is_err());
}

#[test]
fn tree_object_new_with_invalid_sha() {
    let content = b"100644 blob.txt\0short_sha".to_vec();
    let tree_object = Tree::new(content);

    assert!(tree_object.is_err());
}

#[test]
fn tree_object_new_with_multiple_entries() {
    let content1 = b"100644 blob.txt\0".to_vec();
    let content1 = [content1, vec![2; 20]].concat();
    let content2 = b"100755 exec_file\0".to_vec();
    let content2 = [content2, vec![3; 20]].concat();
    let content = [content1, content2].concat();
    let tree_object = Tree::new(content).unwrap();

    assert_eq!(tree_object.tree_entries.len(), 2);
    assert_eq!(tree_object.tree_entries[0].mode, TreeEntryMode::RegularFile);
    assert_eq!(tree_object.tree_entries[0].name, "blob.txt");
    assert_eq!(tree_object.tree_entries[1].mode, TreeEntryMode::ExecutableFile);
    assert_eq!(tree_object.tree_entries[1].name, "exec_file");
}

#[test]
fn tree_entry_sha_renders_as_lowercase_hex() {
    let content = b"100644 blob.txt\0".to_vec();
    let content = [content, vec![1; 20]].concat();
    let tree_object = Tree::new(content).unwrap();

    assert_eq!(
        tree_object.tree_entries[0].sha,
        "0101010101010101010101010101010101010101"
    );
}

#[test]
fn tree_error_kinds_name_the_failing_field() {
    let no_space = Tree::new(b"100644".to_vec());
    assert_eq!(no_space.unwrap_err(), StoreError::InvalidMode);

    let bad_mode = [b"999999 a\0".to_vec(), vec![0; 20]].concat();
    assert_eq!(Tree::new(bad_mode).unwrap_err(), StoreError::UnrecognizedMode);

    let no_nul = b"100644 name-without-terminator".to_vec();
    assert_eq!(Tree::new(no_nul).unwrap_err(), StoreError::InvalidName);

    let empty_name = [b"100644 \0".to_vec(), vec![1; 20]].concat();
    assert_eq!(Tree::new(empty_name).unwrap_err(), StoreError::EmptyName);

    let short_id = b"100644 blob.txt\0short_sha".to_vec();
    assert_eq!(Tree::new(short_id).unwrap_err(), StoreError::TruncatedDigest);
}

#[test]
fn empty_body_is_empty_tree() {
    let tree = Tree::new(Vec::new()).unwrap();
    assert_eq!(tree.tree_entries.len(), 0);
    assert_eq!(tree.get_names(), "");
    assert_eq!(tree.get_content_string().unwrap(), "");
}

#[test]
fn get_content_returns_correct_format_for_single_entry() {
    let tree_entries = vec![TreeEntry {
        mode: TreeEntryMode::RegularFile,
        sha: "abc123".to_string(),
        name: "file1.txt".to_string(),
    }];
    let tree = Tree { tree_entries, content: Vec::new() };

    let content = tree.get_content_string().unwrap();

    assert_eq!(content, "100644 blob abc123 file1.txt\n");
}

#[test]
fn get_content_returns_correct_format_for_multiple_entries() {
    let tree_entries = vec![
        TreeEntry {
            mode: TreeEntryMode::RegularFile,
            sha: "abc123".to_string(),
            name: "file1.txt".to_string(),
        },
        TreeEntry {
            mode: TreeEntryMode::ExecutableFile,
            sha: "def456".to_string(),
            name: "file2.txt".to_string(),
        },
    ];
    let tree = Tree { tree_entries, content: Vec::new() };

    let content = tree.get_content_string().unwrap();

    assert_eq!(content, "100644 blob abc123 file1.txt\n100755 blob def456 file2.txt\n");
}

#[test]
fn get_content_returns_correct_format_for_directory_entry() {
    let tree_entries = vec![TreeEntry {
        mode: TreeEntryMode::Directory,
        sha: "abc123".to_string(),
        name: "dir1".to_string(),
    }];
    let tree = Tree { tree_entries, content: Vec::new() };

    let content = tree.get_content_string().unwrap();

    assert_eq!(content, "040000 tree abc123 dir1\n");
}

#[test]
fn get_content_returns_correct_format_for_symbolic_link_entry() {
    let tree_entries = vec![TreeEntry {
        mode: TreeEntryMode::SymbolicLink,
        sha: "abc123".to_string(),
        name: "link1".to_string(),
    }];
    let tree = Tree { tree_entries, content: Vec::new() };

    let content = tree.get_content_string().unwrap();

    assert_eq!(content, "120000 blob abc123 link1\n");
}

#[test]
fn get_names_lists_entries_in_stored_order() {
    let content1 = [b"100644 b.txt\0".to_vec(), vec![2; 20]].concat();
    let content2 = [b"040000 a_dir\0".to_vec(), vec![3; 20]].concat();
    let tree = Tree::new([content1, content2].concat()).unwrap();

    assert_eq!(tree.get_names(), "b.txt\na_dir\n");
}

#[test]
fn parse_string_from_content_reads_a_byte_region_as_text() {
    let bytes = b"xhelloy".to_vec();
    assert_eq!(Tree::parse_string_from_content(&bytes, 1, 6), "hello");
    let bad = vec![0x61, 0xff];
    assert_eq!(Tree::parse_string_from_content(&bad, 0, 2), "a\u{fffd}");
}

#[test]
fn mode_from_string_recognizes_the_canonical_forms() {
    assert_eq!(TreeEntryMode::from_string("100644").unwrap(), TreeEntryMode::RegularFile);
    assert_eq!(TreeEntryMode::from_string("100755").unwrap(), TreeEntryMode::ExecutableFile);
    assert_eq!(TreeEntryMode::from_string("120000").unwrap(), TreeEntryMode::SymbolicLink);
    assert_eq!(TreeEntryMode::from_string("040000").unwrap(), TreeEntryMode::Directory);
    assert_eq!(TreeEntryMode::from_string("40000").unwrap_err(), StoreError::UnrecognizedMode);
    assert_eq!(TreeEntryMode::from_string("999999").unwrap_err(), StoreError::UnrecognizedMode);
}

#[test]
fn serialize_then_parse_preserves_entries_and_order() {
    let entries = vec![
        TreeEntry {
            mode: TreeEntryMode::RegularFile,
            sha: "2aae6c35c94fcfb415dbe95f408b9ce91ee846ed".to_string(),
            name: "with space.txt".to_string(),
        },
        TreeEntry {
            mode: TreeEntryMode::Directory,
            sha: "0101010101010101010101010101010101010101".to_string(),
            name: "nested".to_string(),
        },
        TreeEntry {
            mode: TreeEntryMode::SymbolicLink,
            sha: "ffffffffffffffffffffffffffffffffffffffff".to_string(),
            name: "link".to_string(),
        },
    ];
    let body = Tree::serialize(&entries).unwrap();
    let parsed = Tree::new(body).unwrap();

    assert_eq!(parsed.tree_entries.len(), 3);
    for i in 0..3 {
        assert_eq!(parsed.tree_entries[i].mode, entries[i].mode);
        assert_eq!(parsed.tree_entries[i].sha, entries[i].sha);
        assert_eq!(parsed.tree_entries[i].name, entries[i].name);
    }
}

#[test]
fn serialize_round_trip_of_empty_sequence() {
    let body = Tree::serialize(&Vec::new()).unwrap();
    assert_eq!(body.len(), 0);
    let parsed = Tree::new(body).unwrap();
    assert_eq!(parsed.tree_entries.len(), 0);
}

#[test]
fn serialize_rejects_ill_formed_entries() {
    let empty_name = vec![TreeEntry {
        mode: TreeEntryMode::RegularFile,
        sha: "2aae6c35c94fcfb415dbe95f408b9ce91ee846ed".to_string(),
        name: String::new(),
    }];
    assert_eq!(Tree::serialize(&empty_name).unwrap_err(), StoreError::EmptyName);

    let nul_name = vec![TreeEntry {
        mode: TreeEntryMode::RegularFile,
        sha: "2aae6c35c94fcfb415dbe95f408b9ce91ee846ed".to_string(),
        name: "a\0b".to_string(),
    }];
    assert_eq!(Tree::serialize(&nul_name).unwrap_err(), StoreError::InvalidName);

    let short_sha = vec![TreeEntry {
        mode: TreeEntryMode::RegularFile,
        sha: "abc123".to_string(),
        name: "a".to_string(),
    }];
    assert_eq!(Tree::serialize(&short_sha).unwrap_err(), StoreError::InvalidDigest);

    let upper_sha = vec![TreeEntry {
        mode: TreeEntryMode::RegularFile,
        sha: "2AAE6C35C94FCFB415DBE95F408B9CE91EE846ED".to_string(),
        name: "a".to_string(),
    }];
    assert_eq!(Tree::serialize(&upper_sha).unwrap_err(), StoreError::InvalidDigest);
}
