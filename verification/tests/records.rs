use git_store::blob::Blob;
use git_store::errors::StoreError;
use git_store::object::{GetContent, Object};
use git_store::record::GitObject;

#[test]
fn from_object_file_buffer_parses_valid_blob_object() {
    let file_string = "blob 7\0content".to_string();
    let git_object = GitObject::from_object_file_buffer(&file_string.into_bytes()).unwrap();

    assert_eq!(git_object.size, 7);
    assert_eq!(git_object.object.get_type(), "blob");
    assert_eq!(&git_object.get_content().unwrap(), "content");
}

#[test]
fn from_object_file_buffer_rejects_size_content_mismatch() {
    let file_string = "blob 6\0content".to_string();
    let result = GitObject::from_object_file_buffer(&file_string.into_bytes());

    assert_eq!(result.unwrap_err(), StoreError::InvalidSize);
}

#[test]
fn git_object_from_object_file_string_returns_error_for_invalid_object_file_string() {
    let file_string = "invalid".to_string();
    let result = GitObject::from_object_file_buffer(&file_string.into_bytes());

    assert!(result.is_err());
}

#[test]
fn git_object_from_object_file_string_returns_error_for_object_file_string_with_invalid_size() {
    let file_string = "blob invalid\0content".to_string();
    let result = GitObject::from_object_file_buffer(&file_string.into_bytes());

    assert!(result.is_err());
}

#[test]
fn from_object_file_string_parses_valid_object_file_string() {
    let file_string = "blob 7\0content";
    let git_object = GitObject::from_object_file_string(file_string).unwrap();

    assert_eq!(git_object.size, 7);
    assert_eq!(git_object.object.get_type(), "blob");
    assert_eq!(git_object.get_content().unwrap(), "content");
}

#[test]
fn mod_from_object_file_string_returns_error_for_invalid_object_file_string() {
    let file_string = "invalid";
    let result = GitObject::from_object_file_string(file_string);

    assert!(result.is_err());
}

#[test]
fn mod_from_object_file_string_returns_error_for_object_file_string_with_invalid_size() {
    let file_string = "blob invalid\0content";
    let result = GitObject::from_object_file_string(file_string);

    assert!(result.is_err());
}

#[test]
fn missing_header_terminator_is_malformed_record() {
    let result = GitObject::from_object_file_buffer(&b"invalid".to_vec());
    assert_eq!(result.unwrap_err(), StoreError::MalformedRecord);
}

#[test]
fn non_numeric_size_is_invalid_size() {
    let result = GitObject::from_object_file_buffer(&b"blob invalid\0content".to_vec());
    assert_eq!(result.unwrap_err(), StoreError::InvalidSize);
}

#[test]
fn missing_size_field_is_invalid_size() {
    let result = GitObject::from_object_file_buffer(&b"blob\0content".to_vec());
    assert_eq!(result.unwrap_err(), StoreError::InvalidSize);
}

#[test]
fn unknown_type_tag_is_unrecognized_type() {
    let result = GitObject::from_object_file_buffer(&b"commit 7\0content".to_vec());
    assert_eq!(result.unwrap_err(), StoreError::UnrecognizedType);
}

#[test]
fn tree_record_parses_through_tree_codec() {
    let mut body = b"100644 blob.txt\0".to_vec();
    body.extend_from_slice(&[1u8; 20]);
    let mut record = format!("tree {}\0", body.len()).into_bytes();
    record.extend_from_slice(&body);

    let git_object = GitObject::from_object_file_buffer(&record).unwrap();
    assert_eq!(git_object.object.get_type(), "tree");
    match git_object.object {
        Object::Tree(tree) => {
            assert_eq!(tree.tree_entries.len(), 1);
            assert_eq!(tree.tree_entries[0].name, "blob.txt");
        },
        Object::Blob(_) => panic!("expected a tree"),
    }
}

#[test]
fn names_only_rejects_a_blob() {
    let blob = Object::new("blob", b"x".to_vec()).unwrap();
    assert_eq!(blob.get_names().unwrap_err(), StoreError::NotATree);

    let body = [b"100644 f\0".to_vec(), vec![7; 20]].concat();
    let tree = Object::new("tree", body).unwrap();
    assert_eq!(tree.get_names().unwrap(), "f\n");
}

#[test]
fn object_new_rejects_unknown_type() {
    let result = Object::new("commit", b"x".to_vec());
    assert_eq!(result.unwrap_err(), StoreError::UnrecognizedType);
}

#[test]
fn blob_renders_utf8_content() {
    let blob = Blob::new(b"hello".to_vec());
    assert_eq!(blob.get_content_string().unwrap(), "hello");
}

#[test]
fn blob_rejects_invalid_utf8_content() {
    let blob = Blob::new(vec![0xff, 0xfe]);
    assert_eq!(blob.get_content_string().unwrap_err(), StoreError::InvalidEncoding);
}
