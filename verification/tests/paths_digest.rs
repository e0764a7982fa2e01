use git_store::digest::ShaGetter;
use git_store::errors::StoreError;
use git_store::paths::{get_object_path, resolve};

#[test]
fn get_sha_returns_correct_sha_for_str_input() {
    let data = "Hello, world!";
    let sha = data.get_sha().unwrap();
    assert_eq!(sha, "943a702d06f34599aee1f8da8ef9f7296031d699");
}

#[test]
fn get_sha_returns_correct_sha_for_vector_input() {
    let data = b"Hello, world!".to_vec();
    let sha = data.get_sha().unwrap();
    assert_eq!(sha, "943a702d06f34599aee1f8da8ef9f7296031d699");
}

#[test]
fn get_sha_returns_correct_sha_for_string_input() {
    let data = "Hello, world!".to_string();
    let sha = data.get_sha().unwrap();
    assert_eq!(sha, "943a702d06f34599aee1f8da8ef9f7296031d699");
}

#[test]
fn get_sha_is_deterministic_across_calls() {
    let data = b"some bytes".to_vec();
    assert_eq!(data.get_sha().unwrap(), data.get_sha().unwrap());
}

#[test]
fn get_object_path_returns_correct_path_for_valid_sha() {
    let sha = "2aae6c35c94fcfb415dbe95f408b9ce91ee846ed";
    let path = get_object_path(sha).unwrap();
    assert_eq!(path, ".git/objects/2a/ae6c35c94fcfb415dbe95f408b9ce91ee846ed");
}

#[test]
fn get_object_path_returns_error_for_invalid_sha() {
    let sha = "invalid_sha";
    let result = get_object_path(sha);
    assert!(result.is_err());
}

#[test]
fn resolve_derives_two_level_path() {
    let path = resolve("2aae6c35c94fcfb415dbe95f408b9ce91ee846ed").unwrap();
    assert_eq!(path, "objects/2a/ae6c35c94fcfb415dbe95f408b9ce91ee846ed");
}

#[test]
fn resolve_rejects_short_digest() {
    assert_eq!(resolve("2aae6c35").unwrap_err(), StoreError::InvalidDigest);
}

#[test]
fn resolve_rejects_long_digest() {
    assert_eq!(
        resolve("2aae6c35c94fcfb415dbe95f408b9ce91ee846eda").unwrap_err(),
        StoreError::InvalidDigest
    );
}
