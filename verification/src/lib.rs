//! A content-addressable object store: blobs and trees are identified by the
//! SHA-1 digest of their serialized record, persisted zlib-compressed under a
//! path derived from that digest, and decoded back into typed structures.

pub mod blob;
pub mod commands;
pub mod compress;
pub mod digest;
pub mod errors;
pub mod hexcode;
pub mod object;
pub mod paths;
pub mod record;
pub mod text;
pub mod tree;
