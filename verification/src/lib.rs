//! Content-addressable artifact registry storage core.
//!
//! The crate stores immutable binary blobs and manifests keyed by
//! cryptographic digest, supports resumable chunked uploads with
//! checkpointed incremental hashing, and maintains tag, layer and
//! referrer indirections over a deterministic path tree, with
//! shared-blob delete protection and a reader/writer lock model.

pub mod api;
pub mod config;
pub mod digest;
pub mod engine;
pub mod error;
pub mod laws;
pub mod link;
pub mod listing;
pub mod lock;
pub mod manifest;
pub mod policy;
pub mod registry;
pub mod text;
pub mod tree;
pub mod upload;
