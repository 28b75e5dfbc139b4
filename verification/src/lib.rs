//! A content-addressed file store for an edge deployment.
//!
//! Uploaded bytes are stored once per distinct content (deduplicated by
//! SHA-256), a strongly consistent index maps each filename to its current
//! content hash, downloads verify integrity against that hash and heal
//! dangling index entries, and writes are throttled by a per-key
//! sliding-window rate limiter.

pub mod blob_store;
pub mod counter;
pub mod decfmt;
pub mod digest;
pub mod hexcodec;
pub mod keyindex;
pub mod mapping;
pub mod r2_http;
pub mod rate_actor;
pub mod rate_limiter;
pub mod routes;
pub mod security;
pub mod session;
pub mod store;
pub mod strutil;
