//! Client library for a remote key/value store fronted by an HTTP proxy.
//!
//! The library holds the verified core: endpoint normalization, the mapping
//! from HTTP status codes to typed errors, the decoding of the proxy's
//! response envelope, a bounded TTL-LRU cache, and the read-through /
//! write-through / delete-invalidate rules that keep the cache coherent
//! with confirmed remote state. Network transport and typed serialization
//! sit outside, and hand this core plain values.

pub mod cache;
pub mod client;
pub mod endpoint;
pub mod envelope;
pub mod errors;
pub mod lru;

pub use cache::{new_cache, Cache};
pub use client::{handle_response, Client};
pub use endpoint::normalize_endpoint;
pub use envelope::decode_envelope;
pub use errors::{ClientError, Error};
