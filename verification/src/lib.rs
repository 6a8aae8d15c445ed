//! Serving static files with content-derived cache validation.
//!
//! The crate computes a CRC-64 fingerprint of a file's bytes, keeps it in a
//! shared fingerprint store keyed by canonical path, and decides between a
//! "not modified" and a "full content" response by comparing the fingerprint
//! against the validator a client sent back.

pub mod content_type;
pub mod fingerprint;
pub mod response;
pub mod store;

pub use content_type::content_type_for;
pub use response::validate;
pub use response::EtaggedFileResponse;
pub use response::ResponsePlan;
pub use response::ValidationOutcome;

pub use fingerprint::fingerprint_bytes;
pub use fingerprint::FingerprintHasher;
pub use store::EtagMap;
pub use store::FingerprintStore;
