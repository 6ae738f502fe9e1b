//! An encrypted-at-rest hierarchical credential store.
//!
//! Named entries (username/password pairs) are organized into a tree of
//! groups; every persisted payload is authenticated-encrypted with a key
//! derived from user credentials. The on-disk layer is SQLite, reached
//! through a small set of trusted wrappers; everything above it — key
//! derivation, the blob wire format, record serialization, and the store
//! operations — is verified.

pub mod blob;
pub mod encryption;
pub mod errors;
pub mod model;
pub mod record;
pub mod store;
pub mod text;
