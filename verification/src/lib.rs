//! Verified storage-layout and key-derivation library.
//!
//! Structured program state is persisted into a sparse, byte-addressed
//! key-value store, and a machine-readable description of the layout is
//! produced so external tools can decode the stored bytes offline.

pub mod codec;
pub mod desc;
pub mod error;
pub mod eth;
pub mod json;
pub mod key;
pub mod layout;
pub mod packed;
pub mod pull_or_init;
pub mod registry;
pub mod spread;
pub mod store;
pub mod upgradable;
pub mod value;

pub use error::Error;
pub use key::Cursor;
pub use store::Store;
