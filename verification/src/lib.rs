//! Authentication of data records with HMAC-SHA256, and classification of a
//! possibly tampered sequence of such records.
//!
//! A [`Verifier`] holds a secret key. It signs data into [`Block`]s, checks a
//! block's signature, fingerprints a block, and scans a list of blocks to tell
//! which of them can still be trusted.

pub mod block;
pub mod chain;
pub mod hashing;
pub mod encoding;
pub mod error;
pub mod mac;
pub mod signing;

pub use block::{Block, BlockView, BlockWithStatus, BlockWithStatusView, Status};
pub use error::Error;
pub use signing::Verifier;
