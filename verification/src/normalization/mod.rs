//! Normalisation of raw log values: identities and timestamps.
pub mod identity;
pub mod timestamp;

pub use identity::{IdentityConfig, IdentityResolver};
pub use timestamp::parse_timestamp;
