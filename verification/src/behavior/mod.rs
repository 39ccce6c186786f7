//! Behavioral baselines: the time windows they are computed over.
pub mod profile_kind;
pub mod temporal;
