//! Local-first behavioural intelligence: the verified core of log parsing,
//! identity resolution and the behaviour graph.
pub mod errors;
pub mod text;
pub mod time;
pub mod json_value;
pub mod domain;
pub mod normalization;
pub mod adapters;
pub mod config;
pub mod behavior;
pub mod detection;
pub mod explanation;
pub mod ingestion;
