//! Ingestion: which adapter reads a log, and what a run reports.
pub mod pipeline;
pub mod stream;

pub use pipeline::IngestionReport;
