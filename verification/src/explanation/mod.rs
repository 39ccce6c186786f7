//! Natural-language reports built from the behaviour graph and detection results.
pub mod ask;
pub mod engine;
pub mod export;
pub mod templates;
pub mod timeline;

pub use templates::ExplanationTemplates;
