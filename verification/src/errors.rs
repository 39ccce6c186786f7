//! The error taxonomy of the library.
use crate::text::concat2;
use vstd::prelude::*;

verus! {

/// `rusqlite::Error`, carried through unchanged.
#[verifier::external_type_specification]
#[verifier::external_body]
pub struct ExRusqliteError(rusqlite::Error);

/// `serde_json::Error`, carried through unchanged.
#[verifier::external_type_specification]
#[verifier::external_body]
pub struct ExSerdeJsonError(serde_json::Error);

/// `std::io::Error`, carried through unchanged.
#[verifier::external_type_specification]
#[verifier::external_body]
pub struct ExIoError(std::io::Error);

/// What can go wrong in the library and around it.
#[derive(Debug)]
pub enum LafufuError {
    Config(String),
    Storage(rusqlite::Error),
    Ingestion(String),
    IdentityResolution(String),
    Analysis(String),
    Serialization(serde_json::Error),
    Io(std::io::Error),
}

/// The text `Display` writes for a `rusqlite::Error`; nothing is stated of it.
#[verifier::external_body]
fn rusqlite_error_text(e: &rusqlite::Error) -> String {
    e.to_string()
}

/// The text `Display` writes for a `serde_json::Error`; nothing is stated of it.
#[verifier::external_body]
fn serde_json_error_text(e: &serde_json::Error) -> String {
    e.to_string()
}

/// The text `Display` writes for a `std::io::Error`; nothing is stated of it.
#[verifier::external_body]
fn io_error_text(e: &std::io::Error) -> String {
    e.to_string()
}

/// The heading of each kind of error, in front of its details.
pub open spec fn error_heading(e: LafufuError) -> Seq<char> {
    match e {
        LafufuError::Config(_) => "Configuration error: "@,
        LafufuError::Storage(_) => "Database storage error: "@,
        LafufuError::Ingestion(_) => "Log ingestion/parsing error: "@,
        LafufuError::IdentityResolution(_) => "Identity resolution error: "@,
        LafufuError::Analysis(_) => "Behavioral profiling error: "@,
        LafufuError::Serialization(_) => "Serialization/Deserialization error: "@,
        LafufuError::Io(_) => "IO error: "@,
    }
}

impl LafufuError {
    /// The error as a sentence: its heading, then its details (the message, or
    /// the underlying error as it displays itself).
    pub fn message(&self) -> (r: String)
        ensures
            r@.len() >= error_heading(*self).len(),
            r@.subrange(0, error_heading(*self).len() as int) == error_heading(*self),
            match self {
                LafufuError::Config(m) => r@ == error_heading(*self) + m@,
                LafufuError::Ingestion(m) => r@ == error_heading(*self) + m@,
                LafufuError::IdentityResolution(m) => r@ == error_heading(*self) + m@,
                LafufuError::Analysis(m) => r@ == error_heading(*self) + m@,
                _ => true,
            },
    {
        let r = match self {
            LafufuError::Config(m) => concat2("Configuration error: ", m.as_str()),
            LafufuError::Storage(e) => {
                let d = rusqlite_error_text(e);
                concat2("Database storage error: ", d.as_str())
            },
            LafufuError::Ingestion(m) => concat2("Log ingestion/parsing error: ", m.as_str()),
            LafufuError::IdentityResolution(m) => concat2("Identity resolution error: ", m.as_str()),
            LafufuError::Analysis(m) => concat2("Behavioral profiling error: ", m.as_str()),
            LafufuError::Serialization(e) => {
                let d = serde_json_error_text(e);
                concat2("Serialization/Deserialization error: ", d.as_str())
            },
            LafufuError::Io(e) => {
                let d = io_error_text(e);
                concat2("IO error: ", d.as_str())
            },
        };
        assert(r@.subrange(0, error_heading(*self).len() as int) =~= error_heading(*self));
        r
    }
}

} // verus!
