//! Repository ingestion rules: URL validation, file classification, language
//! statistics, package manifests and dependency records.
pub mod deps;
pub mod git;
pub mod language;
pub mod manifest;
pub mod walk;

use vstd::prelude::*;

verus! {

/// Errors produced while ingesting a repository. Failures of the operating
/// system, of UTF-8 decoding and of JSON parsing are carried by their
/// messages.
#[derive(Debug)]
pub enum IngestionError {
    CloneFailed { url: String, stderr: String },
    InvalidUrl(String),
    RevParseFailed,
    Walk(String),
    Io(String),
    Utf8(String),
    Json(String),
    CargoMetadataFailed,
    SyftNotFound,
}

} // verus!
