//! License classification, detection rules, SPDX expressions and the
//! repository-level license report.
pub mod copyleft;
pub mod detect;
pub mod report;
pub mod spdx;

use vstd::prelude::*;

verus! {

/// Errors produced during license analysis.
#[derive(Debug)]
pub enum LicensingError {
    /// The SPDX expression did not parse; the parser's message.
    SpdxParseFailed(String),
    DetectionFailed,
    /// An I/O failure, by its message.
    Io(String),
}

} // verus!
