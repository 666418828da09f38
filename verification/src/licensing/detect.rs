//! Detection rules for license files and inline SPDX headers.
//!
//! Confidence values are held in hundredths (`95` stands for `0.95`); every
//! confidence these rules produce is a whole number of hundredths.
use vstd::prelude::*;

use crate::text::{
    chars_of, contains_seq, contains_str, has_prefix, second_piece, second_piece_exec,
    starts_with_str, string_of, strip_trailing_chars, strip_trailing_chars_exec, to_uppercase,
    text_lines, lines_of, trim_chars, trim_ws, unicode_uppercase,
};
use crate::ingestion::walk::file_extension;

verus! {

/// How a license was detected for a file.
#[derive(Debug, Clone, Copy, PartialEq, Eq, Structural)]
pub enum DetectionMethod {
    LicenseFile,
    SpdxHeader,
}

/// A single license detection result for one file.
#[derive(Debug, Clone)]
pub struct LicenseDetection {
    pub file_path: String,
    pub spdx_expression: String,
    /// Confidence in hundredths (0..=100).
    pub confidence: u32,
    pub detection_method: DetectionMethod,
    pub needs_review: bool,
}

/// Detections below this confidence (in hundredths) need human review.
pub const REVIEW_THRESHOLD: u32 = 75;

/// Confidence of a match found in license-file text.
pub const LICENSE_TEXT_CONFIDENCE: u32 = 90;

/// Confidence of an inline `SPDX-License-Identifier:` header.
pub const SPDX_HEADER_CONFIDENCE: u32 = 95;

/// Lines of a source file searched for an SPDX header.
pub const HEADER_SCAN_LINES: usize = 30;

/// A file name (already upper-cased) that names a license or notice file.
pub open spec fn is_license_name_upper(upper: Seq<char>) -> bool {
    has_prefix(upper, "LICENSE"@) || has_prefix(upper, "LICENCE"@) || has_prefix(
        upper,
        "COPYING"@,
    ) || has_prefix(upper, "NOTICE"@)
}

/// Whether an upper-cased file name names a license or notice file.
pub fn is_license_file_name_upper(upper: &str) -> (r: bool)
    ensures
        r == is_license_name_upper(upper@),
{
    let u = chars_of(upper);
    starts_with_str(&u, "LICENSE") || starts_with_str(&u, "LICENCE") || starts_with_str(
        &u,
        "COPYING",
    ) || starts_with_str(&u, "NOTICE")
}

/// Whether a file name, upper-cased the Unicode way, starts with `LICENSE`,
/// `LICENCE`, `COPYING` or `NOTICE`.
pub fn is_license_file_name(file_name: &str) -> (r: bool)
    ensures
        r == is_license_name_upper(unicode_uppercase(file_name@)),
{
    let upper = to_uppercase(file_name);
    is_license_file_name_upper(upper.as_str())
}

/// File extensions scanned for inline SPDX headers.
pub open spec fn is_source_ext(ext: Seq<char>) -> bool {
    ext == "rs"@ || ext == "ts"@ || ext == "js"@ || ext == "py"@ || ext == "go"@ || ext
        == "java"@ || ext == "rb"@ || ext == "c"@ || ext == "cpp"@ || ext == "h"@
}

/// Whether a file with this extension is scanned for SPDX headers.
pub fn is_source_extension(ext: &str) -> (r: bool)
    ensures
        r == is_source_ext(ext@),
{
    let e = chars_of(ext);
    super::copyleft::eq_lit(&e, "rs") || super::copyleft::eq_lit(&e, "ts")
        || super::copyleft::eq_lit(&e, "js") || super::copyleft::eq_lit(&e, "py")
        || super::copyleft::eq_lit(&e, "go") || super::copyleft::eq_lit(&e, "java")
        || super::copyleft::eq_lit(&e, "rb") || super::copyleft::eq_lit(&e, "c")
        || super::copyleft::eq_lit(&e, "cpp") || super::copyleft::eq_lit(&e, "h")
}

/// The marker that introduces an inline SPDX header.
pub open spec fn spdx_marker() -> Seq<char> {
    "SPDX-License-Identifier:"@
}

/// The text between the first marker of `line` and the next one (or the end
/// of the line): the second piece of `line.split(marker)`.
pub open spec fn spdx_segment(line: Seq<char>) -> Option<Seq<char>> {
    second_piece(line, spdx_marker())
}

/// The SPDX expression an inline header line carries: the segment after the
/// marker, trimmed, stripped of trailing `*`, `/` and `-`, trimmed again, and
/// only if non-empty.
pub open spec fn spdx_header_value(line: Seq<char>) -> Option<Seq<char>> {
    match spdx_segment(line) {
        None => None,
        Some(seg) => {
            let v = trim_ws(strip_trailing_chars(trim_ws(seg), seq!['*', '/', '-']));
            if v.len() > 0 {
                Some(v)
            } else {
                None
            }
        },
    }
}

/// Extract an SPDX expression from a `SPDX-License-Identifier:` comment line.
pub fn extract_spdx_header(line: &str) -> (r: Option<String>)
    ensures
        match r {
            None => spdx_header_value(line@) is None,
            Some(v) => spdx_header_value(line@) == Some(v@),
        },
{
    let l = chars_of(line);
    let marker = chars_of("SPDX-License-Identifier:");
    match second_piece_exec(&l, &marker) {
        None => None,
        Some(seg) => {
            let t1 = trim_chars(&seg);
            let set = chars_of("*/-");
            let ghost want: Seq<char> = seq!['*', '/', '-'];
            proof {
                reveal_strlit("*/-");
                assert(set@ =~= want);
            }
            let t2 = strip_trailing_chars_exec(&t1, &set);
            let v = trim_chars(&t2);
            if v.len() > 0 {
                Some(string_of(&v))
            } else {
                None
            }
        },
    }
}

/// The license a text names, judged from its upper-cased form by
/// signature phrases, the more specific first.
pub open spec fn identify_upper(up: Seq<char>) -> Option<Seq<char>> {
    if contains_seq(up, "GNU AFFERO GENERAL PUBLIC LICENSE"@) {
        Some("AGPL-3.0"@)
    } else if contains_seq(up, "GNU LESSER GENERAL PUBLIC LICENSE"@) {
        Some("LGPL-3.0"@)
    } else if contains_seq(up, "GNU GENERAL PUBLIC LICENSE"@) && contains_seq(up, "VERSION 3"@) {
        Some("GPL-3.0"@)
    } else if contains_seq(up, "GNU GENERAL PUBLIC LICENSE"@) && contains_seq(up, "VERSION 2"@) {
        Some("GPL-2.0"@)
    } else if contains_seq(up, "MOZILLA PUBLIC LICENSE"@) && contains_seq(up, "2.0"@) {
        Some("MPL-2.0"@)
    } else if contains_seq(up, "APACHE LICENSE"@) && contains_seq(up, "VERSION 2.0"@) {
        Some("Apache-2.0"@)
    } else if contains_seq(up, "BUSINESS SOURCE LICENSE"@) {
        Some("BSL-1.1"@)
    } else if contains_seq(up, "PERMISSION IS HEREBY GRANTED, FREE OF CHARGE"@) {
        Some("MIT"@)
    } else if contains_seq(up, "REDISTRIBUTION AND USE IN SOURCE AND BINARY"@) && contains_seq(
        up,
        "NEITHER THE NAME"@,
    ) {
        Some("BSD-3-Clause"@)
    } else if contains_seq(up, "REDISTRIBUTION AND USE IN SOURCE AND BINARY"@) {
        Some("BSD-2-Clause"@)
    } else if contains_seq(up, "THIS IS FREE AND UNENCUMBERED SOFTWARE"@) {
        Some("Unlicense"@)
    } else {
        None
    }
}

/// Identify a license from the upper-cased text of a license file, returning
/// the SPDX id and its confidence.
pub fn identify_license_in_uppercase(upper: &str) -> (r: Option<(String, u32)>)
    ensures
        match r {
            None => identify_upper(upper@) is None,
            Some((id, c)) => identify_upper(upper@) == Some(id@) && c == LICENSE_TEXT_CONFIDENCE,
        },
{
    let up = chars_of(upper);
    let id = if contains_str(&up, "GNU AFFERO GENERAL PUBLIC LICENSE") {
        "AGPL-3.0"
    } else if contains_str(&up, "GNU LESSER GENERAL PUBLIC LICENSE") {
        "LGPL-3.0"
    } else if contains_str(&up, "GNU GENERAL PUBLIC LICENSE") && contains_str(&up, "VERSION 3") {
        "GPL-3.0"
    } else if contains_str(&up, "GNU GENERAL PUBLIC LICENSE") && contains_str(&up, "VERSION 2") {
        "GPL-2.0"
    } else if contains_str(&up, "MOZILLA PUBLIC LICENSE") && contains_str(&up, "2.0") {
        "MPL-2.0"
    } else if contains_str(&up, "APACHE LICENSE") && contains_str(&up, "VERSION 2.0") {
        "Apache-2.0"
    } else if contains_str(&up, "BUSINESS SOURCE LICENSE") {
        "BSL-1.1"
    } else if contains_str(&up, "PERMISSION IS HEREBY GRANTED, FREE OF CHARGE") {
        "MIT"
    } else if contains_str(&up, "REDISTRIBUTION AND USE IN SOURCE AND BINARY") && contains_str(
        &up,
        "NEITHER THE NAME",
    ) {
        "BSD-3-Clause"
    } else if contains_str(&up, "REDISTRIBUTION AND USE IN SOURCE AND BINARY") {
        "BSD-2-Clause"
    } else if contains_str(&up, "THIS IS FREE AND UNENCUMBERED SOFTWARE") {
        "Unlicense"
    } else {
        return None;
    };
    let idc = chars_of(id);
    Some((string_of(&idc), LICENSE_TEXT_CONFIDENCE))
}

/// Best-effort identification of a license from its full text by matching
/// signature phrases in its Unicode upper-casing.
pub fn heuristic_identify_license_text(text: &str) -> (r: Option<(String, u32)>)
    ensures
        match r {
            None => identify_upper(unicode_uppercase(text@)) is None,
            Some((id, c)) => identify_upper(unicode_uppercase(text@)) == Some(id@) && c
                == LICENSE_TEXT_CONFIDENCE,
        },
{
    let upper = to_uppercase(text);
    identify_license_in_uppercase(upper.as_str())
}

/// Identify a license from its full text (the signature-phrase matcher).
pub fn identify_license_text(text: &str) -> (r: Option<(String, u32)>)
    ensures
        match r {
            None => identify_upper(unicode_uppercase(text@)) is None,
            Some((id, c)) => identify_upper(unicode_uppercase(text@)) == Some(id@) && c
                == LICENSE_TEXT_CONFIDENCE,
        },
{
    heuristic_identify_license_text(text)
}

/// The detection a license file yields: its identified license, flagged for
/// review when the confidence is below the threshold.
pub fn license_file_detection(file_path: &str, content: &str) -> (r: Option<LicenseDetection>)
    ensures
        match r {
            None => identify_upper(unicode_uppercase(content@)) is None,
            Some(d) => identify_upper(unicode_uppercase(content@)) == Some(d.spdx_expression@)
                && d.file_path@ == file_path@ && d.confidence == LICENSE_TEXT_CONFIDENCE
                && d.detection_method == DetectionMethod::LicenseFile && d.needs_review == (d.confidence
                < REVIEW_THRESHOLD),
        },
{
    match identify_license_text(content) {
        None => None,
        Some((id, confidence)) => {
            let p = chars_of(file_path);
            Some(
                LicenseDetection {
                    file_path: string_of(&p),
                    spdx_expression: id,
                    confidence,
                    detection_method: DetectionMethod::LicenseFile,
                    needs_review: confidence < REVIEW_THRESHOLD,
                },
            )
        },
    }
}

/// The detection a source file yields from its first SPDX header line, if
/// one of its first `HEADER_SCAN_LINES` lines carries one.
pub fn header_detection(file_path: &str, lines: &Vec<String>) -> (r: Option<LicenseDetection>)
    ensures
        match r {
            None => forall|i: int|
                0 <= i < lines@.len() && i < HEADER_SCAN_LINES ==> (#[trigger] spdx_header_value(
                    lines@[i]@,
                )) is None,
            Some(d) => exists|i: int|
                0 <= i < lines@.len() && i < HEADER_SCAN_LINES && spdx_header_value(lines@[i]@)
                    == Some(d.spdx_expression@) && forall|j: int|
                    0 <= j < i ==> (#[trigger] spdx_header_value(lines@[j]@)) is None,
        },
        r matches Some(d) ==> d.file_path@ == file_path@ && d.confidence == SPDX_HEADER_CONFIDENCE
            && d.detection_method == DetectionMethod::SpdxHeader && !d.needs_review,
{
    let mut i: usize = 0;
    while i < lines.len() && i < HEADER_SCAN_LINES
        invariant
            i <= lines@.len(),
            i <= HEADER_SCAN_LINES,
            forall|j: int| 0 <= j < i ==> (#[trigger] spdx_header_value(lines@[j]@)) is None,
        decreases lines.len() - i,
    {
        match extract_spdx_header(lines[i].as_str()) {
            Some(expr) => {
                let p = chars_of(file_path);
                return Some(
                    LicenseDetection {
                        file_path: string_of(&p),
                        spdx_expression: expr,
                        confidence: SPDX_HEADER_CONFIDENCE,
                        detection_method: DetectionMethod::SpdxHeader,
                        needs_review: false,
                    },
                );
            },
            None => {},
        }
        i = i + 1;
    }
    None
}

/// What one walked file contributes to license detection: a license or
/// notice file (by its upper-cased name) gives the license its text names;
/// a source file (by its extension) gives its first SPDX header among its
/// first lines; any other file, or one whose text could not be read, gives
/// nothing.
pub fn detect_in_file(file_path: &str, file_name: &str, content: Option<&str>) -> (r: Option<
    LicenseDetection,
>)
    ensures
        is_license_name_upper(unicode_uppercase(file_name@)) ==> match content {
            None => r is None,
            Some(c) => match r {
                None => identify_upper(unicode_uppercase(c@)) is None,
                Some(d) => identify_upper(unicode_uppercase(c@)) == Some(d.spdx_expression@)
                    && d.file_path@ == file_path@ && d.detection_method
                    == DetectionMethod::LicenseFile && d.confidence == LICENSE_TEXT_CONFIDENCE
                    && d.needs_review == (d.confidence < REVIEW_THRESHOLD),
            },
        },
        !is_license_name_upper(unicode_uppercase(file_name@)) ==> {
            let scanned = match file_extension(file_name@) {
                Some(e) => is_source_ext(e),
                None => false,
            };
            match content {
                Some(c) if scanned => {
                    let lines = text_lines(c@);
                    match r {
                        None => forall|i: int|
                            0 <= i < lines.len() && i < HEADER_SCAN_LINES ==> (
                            #[trigger] spdx_header_value(lines[i])) is None,
                        Some(d) => d.confidence == SPDX_HEADER_CONFIDENCE && !d.needs_review
                            && d.detection_method == DetectionMethod::SpdxHeader && exists|i: int|
                            0 <= i < lines.len() && i < HEADER_SCAN_LINES && spdx_header_value(
                                lines[i],
                            ) == Some(d.spdx_expression@) && forall|j: int|
                                0 <= j < i ==> (#[trigger] spdx_header_value(lines[j])) is None,
                    }
                },
                _ => r is None,
            }
        },
        r matches Some(d) ==> d.file_path@ == file_path@,
{
    if is_license_file_name(file_name) {
        return match content {
            Some(c) => license_file_detection(file_path, c),
            None => None,
        };
    }
    let scanned = match crate::ingestion::walk::file_extension_of(file_name) {
        Some(e) => is_source_extension(e.as_str()),
        None => false,
    };
    if !scanned {
        return None;
    }
    match content {
        Some(c) => {
            let lines = lines_of(c);
            let r = header_detection(file_path, &lines);
            proof {
                let tl = text_lines(c@);
                match &r {
                    None => {
                        assert forall|i: int|
                            0 <= i < tl.len() && i < HEADER_SCAN_LINES implies (
                            #[trigger] spdx_header_value(tl[i])) is None by {
                            assert(lines@[i]@ == tl[i]);
                        }
                    },
                    Some(d) => {
                        let i = choose|i: int|
                            0 <= i < lines@.len() && i < HEADER_SCAN_LINES && spdx_header_value(
                                lines@[i]@,
                            ) == Some(d.spdx_expression@) && forall|j: int|
                                0 <= j < i ==> (#[trigger] spdx_header_value(lines@[j]@)) is None;
                        assert(lines@[i]@ == tl[i]);
                        assert forall|j: int| 0 <= j < i implies (#[trigger] spdx_header_value(
                            tl[j],
                        )) is None by {
                            assert(lines@[j]@ == tl[j]);
                        }
                    },
                }
            }
            r
        },
        None => None,
    }
}

} // verus!
