//! Command-line decisions: confirmation, cache subcommands and progress lines.
use vstd::prelude::*;

use crate::text::{append_str, chars_of, string_of, trim_chars, trim_ws};

verus! {

/// Arguments of the `cache` command.
#[derive(Debug, Clone)]
pub struct CacheArgs {
    pub command: CacheCommands,
}

/// Subcommands of the `cache` command.
#[derive(Debug, Clone)]
pub enum CacheCommands {
    /// Invalidate all cache entries for a repository URL.
    Invalidate { repo_url: String },
    /// List cache status.
    List,
}

/// A confirmation reply accepts when, without surrounding whitespace, it is
/// `y` in either case.
pub open spec fn accepts(reply: Seq<char>) -> bool {
    trim_ws(reply) == "y"@ || trim_ws(reply) == "Y"@
}

/// Whether to proceed: always with `yes`; otherwise only when the
/// confirmation line that was read accepts (`None`: nothing could be read).
pub fn should_proceed(yes: bool, reply: Option<&str>) -> (r: bool)
    ensures
        r == (yes || (reply matches Some(line) && accepts(line@))),
{
    if yes {
        return true;
    }
    match reply {
        None => false,
        Some(line) => {
            let t = trim_chars(&chars_of(line));
            proof {
                reveal_strlit("y");
                reveal_strlit("Y");
                if t@.len() == 1 {
                    if t@[0] == 'y' {
                        assert(t@ =~= "y"@);
                    }
                    if t@[0] == 'Y' {
                        assert(t@ =~= "Y"@);
                    }
                }
            }
            t.len() == 1 && (t[0] == 'y' || t[0] == 'Y')
        },
    }
}

/// Writes progress lines to standard error as `[phase] message`.
pub struct StderrProgressReporter;

impl StderrProgressReporter {
    /// The progress line for a phase and message.
    pub fn line(&self, phase: &str, message: &str) -> (r: String)
        ensures
            r@ == "["@ + phase@ + "] "@ + message@,
    {
        let mut out: Vec<char> = Vec::new();
        append_str(&mut out, "[");
        append_str(&mut out, phase);
        append_str(&mut out, "] ");
        append_str(&mut out, message);
        string_of(&out)
    }
}

/// The kind of file a report is written as.
#[derive(Debug, Clone, Copy, PartialEq, Eq, Structural)]
pub enum OutputKind {
    Json,
    Pdf,
    Markdown,
}

/// The kind of a requested output format: `json`, `pdf`, and Markdown for
/// anything else.
pub open spec fn kind_of(format: Seq<char>) -> OutputKind {
    if format == "json"@ {
        OutputKind::Json
    } else if format == "pdf"@ {
        OutputKind::Pdf
    } else {
        OutputKind::Markdown
    }
}

/// The default file name of each kind of output.
pub open spec fn default_output_file(kind: OutputKind) -> Seq<char> {
    match kind {
        OutputKind::Json => "assessment.json"@,
        OutputKind::Pdf => "assessment.pdf"@,
        OutputKind::Markdown => "assessment.md"@,
    }
}

/// Where and as what a report is written: the requested format's kind, at
/// the requested path or the kind's default file name.
pub fn output_plan(format: &str, output_file: Option<String>) -> (r: (OutputKind, String))
    ensures
        r.0 == kind_of(format@),
        r.1@ == match output_file {
            Some(p) => p@,
            None => default_output_file(kind_of(format@)),
        },
{
    let f = chars_of(format);
    let kind = if crate::licensing::copyleft::eq_lit(&f, "json") {
        OutputKind::Json
    } else if crate::licensing::copyleft::eq_lit(&f, "pdf") {
        OutputKind::Pdf
    } else {
        OutputKind::Markdown
    };
    let path = match output_file {
        Some(p) => p,
        None => match kind {
            OutputKind::Json => "assessment.json".to_owned(),
            OutputKind::Pdf => "assessment.pdf".to_owned(),
            OutputKind::Markdown => "assessment.md".to_owned(),
        },
    };
    (kind, path)
}

} // verus!
