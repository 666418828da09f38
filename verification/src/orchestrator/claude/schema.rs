//! Where the JSON Schema of a phase's structured output is written, and
//! which schema it is.
use vstd::prelude::*;

use super::routing::Phase;
use crate::text::{append_str, chars_of, string_of};

verus! {

/// Errors produced while exporting a phase schema.
#[derive(Debug)]
pub enum SchemaError {
    WriteFailed(String),
}

/// The structured output whose schema a phase is held to.
#[derive(Debug, Clone, Copy, PartialEq, Eq, Structural)]
pub enum SchemaTarget {
    /// The synthesis output.
    SynthesisOutput,
    /// A module assessment.
    ModuleAssessment,
}

/// The schema of a phase: synthesis has its own; feature discovery, manifest
/// summarization and risk analysis share the module-assessment shape.
pub open spec fn target_of(phase: Phase) -> SchemaTarget {
    match phase {
        Phase::Synthesis => SchemaTarget::SynthesisOutput,
        _ => SchemaTarget::ModuleAssessment,
    }
}

/// The schema a phase's output is held to.
pub fn schema_target(phase: Phase) -> (t: SchemaTarget)
    ensures
        t == target_of(phase),
{
    match phase {
        Phase::Synthesis => SchemaTarget::SynthesisOutput,
        _ => SchemaTarget::ModuleAssessment,
    }
}

/// The variant name of a phase, as `{:?}` prints it.
pub open spec fn phase_name(phase: Phase) -> Seq<char> {
    match phase {
        Phase::Synthesis => "Synthesis"@,
        Phase::ManifestSummarization => "ManifestSummarization"@,
        Phase::FeatureDiscovery => "FeatureDiscovery"@,
        Phase::RiskAnalysis => "RiskAnalysis"@,
    }
}

/// `file` joined under directory `dir` (`Path::join` with a relative file
/// name): a separator is added unless `dir` is empty or ends with one.
pub open spec fn joined(dir: Seq<char>, file: Seq<char>) -> Seq<char> {
    if dir.len() == 0 {
        file
    } else if dir.last() == '/' {
        dir + file
    } else {
        dir + "/"@ + file
    }
}

/// The path of the schema file of `phase` in `dir`: `{phase}-schema.json`.
pub fn phase_schema_path(phase: Phase, dir: &str) -> (r: String)
    ensures
        r@ == joined(dir@, phase_name(phase) + "-schema.json"@),
{
    let d = chars_of(dir);
    let mut out: Vec<char> = Vec::new();
    append_str(&mut out, dir);
    if d.len() > 0 && d[d.len() - 1] != '/' {
        append_str(&mut out, "/");
    }
    let name = match phase {
        Phase::Synthesis => "Synthesis",
        Phase::ManifestSummarization => "ManifestSummarization",
        Phase::FeatureDiscovery => "FeatureDiscovery",
        Phase::RiskAnalysis => "RiskAnalysis",
    };
    append_str(&mut out, name);
    append_str(&mut out, "-schema.json");
    proof {
        if d@.len() == 0 {
            assert(out@ =~= phase_name(phase) + "-schema.json"@);
        } else if d@.last() == '/' {
            assert(out@ =~= dir@ + (phase_name(phase) + "-schema.json"@));
        } else {
            assert(out@ =~= dir@ + "/"@ + (phase_name(phase) + "-schema.json"@));
        }
    }
    string_of(&out)
}

} // verus!
