//! The risk profile of an assessment and the risk-analysis request.
use vstd::prelude::*;

use crate::domain::claude_schemas::{RiskAnalysisOutput, RiskFinding};
use crate::domain::model::Risk;
use crate::domain::types::{RiskKind, Severity};
use crate::orchestrator::claude::invocation::{ClaudeInvocation, ClaudeModel};
use crate::text::{append_str, chars_of, contains_seq, contains_str, string_of, to_lowercase, unicode_lowercase};

verus! {

/// The aggregated risk profile for an assessment.
#[derive(Debug, Clone)]
pub struct RiskProfile {
    pub risks: Vec<Risk>,
    pub blocking_risk_count: usize,
    pub high_severity_count: usize,
    pub overall_risk_level: String,
}

/// The number of blocking findings.
pub open spec fn count_blocking(fs: Seq<RiskFinding>) -> nat
    decreases fs.len(),
{
    if fs.len() == 0 {
        0
    } else {
        count_blocking(fs.drop_last()) + (if fs.last().is_blocking {
            1nat
        } else {
            0nat
        })
    }
}

/// The number of high-severity findings.
pub open spec fn count_high(fs: Seq<RiskFinding>) -> nat
    decreases fs.len(),
{
    if fs.len() == 0 {
        0
    } else {
        count_high(fs.drop_last()) + (if fs.last().severity == Severity::High {
            1nat
        } else {
            0nat
        })
    }
}

/// The overall risk level: `high` with any blocking risk, `medium` with more
/// than two high-severity risks, `low` otherwise.
pub open spec fn risk_level(blocking: nat, high: nat) -> Seq<char> {
    if blocking > 0 {
        "high"@
    } else if high > 2 {
        "medium"@
    } else {
        "low"@
    }
}

/// The kind of a risk from its lower-cased category text, by the first
/// matching keyword group; over-gating when none matches.
pub open spec fn category_kind(c: Seq<char>) -> RiskKind {
    if contains_seq(c, "backlash"@) || contains_seq(c, "community"@) {
        RiskKind::CommunityBacklash
    } else if contains_seq(c, "license"@) || contains_seq(c, "copyleft"@) {
        RiskKind::LicenseConflict
    } else if contains_seq(c, "competit"@) {
        RiskKind::CompetitiveExposure
    } else if contains_seq(c, "security"@) {
        RiskKind::SecurityExposure
    } else if contains_seq(c, "under"@) {
        RiskKind::UnderGating
    } else if contains_seq(c, "accidental"@) || contains_seq(c, "open"@) {
        RiskKind::AccidentalOpenSource
    } else {
        RiskKind::OverGating
    }
}

/// The domain risk of a finding.
pub open spec fn risk_for(f: RiskFinding) -> Risk {
    Risk {
        kind: category_kind(unicode_lowercase(f.category@)),
        severity: f.severity,
        description: f.description,
        mitigation: Some(f.mitigation_suggestion),
        is_blocking: f.is_blocking,
    }
}

/// The risk profile of a set of findings.
pub open spec fn profile_of(profile: RiskProfile, fs: Seq<RiskFinding>) -> bool {
    &&& profile.risks@ == fs.map_values(|f: RiskFinding| risk_for(f))
    &&& profile.blocking_risk_count == count_blocking(fs)
    &&& profile.high_severity_count == count_high(fs)
    &&& profile.overall_risk_level@ == risk_level(count_blocking(fs), count_high(fs))
}

/// Classify a risk category into a risk kind, case-insensitively.
pub fn classify_kind(category: &str) -> (k: RiskKind)
    ensures
        k == category_kind(unicode_lowercase(category@)),
{
    let lowered = to_lowercase(category);
    let c = chars_of(lowered.as_str());
    if contains_str(&c, "backlash") || contains_str(&c, "community") {
        RiskKind::CommunityBacklash
    } else if contains_str(&c, "license") || contains_str(&c, "copyleft") {
        RiskKind::LicenseConflict
    } else if contains_str(&c, "competit") {
        RiskKind::CompetitiveExposure
    } else if contains_str(&c, "security") {
        RiskKind::SecurityExposure
    } else if contains_str(&c, "under") {
        RiskKind::UnderGating
    } else if contains_str(&c, "accidental") || contains_str(&c, "open") {
        RiskKind::AccidentalOpenSource
    } else {
        RiskKind::OverGating
    }
}

/// The domain risks of the findings, in order.
pub fn map_risks(findings: &[RiskFinding]) -> (r: Vec<Risk>)
    ensures
        r@ == findings@.map_values(|f: RiskFinding| risk_for(f)),
{
    let mut out: Vec<Risk> = Vec::new();
    for i in 0..findings.len()
        invariant
            out@.len() == i,
            forall|j: int| 0 <= j < i ==> #[trigger] out@[j] == risk_for(findings@[j]),
    {
        let f = &findings[i];
        out.push(
            Risk {
                kind: classify_kind(f.category.as_str()),
                severity: f.severity,
                description: f.description.clone(),
                mitigation: Some(f.mitigation_suggestion.clone()),
                is_blocking: f.is_blocking,
            },
        );
    }
    assert(out@ =~= findings@.map_values(|f: RiskFinding| risk_for(f)));
    out
}

/// Build a risk profile directly from risk findings.
pub fn risk_profile_from_findings(findings: &[RiskFinding]) -> (p: RiskProfile)
    ensures
        profile_of(p, findings@),
{
    let mut blocking: usize = 0;
    let mut high: usize = 0;
    for i in 0..findings.len()
        invariant
            i <= findings@.len(),
            blocking == count_blocking(findings@.subrange(0, i as int)),
            high == count_high(findings@.subrange(0, i as int)),
            blocking <= i,
            high <= i,
    {
        assert(findings@.subrange(0, i + 1).drop_last() =~= findings@.subrange(0, i as int));
        if findings[i].is_blocking {
            blocking = blocking + 1;
        }
        if findings[i].severity == Severity::High {
            high = high + 1;
        }
    }
    assert(findings@.subrange(0, findings@.len() as int) =~= findings@);
    let level = if blocking > 0 {
        "high"
    } else if high > 2 {
        "medium"
    } else {
        "low"
    };
    RiskProfile {
        risks: map_risks(findings),
        blocking_risk_count: blocking,
        high_severity_count: high,
        overall_risk_level: level.to_owned(),
    }
}

/// The risk profile of a risk-analysis reply: risk analysis is advisory, so
/// a reply that gave no valid output counts as no risks.
pub fn risk_profile_from_output(output: Option<RiskAnalysisOutput>) -> (p: RiskProfile)
    ensures
        profile_of(
            p,
            match output {
                Some(o) => o.risks@,
                None => Seq::empty(),
            },
        ),
{
    match output {
        Some(o) => risk_profile_from_findings(o.risks.as_slice()),
        None => {
            let empty: Vec<RiskFinding> = Vec::new();
            risk_profile_from_findings(empty.as_slice())
        },
    }
}

/// The request text of the risk-analysis session around the JSON renderings
/// of the strategy, valuation, license report and inventory.
pub open spec fn risk_prompt_text(
    strategy: Seq<char>,
    valuation: Seq<char>,
    license: Seq<char>,
    inventory: Seq<char>,
) -> Seq<char> {
    "Identify risks in this gating strategy (over-gating, community backlash, license conflicts, competitive exposure, security exposure). Return a RiskAnalysisOutput.\n\nSTRATEGY: "@
        + strategy + "\n\nVALUATION: "@ + valuation + "\n\nLICENSE: "@ + license
        + "\n\nINVENTORY: "@ + inventory
}

/// The risk-analysis request, routed to Sonnet with no tools.
pub fn risk_invocation(strategy_json: &str, valuation_json: &str, license_json: &str, inventory_json: &str) -> (inv: ClaudeInvocation)
    ensures
        inv.prompt@ == risk_prompt_text(strategy_json@, valuation_json@, license_json@, inventory_json@),
        inv.model == ClaudeModel::Sonnet,
        inv.schema_path is None,
        inv.allowed_tools@.len() == 0,
        inv.system_prompt is None,
        inv.working_dir is None,
        inv.session_id is None,
{
    let mut p: Vec<char> = Vec::new();
    append_str(&mut p, "Identify risks in this gating strategy (over-gating, community backlash, license conflicts, competitive exposure, security exposure). Return a RiskAnalysisOutput.\n\nSTRATEGY: ");
    append_str(&mut p, strategy_json);
    append_str(&mut p, "\n\nVALUATION: ");
    append_str(&mut p, valuation_json);
    append_str(&mut p, "\n\nLICENSE: ");
    append_str(&mut p, license_json);
    append_str(&mut p, "\n\nINVENTORY: ");
    append_str(&mut p, inventory_json);
    ClaudeInvocation {
        prompt: string_of(&p),
        model: ClaudeModel::Sonnet,
        schema_path: None,
        allowed_tools: Vec::new(),
        system_prompt: None,
        working_dir: None,
        session_id: None,
    }
}

} // verus!
