//! The agent-in-the-loop path: the analysis an agent writes, the template it
//! starts from, and the deterministic decisions taken over it.
use vstd::prelude::*;

use super::arch_mapping::ModuleNode;
use crate::domain::claude_schemas::{ModuleAssessment, RiskFinding};
use crate::domain::model::CompletenessMetadata;
use crate::licensing::copyleft::CopyleftTier;
use crate::orchestrator::job::budget::BudgetTracker;
use crate::text::str_eq;

verus! {

/// The analysis an agent produces for a repository: one assessment per
/// module, an overall gating narrative, and the identified risks.
#[derive(Debug, Clone)]
pub struct AgentAnalysis {
    pub modules: Vec<ModuleAssessment>,
    pub gating_strategy: Option<String>,
    pub risks: Vec<RiskFinding>,
}

/// The assessment `a` is about module `m` (by name or identifier).
pub open spec fn assesses(a: ModuleAssessment, m: ModuleNode) -> bool {
    a.module_name@ == m.name@ || a.module_name@ == m.id@
}

/// The position of the first assessment about module `m`.
pub fn assessment_for(assessments: &Vec<ModuleAssessment>, m: &ModuleNode) -> (r: Option<usize>)
    ensures
        match r {
            Some(i) => i < assessments@.len() && assesses(assessments@[i as int], *m) && forall|j: int|
                0 <= j < i ==> !assesses(#[trigger] assessments@[j], *m),
            None => forall|j: int| 0 <= j < assessments@.len() ==> !assesses(#[trigger] assessments@[j], *m),
        },
{
    for i in 0..assessments.len()
        invariant
            forall|j: int| 0 <= j < i ==> !assesses(#[trigger] assessments@[j], *m),
    {
        let name = assessments[i].module_name.as_str();
        if str_eq(name, m.name.as_str()) || str_eq(name, m.id.as_str()) {
            return Some(i);
        }
    }
    None
}

/// The license tier of a repository from its overall risk score: strong
/// copyleft from 8, source-available from 3, permissive below.
pub open spec fn license_tier_of(overall_risk_score: u32) -> CopyleftTier {
    if overall_risk_score >= 8 {
        CopyleftTier::StrongCopyleft
    } else if overall_risk_score >= 3 {
        CopyleftTier::SourceAvailableNonOsi
    } else {
        CopyleftTier::Permissive
    }
}

/// The license tier used for every module of a repository.
pub fn repo_license_tier(overall_risk_score: u32) -> (t: CopyleftTier)
    ensures
        t == license_tier_of(overall_risk_score),
{
    if overall_risk_score >= 8 {
        CopyleftTier::StrongCopyleft
    } else if overall_risk_score >= 3 {
        CopyleftTier::SourceAvailableNonOsi
    } else {
        CopyleftTier::Permissive
    }
}

/// Whether license detection ran on the keyword heuristic rather than a full
/// license-text corpus. No corpus is built into this library, so it always
/// did: an informational completeness signal.
pub fn license_detection_is_degraded() -> (r: bool)
    ensures
        r,
{
    true
}

/// The analysis template for the agent: an empty assessment per detected
/// module, named and located after it, and no narrative or risks.
pub fn analysis_template(modules: &Vec<ModuleNode>) -> (t: AgentAnalysis)
    ensures
        t.modules@.len() == modules@.len(),
        forall|i: int|
            0 <= i < modules@.len() ==> {
                let a = #[trigger] t.modules@[i];
                &&& a.module_name == modules@[i].name
                &&& a.module_dir == modules@[i].path
                &&& a.capabilities@.len() == 0
                &&& a.estimated_tier is None
                &&& a.risks@.len() == 0
            },
        t.gating_strategy is None,
        t.risks@.len() == 0,
{
    let mut out: Vec<ModuleAssessment> = Vec::new();
    for i in 0..modules.len()
        invariant
            out@.len() == i,
            forall|j: int|
                0 <= j < i ==> {
                    let a = #[trigger] out@[j];
                    &&& a.module_name == modules@[j].name
                    &&& a.module_dir == modules@[j].path
                    &&& a.capabilities@.len() == 0
                    &&& a.estimated_tier is None
                    &&& a.risks@.len() == 0
                },
    {
        out.push(
            ModuleAssessment {
                module_name: modules[i].name.clone(),
                module_dir: modules[i].path.clone(),
                capabilities: Vec::new(),
                estimated_tier: None,
                risks: Vec::new(),
            },
        );
    }
    AgentAnalysis { modules: out, gating_strategy: None, risks: Vec::new() }
}

/// A pipeline run is complete when nothing degraded and the token budget
/// was not exhausted.
pub fn run_is_complete(completeness: &CompletenessMetadata, budget: &BudgetTracker) -> (r: bool)
    ensures
        r == (completeness.complete() && budget.total() < budget.limits().total_limit),
{
    completeness.is_complete() && !budget.is_exceeded()
}

} // verus!
