//! Job and phase state for the assessment pipeline.
use vstd::prelude::*;

use crate::domain::claude_schemas::ModuleAssessment;
use crate::ids::new_uuid;
use crate::ingestion::manifest::RepoManifest;

verus! {

/// Overall status of an assessment job.
#[derive(Debug, Clone, Copy, PartialEq, Eq, Structural)]
pub enum JobStatus {
    Queued,
    Ingesting,
    Analyzing,
    Scoring,
    Strategizing,
    RiskAnalyzing,
    Reporting,
    Complete,
    Failed,
    Recovering,
}

/// A discrete unit of pipeline work.
#[derive(Debug, Clone, Copy, PartialEq, Eq, Structural)]
pub enum PhaseKind {
    Ingestion,
    LicenseScan,
    ArchitectureMapping,
    FeatureDiscovery,
    Scoring,
    Strategy,
    RiskAnalysis,
    ReportAssembly,
    ManifestSummarization,
    Synthesis,
}

/// Execution record for one phase of a job.
#[derive(Debug, Clone)]
pub struct AnalysisPhase {
    pub id: String,
    pub job_id: String,
    pub phase_kind: PhaseKind,
    pub status: JobStatus,
    pub started_at: Option<String>,
    pub completed_at: Option<String>,
    pub tokens_used: u64,
    pub session_ids: Vec<String>,
    pub error: Option<String>,
    pub retry_count: u32,
}

/// The durable aggregate root for a single repository assessment run.
#[derive(Debug, Clone)]
pub struct AssessmentJob {
    pub id: String,
    pub repo_url: String,
    pub status: JobStatus,
    pub current_phase: Option<PhaseKind>,
    pub tokens_used: u64,
    pub created_at: String,
    pub updated_at: String,
    pub error: Option<String>,
    /// The ingestion manifest, once produced.
    pub manifest: Option<RepoManifest>,
    /// Module identifiers (names) expected to be assessed.
    pub module_ids: Vec<String>,
    /// Stored per-module assessments, keyed implicitly by `module_name`.
    pub module_assessments: Vec<ModuleAssessment>,
}

/// Some assessment in `assessments` is of the module named `id`.
pub open spec fn has_assessment(assessments: Seq<ModuleAssessment>, id: Seq<char>) -> bool {
    exists|j: int| 0 <= j < assessments.len() && (#[trigger] assessments[j]).module_name@ == id
}

/// Every expected module of `job` has a stored assessment.
pub open spec fn all_assessed(job: AssessmentJob) -> bool {
    forall|i: int|
        0 <= i < job.module_ids@.len() ==> has_assessment(
            job.module_assessments@,
            (#[trigger] job.module_ids@[i])@,
        )
}

impl AssessmentJob {
    /// A fresh queued job for `repo_url`, with a new random identifier.
    pub fn new(repo_url: &str, now: &str) -> (j: Self)
        ensures
            crate::ids::is_uuid_v4_text(j.id@),
            j.repo_url@ == repo_url@,
            j.status == JobStatus::Queued,
            j.current_phase is None,
            j.tokens_used == 0,
            j.created_at@ == now@,
            j.updated_at@ == now@,
            j.error is None,
            j.manifest is None,
            j.module_ids@.len() == 0,
            j.module_assessments@.len() == 0,
    {
        AssessmentJob {
            id: new_uuid(),
            repo_url: repo_url.to_owned(),
            status: JobStatus::Queued,
            current_phase: None,
            tokens_used: 0,
            created_at: now.to_owned(),
            updated_at: now.to_owned(),
            error: None,
            manifest: None,
            module_ids: Vec::new(),
            module_assessments: Vec::new(),
        }
    }

    /// True when every expected module has a stored assessment.
    pub fn all_modules_assessed(&self) -> (r: bool)
        ensures
            r == all_assessed(*self),
    {
        let mut i: usize = 0;
        while i < self.module_ids.len()
            invariant
                i <= self.module_ids@.len(),
                forall|k: int|
                    0 <= k < i ==> has_assessment(
                        self.module_assessments@,
                        (#[trigger] self.module_ids@[k])@,
                    ),
            decreases self.module_ids@.len() - i,
        {
            let id = self.module_ids[i].as_str();
            let mut found = false;
            let mut j: usize = 0;
            while j < self.module_assessments.len()
                invariant
                    j <= self.module_assessments@.len(),
                    found == exists|m: int|
                        0 <= m < j && (#[trigger] self.module_assessments@[m]).module_name@
                            == id@,
                decreases self.module_assessments@.len() - j,
            {
                if crate::text::str_eq(self.module_assessments[j].module_name.as_str(), id) {
                    found = true;
                }
                j = j + 1;
            }
            if !found {
                return false;
            }
            i = i + 1;
        }
        true
    }
}

} // verus!
