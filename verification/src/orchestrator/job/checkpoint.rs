//! Crash-recovery checkpoints and phase resumption.
use vstd::prelude::*;

use super::keyed::{last_index_of, lemma_lookup_upsert, lookup, upsert};
use super::state::PhaseKind;
use super::StoreError;

verus! {

#[verifier::external_type_specification]
#[verifier::external_body]
pub struct ExJsonValue(serde_json::Value);

/// `Clone` of `serde_json::Value` (derived in serde_json), which the derived
/// `Clone` of `JobCheckpoint` calls. Nothing is claimed of the copy: no
/// verified code reads inside a JSON value.
pub assume_specification[ <serde_json::Value as Clone>::clone ](v: &serde_json::Value) -> serde_json::Value;

/// A durable snapshot of a job's progress, used to resume after a crash.
#[derive(Debug, Clone)]
pub struct JobCheckpoint {
    pub job_id: String,
    pub last_completed_phase: Option<PhaseKind>,
    pub completed_module_ids: Vec<String>,
    pub token_usage_so_far: u64,
    pub partial_results: serde_json::Value,
    pub saved_at: String,
}

/// Checkpoints are stored under their job's identifier.
pub open spec fn checkpoint_key() -> spec_fn(JobCheckpoint) -> Seq<char> {
    |c: JobCheckpoint| c.job_id@
}

/// In-memory checkpoint store: the last checkpoint saved for each job.
pub struct InMemoryCheckpointStore {
    checkpoints: Vec<JobCheckpoint>,
}

impl InMemoryCheckpointStore {
    /// The stored checkpoints, in the order their jobs were first saved.
    pub closed spec fn entries(&self) -> Seq<JobCheckpoint> {
        self.checkpoints@
    }

    /// An empty store.
    pub fn new() -> (s: Self)
        ensures
            s.entries() == Seq::<JobCheckpoint>::empty(),
    {
        InMemoryCheckpointStore { checkpoints: Vec::new() }
    }

    fn position_of(&self, job_id: &str) -> (r: Option<usize>)
        ensures
            match r {
                Some(i) => i < self.entries().len() && i == last_index_of(
                    self.entries(),
                    checkpoint_key(),
                    job_id@,
                ),
                None => last_index_of(self.entries(), checkpoint_key(), job_id@) == -1,
            },
    {
        let ghost s = self.checkpoints@;
        let mut i: usize = self.checkpoints.len();
        assert(s.subrange(0, i as int) =~= s);
        while i > 0
            invariant
                s == self.checkpoints@,
                i <= s.len(),
                last_index_of(s, checkpoint_key(), job_id@) == last_index_of(
                    s.subrange(0, i as int),
                    checkpoint_key(),
                    job_id@,
                ),
            decreases i,
        {
            assert(s.subrange(0, i as int).drop_last() =~= s.subrange(0, i - 1));
            if crate::text::str_eq(self.checkpoints[i - 1].job_id.as_str(), job_id) {
                return Some(i - 1);
            }
            i = i - 1;
        }
        None
    }

    /// Save `checkpoint`, replacing any earlier one of its job.
    pub fn save(&mut self, checkpoint: JobCheckpoint) -> (r: Result<(), StoreError>)
        ensures
            r is Ok,
            final(self).entries() == upsert(old(self).entries(), checkpoint_key(), checkpoint),
    {
        let pos = self.position_of(checkpoint.job_id.as_str());
        match pos {
            Some(i) => {
                self.checkpoints.set(i, checkpoint);
            },
            None => {
                self.checkpoints.push(checkpoint);
            },
        }
        Ok(())
    }

    /// The last checkpoint saved for `job_id`, if any.
    pub fn load(&self, job_id: &str) -> (r: Result<Option<&JobCheckpoint>, StoreError>)
        ensures
            r matches Ok(found) && match found {
                Some(c) => lookup(self.entries(), checkpoint_key(), job_id@) == Some(*c),
                None => lookup(self.entries(), checkpoint_key(), job_id@) is None,
            },
    {
        match self.position_of(job_id) {
            Some(i) => Ok(Some(&self.checkpoints[i])),
            None => Ok(None),
        }
    }
}

/// The canonical ordered phase sequence of the pipeline.
pub open spec fn pipeline_phases() -> Seq<PhaseKind> {
    seq![
        PhaseKind::Ingestion,
        PhaseKind::LicenseScan,
        PhaseKind::ArchitectureMapping,
        PhaseKind::FeatureDiscovery,
        PhaseKind::Scoring,
        PhaseKind::Strategy,
        PhaseKind::RiskAnalysis,
        PhaseKind::ReportAssembly,
    ]
}

/// The position of `p` in the canonical sequence, `-1` for a phase outside it.
pub open spec fn phase_index(p: PhaseKind) -> int {
    match p {
        PhaseKind::Ingestion => 0,
        PhaseKind::LicenseScan => 1,
        PhaseKind::ArchitectureMapping => 2,
        PhaseKind::FeatureDiscovery => 3,
        PhaseKind::Scoring => 4,
        PhaseKind::Strategy => 5,
        PhaseKind::RiskAnalysis => 6,
        PhaseKind::ReportAssembly => 7,
        _ => -1,
    }
}

/// The phases still to run after `last` completed: the canonical phases
/// after it, all of them when none completed, none when `last` is outside
/// the canonical sequence.
pub open spec fn remaining_phases(last: Option<PhaseKind>) -> Seq<PhaseKind> {
    match last {
        None => pipeline_phases(),
        Some(l) => if phase_index(l) < 0 {
            Seq::empty()
        } else {
            pipeline_phases().subrange(phase_index(l) + 1, 8)
        },
    }
}

/// The canonical ordered phase sequence of the pipeline.
pub fn all_phases() -> (r: Vec<PhaseKind>)
    ensures
        r@ == pipeline_phases(),
{
    let r = vec![
        PhaseKind::Ingestion,
        PhaseKind::LicenseScan,
        PhaseKind::ArchitectureMapping,
        PhaseKind::FeatureDiscovery,
        PhaseKind::Scoring,
        PhaseKind::Strategy,
        PhaseKind::RiskAnalysis,
        PhaseKind::ReportAssembly,
    ];
    assert(r@ =~= pipeline_phases());
    r
}

proof fn lemma_phase_index(p: PhaseKind)
    ensures
        phase_index(p) >= 0 ==> phase_index(p) < 8 && pipeline_phases()[phase_index(p)] == p,
        forall|j: int| 0 <= j < 8 && #[trigger] pipeline_phases()[j] == p ==> j == phase_index(p),
{
}

/// Phases that still need to run given a checkpoint: everything after the
/// last completed phase.
pub fn phases_to_run(checkpoint: &JobCheckpoint) -> (r: Vec<PhaseKind>)
    ensures
        r@ == remaining_phases(checkpoint.last_completed_phase),
{
    let phases = all_phases();
    match checkpoint.last_completed_phase {
        None => phases,
        Some(last) => {
            proof {
                lemma_phase_index(last);
            }
            let ghost k = phase_index(last);
            let mut out: Vec<PhaseKind> = Vec::new();
            let mut seen = false;
            for i in 0..phases.len()
                invariant
                    phases@ == pipeline_phases(),
                    k == phase_index(last),
                    k >= 0 ==> k < 8 && pipeline_phases()[k] == last,
                    forall|j: int| 0 <= j < 8 && #[trigger] pipeline_phases()[j] == last ==> j == k,
                    seen == (0 <= k < i),
                    out@ == (if seen {
                        pipeline_phases().subrange(k + 1, i as int)
                    } else {
                        Seq::<PhaseKind>::empty()
                    }),
            {
                if seen {
                    out.push(phases[i]);
                    assert(out@ =~= pipeline_phases().subrange(k + 1, i + 1));
                } else if phases[i] == last {
                    seen = true;
                    assert(out@ =~= pipeline_phases().subrange(k + 1, i + 1));
                }
            }
            out
        },
    }
}

/// Resuming from a checkpoint never re-runs the completed phase or any
/// phase before it: the canonical phases up to and including `last`,
/// followed by the phases still to run, are the whole canonical sequence.
pub proof fn lemma_resume_after(last: PhaseKind)
    requires
        phase_index(last) >= 0,
    ensures
        pipeline_phases() =~= pipeline_phases().subrange(0, phase_index(last) + 1)
            + remaining_phases(Some(last)),
        !remaining_phases(Some(last)).contains(last),
        remaining_phases(None) == pipeline_phases(),
{
    lemma_phase_index(last);
    if remaining_phases(Some(last)).contains(last) {
        let j = choose|j: int|
            0 <= j < remaining_phases(Some(last)).len() && remaining_phases(Some(last))[j] == last;
        assert(pipeline_phases()[phase_index(last) + 1 + j] == last);
    }
}

/// Loading a job's checkpoint after saving one gives the saved checkpoint;
/// the checkpoints of other jobs load as before.
pub proof fn lemma_checkpoint_read_after_save(
    entries: Seq<JobCheckpoint>,
    checkpoint: JobCheckpoint,
    job_id: Seq<char>,
)
    ensures
        lookup(upsert(entries, checkpoint_key(), checkpoint), checkpoint_key(), job_id) == (if job_id
            == checkpoint.job_id@ {
            Some(checkpoint)
        } else {
            lookup(entries, checkpoint_key(), job_id)
        }),
{
    lemma_lookup_upsert(entries, checkpoint_key(), checkpoint, job_id);
}

} // verus!
