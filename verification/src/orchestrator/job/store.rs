//! In-memory job and module-assessment stores.
use vstd::prelude::*;

use super::keyed::{keys_unique, last_index_of, lemma_lookup_upsert, lemma_upsert_unique, lookup, upsert};
use super::state::{AssessmentJob, JobStatus};
use super::StoreError;
use crate::domain::claude_schemas::ModuleAssessment;
use crate::text::str_eq;

verus! {

/// Jobs are stored under their identifier.
pub open spec fn job_key() -> spec_fn(AssessmentJob) -> Seq<char> {
    |j: AssessmentJob| j.id@
}

/// Jobs in the given status.
pub open spec fn in_status(status: JobStatus) -> spec_fn(AssessmentJob) -> bool {
    |j: AssessmentJob| j.status == status
}

/// Jobs for `repo_url` that are neither complete nor failed.
pub open spec fn running_for(repo_url: Seq<char>) -> spec_fn(AssessmentJob) -> bool {
    |j: AssessmentJob|
        j.repo_url@ == repo_url && !(j.status == JobStatus::Complete || j.status
            == JobStatus::Failed)
}

/// `found` holds, in order, the records that `expected` lists.
pub open spec fn refers_to<T>(found: Seq<&T>, expected: Seq<T>) -> bool {
    found.len() == expected.len() && forall|i: int| 0 <= i < found.len() ==> *found[i] == expected[i]
}

/// In-memory job store: the last saved state of each job.
pub struct InMemoryAssessmentJobStore {
    jobs: Vec<AssessmentJob>,
}

impl InMemoryAssessmentJobStore {
    /// The stored jobs, in the order they were first saved.
    pub closed spec fn entries(&self) -> Seq<AssessmentJob> {
        self.jobs@
    }

    /// An empty store.
    pub fn new() -> (s: Self)
        ensures
            s.entries() == Seq::<AssessmentJob>::empty(),
    {
        InMemoryAssessmentJobStore { jobs: Vec::new() }
    }

    fn position_of(&self, job_id: &str) -> (r: Option<usize>)
        ensures
            match r {
                Some(i) => i < self.entries().len() && i == last_index_of(
                    self.entries(),
                    job_key(),
                    job_id@,
                ),
                None => last_index_of(self.entries(), job_key(), job_id@) == -1,
            },
    {
        let ghost s = self.jobs@;
        let mut i: usize = self.jobs.len();
        assert(s.subrange(0, i as int) =~= s);
        while i > 0
            invariant
                s == self.jobs@,
                i <= s.len(),
                last_index_of(s, job_key(), job_id@) == last_index_of(
                    s.subrange(0, i as int),
                    job_key(),
                    job_id@,
                ),
            decreases i,
        {
            assert(s.subrange(0, i as int).drop_last() =~= s.subrange(0, i - 1));
            if str_eq(self.jobs[i - 1].id.as_str(), job_id) {
                return Some(i - 1);
            }
            i = i - 1;
        }
        None
    }

    /// Save `job`, replacing the earlier state of the same job.
    pub fn save(&mut self, job: AssessmentJob) -> (r: Result<(), StoreError>)
        ensures
            r is Ok,
            final(self).entries() == upsert(old(self).entries(), job_key(), job),
    {
        match self.position_of(job.id.as_str()) {
            Some(i) => {
                self.jobs.set(i, job);
            },
            None => {
                self.jobs.push(job);
            },
        }
        Ok(())
    }

    /// The job stored under `job_id`, if any.
    pub fn find_by_id(&self, job_id: &str) -> (r: Result<Option<&AssessmentJob>, StoreError>)
        ensures
            r matches Ok(found) && match found {
                Some(j) => lookup(self.entries(), job_key(), job_id@) == Some(*j),
                None => lookup(self.entries(), job_key(), job_id@) is None,
            },
    {
        match self.position_of(job_id) {
            Some(i) => Ok(Some(&self.jobs[i])),
            None => Ok(None),
        }
    }

    fn select(&self, status: JobStatus, repo_url: &str, by_repo: bool) -> (r: Vec<&AssessmentJob>)
        ensures
            refers_to(
                r@,
                self.entries().filter(
                    if by_repo {
                        running_for(repo_url@)
                    } else {
                        in_status(status)
                    },
                ),
            ),
    {
        let ghost pred = if by_repo {
            running_for(repo_url@)
        } else {
            in_status(status)
        };
        let ghost s = self.jobs@;
        let mut out: Vec<&AssessmentJob> = Vec::new();
        assert(s.subrange(0, 0).filter(pred) =~= Seq::<AssessmentJob>::empty()) by {
            reveal(Seq::filter);
        }
        for i in 0..self.jobs.len()
            invariant
                s == self.jobs@,
                pred == (if by_repo {
                    running_for(repo_url@)
                } else {
                    in_status(status)
                }),
                refers_to(out@, s.subrange(0, i as int).filter(pred)),
        {
            let j = &self.jobs[i];
            let keep = if by_repo {
                str_eq(j.repo_url.as_str(), repo_url) && !(j.status == JobStatus::Complete
                    || j.status == JobStatus::Failed)
            } else {
                j.status == status
            };
            assert(s.subrange(0, i + 1).drop_last() =~= s.subrange(0, i as int));
            assert(s.subrange(0, i + 1).filter(pred) == (if pred(s[i as int]) {
                s.subrange(0, i as int).filter(pred).push(s[i as int])
            } else {
                s.subrange(0, i as int).filter(pred)
            })) by {
                reveal(Seq::filter);
            }
            if keep {
                out.push(j);
            }
        }
        assert(s.subrange(0, s.len() as int) =~= s);
        out
    }

    /// The stored jobs in `status`.
    pub fn find_by_status(&self, status: JobStatus) -> (r: Result<Vec<&AssessmentJob>, StoreError>)
        ensures
            r matches Ok(found) && refers_to(found@, self.entries().filter(in_status(status))),
    {
        Ok(self.select(status, "", false))
    }

    /// The stored jobs for `repo_url` that are neither complete nor failed.
    pub fn find_concurrent_for_repo(&self, repo_url: &str) -> (r: Result<
        Vec<&AssessmentJob>,
        StoreError,
    >)
        ensures
            r matches Ok(found) && refers_to(found@, self.entries().filter(running_for(repo_url@))),
    {
        Ok(self.select(JobStatus::Queued, repo_url, true))
    }
}

/// Module assessments are stored under their job and module name.
pub open spec fn assessment_key() -> spec_fn((String, ModuleAssessment)) -> (Seq<char>, Seq<char>) {
    |e: (String, ModuleAssessment)| (e.0@, e.1.module_name@)
}

/// Entries of the job `job_id`.
pub open spec fn of_job(job_id: Seq<char>) -> spec_fn((String, ModuleAssessment)) -> bool {
    |e: (String, ModuleAssessment)| e.0@ == job_id
}

/// The assessments of a sequence of entries.
pub open spec fn assessments_of(s: Seq<(String, ModuleAssessment)>) -> Seq<ModuleAssessment> {
    s.map_values(|e: (String, ModuleAssessment)| e.1)
}

/// In-memory module-assessment store, keyed by job and module name.
pub struct InMemoryModuleAssessmentStore {
    assessments: Vec<(String, ModuleAssessment)>,
}

impl InMemoryModuleAssessmentStore {
    /// The stored `(job, assessment)` entries, in the order first saved.
    pub closed spec fn entries(&self) -> Seq<(String, ModuleAssessment)> {
        self.assessments@
    }

    /// An empty store.
    pub fn new() -> (s: Self)
        ensures
            s.entries() == Seq::<(String, ModuleAssessment)>::empty(),
    {
        InMemoryModuleAssessmentStore { assessments: Vec::new() }
    }

    fn position_of(&self, job_id: &str, module_id: &str) -> (r: Option<usize>)
        ensures
            match r {
                Some(i) => i < self.entries().len() && i == last_index_of(
                    self.entries(),
                    assessment_key(),
                    (job_id@, module_id@),
                ),
                None => last_index_of(self.entries(), assessment_key(), (job_id@, module_id@))
                    == -1,
            },
    {
        let ghost s = self.assessments@;
        let ghost k = (job_id@, module_id@);
        let mut i: usize = self.assessments.len();
        assert(s.subrange(0, i as int) =~= s);
        while i > 0
            invariant
                s == self.assessments@,
                k == (job_id@, module_id@),
                i <= s.len(),
                last_index_of(s, assessment_key(), k) == last_index_of(
                    s.subrange(0, i as int),
                    assessment_key(),
                    k,
                ),
            decreases i,
        {
            assert(s.subrange(0, i as int).drop_last() =~= s.subrange(0, i - 1));
            let e = &self.assessments[i - 1];
            if str_eq(e.0.as_str(), job_id) && str_eq(e.1.module_name.as_str(), module_id) {
                return Some(i - 1);
            }
            i = i - 1;
        }
        None
    }

    /// Save `assessment` for `job_id`, replacing an earlier assessment of the
    /// same module in the same job.
    pub fn save(&mut self, job_id: &str, assessment: ModuleAssessment) -> (r: Result<(), StoreError>)
        ensures
            r is Ok,
            exists|k: String|
                k@ == job_id@ && #[trigger] final(self).entries() == upsert(
                    old(self).entries(),
                    assessment_key(),
                    (k, assessment),
                ),
    {
        let pos = self.position_of(job_id, assessment.module_name.as_str());
        let entry = (job_id.to_owned(), assessment);
        match pos {
            Some(i) => {
                self.assessments.set(i, entry);
            },
            None => {
                self.assessments.push(entry);
            },
        }
        Ok(())
    }

    /// The assessment of `module_id` in `job_id`, if any.
    pub fn find_by_module(&self, job_id: &str, module_id: &str) -> (r: Result<
        Option<&ModuleAssessment>,
        StoreError,
    >)
        ensures
            r matches Ok(found) && match found {
                Some(a) => lookup(self.entries(), assessment_key(), (job_id@, module_id@)) matches Some(
                    e,
                ) && e.1 == *a,
                None => lookup(self.entries(), assessment_key(), (job_id@, module_id@)) is None,
            },
    {
        match self.position_of(job_id, module_id) {
            Some(i) => Ok(Some(&self.assessments[i].1)),
            None => Ok(None),
        }
    }

    /// Whether `module_id` has an assessment in `job_id`.
    pub fn contains_module(&self, job_id: &str, module_id: &str) -> (r: Result<bool, StoreError>)
        ensures
            r == Ok::<bool, StoreError>(
                lookup(self.entries(), assessment_key(), (job_id@, module_id@)) is Some,
            ),
    {
        Ok(self.position_of(job_id, module_id).is_some())
    }

    /// All assessments stored for `job_id`, in the order first saved.
    pub fn load_all(&self, job_id: &str) -> (r: Result<Vec<&ModuleAssessment>, StoreError>)
        ensures
            r matches Ok(found) && refers_to(
                found@,
                assessments_of(self.entries().filter(of_job(job_id@))),
            ),
    {
        let ghost s = self.assessments@;
        let ghost pred = of_job(job_id@);
        let mut out: Vec<&ModuleAssessment> = Vec::new();
        assert(s.subrange(0, 0).filter(pred) =~= Seq::<(String, ModuleAssessment)>::empty()) by {
            reveal(Seq::filter);
        }
        for i in 0..self.assessments.len()
            invariant
                s == self.assessments@,
                pred == of_job(job_id@),
                refers_to(out@, assessments_of(s.subrange(0, i as int).filter(pred))),
        {
            let e = &self.assessments[i];
            assert(s.subrange(0, i + 1).drop_last() =~= s.subrange(0, i as int));
            assert(s.subrange(0, i + 1).filter(pred) == (if pred(s[i as int]) {
                s.subrange(0, i as int).filter(pred).push(s[i as int])
            } else {
                s.subrange(0, i as int).filter(pred)
            })) by {
                reveal(Seq::filter);
            }
            if str_eq(e.0.as_str(), job_id) {
                out.push(&e.1);
            }
        }
        assert(s.subrange(0, s.len() as int) =~= s);
        Ok(out)
    }
}

/// Reading a job back after saving it gives the saved job; every other job
/// reads as before; and no two stored jobs share an identifier.
pub proof fn lemma_job_read_after_save(entries: Seq<AssessmentJob>, job: AssessmentJob, job_id: Seq<char>)
    ensures
        lookup(upsert(entries, job_key(), job), job_key(), job_id) == (if job_id == job.id@ {
            Some(job)
        } else {
            lookup(entries, job_key(), job_id)
        }),
        keys_unique(entries, job_key()) ==> keys_unique(upsert(entries, job_key(), job), job_key()),
{
    lemma_lookup_upsert(entries, job_key(), job, job_id);
    if keys_unique(entries, job_key()) {
        lemma_upsert_unique(entries, job_key(), job);
    }
}

/// Reading a module's assessment back after saving it for a job gives the
/// saved assessment; every other (job, module) pair reads as before.
pub proof fn lemma_assessment_read_after_save(
    entries: Seq<(String, ModuleAssessment)>,
    entry: (String, ModuleAssessment),
    key: (Seq<char>, Seq<char>),
)
    ensures
        lookup(upsert(entries, assessment_key(), entry), assessment_key(), key) == (if key == (
            entry.0@,
            entry.1.module_name@,
        ) {
            Some(entry)
        } else {
            lookup(entries, assessment_key(), key)
        }),
{
    lemma_lookup_upsert(entries, assessment_key(), entry, key);
}

} // verus!
