//! Functionality discovery: one model session per module, skipping modules
//! already assessed and starting no session once the budget is exhausted.
//!
//! The sessions themselves run outside the library; these functions decide
//! which module to analyse next and fold each reply into the progress.
use vstd::prelude::*;

use super::arch_mapping::ModuleNode;
use super::llm_adapter::{
    add_items, count_visibility, items_of_module, items_of_modules, map_to_functionality_items,
    FunctionalityInventory, FunctionalityItem,
};
use crate::domain::claude_schemas::ModuleAssessment;
use crate::domain::model::Visibility;
use crate::orchestrator::claude::invocation::{string_views, ClaudeInvocation};
use crate::orchestrator::claude::routing::{model_for, select_model, Phase};
use crate::orchestrator::claude::stream::UsageStats;
use crate::orchestrator::job::budget::{usage_cost, BudgetTracker};
use crate::orchestrator::job::keyed::{lookup, upsert};
use crate::orchestrator::job::store::{assessment_key, InMemoryModuleAssessmentStore};
use crate::text::{append_str, string_of};

verus! {

/// The tools a discovery session may use.
pub open spec fn discovery_tool_names() -> Seq<Seq<char>> {
    seq!["Read"@, "Glob"@, "Bash(grep *)"@, "Bash(find *)"@]
}

/// The tools a discovery session may use.
pub fn discovery_tools() -> (r: Vec<String>)
    ensures
        string_views(r@) == discovery_tool_names(),
{
    let r = vec![
        "Read".to_owned(),
        "Glob".to_owned(),
        "Bash(grep *)".to_owned(),
        "Bash(find *)".to_owned(),
    ];
    assert(string_views(r@) =~= discovery_tool_names());
    r
}

/// The request of the discovery session for a module.
pub open spec fn discovery_prompt_text(name: Seq<char>, path: Seq<char>) -> Seq<char> {
    "Analyze module `"@ + name + "` at `"@ + path
        + "`. Discover all capabilities (public, internal, experimental, undocumented, enterprise), API entry points, CLI commands, and SDK exports. Return a ModuleAssessment."@
}

/// The discovery request for `module`, run in the checkout at `repo_dir` with
/// the model that routing picks for the module.
pub fn discovery_invocation(module: &ModuleNode, repo_dir: &str) -> (inv: ClaudeInvocation)
    ensures
        inv.prompt@ == discovery_prompt_text(module.name@, module.path@),
        inv.model == model_for(module.name@, Phase::FeatureDiscovery),
        inv.schema_path is None,
        string_views(inv.allowed_tools@) == discovery_tool_names(),
        inv.system_prompt is None,
        inv.working_dir matches Some(d) && d@ == repo_dir@,
        inv.session_id is None,
{
    let mut p: Vec<char> = Vec::new();
    append_str(&mut p, "Analyze module `");
    append_str(&mut p, module.name.as_str());
    append_str(&mut p, "` at `");
    append_str(&mut p, module.path.as_str());
    append_str(
        &mut p,
        "`. Discover all capabilities (public, internal, experimental, undocumented, enterprise), API entry points, CLI commands, and SDK exports. Return a ModuleAssessment.",
    );
    ClaudeInvocation {
        prompt: string_of(&p),
        model: select_model(module.name.as_str(), Phase::FeatureDiscovery),
        schema_path: None,
        allowed_tools: discovery_tools(),
        system_prompt: None,
        working_dir: Some(repo_dir.to_owned()),
        session_id: None,
    }
}

/// What a discovery session gave back.
pub enum DiscoveryEvent {
    /// The session could not be run.
    SessionFailed,
    /// The session replied, with its token usage and the assessment its
    /// output held, if the output parsed as one.
    Replied { usage: UsageStats, assessment: Option<ModuleAssessment> },
}

/// What the discovery loop does next.
#[derive(Debug, Clone, Copy, PartialEq, Eq, Structural)]
pub enum DiscoveryStep {
    /// Run a session for the module at this index.
    Analyze(usize),
    /// Stop: every module was considered, or the budget ran out.
    Done,
}

/// The assessment a session's reply held, if it replied with one.
pub open spec fn replied_assessment(e: DiscoveryEvent) -> Option<ModuleAssessment> {
    match e {
        DiscoveryEvent::Replied { assessment, .. } => assessment,
        DiscoveryEvent::SessionFailed => None,
    }
}

/// The functionality items a session's reply adds: those of its
/// assessment, or none.
pub open spec fn event_items(e: DiscoveryEvent) -> Seq<FunctionalityItem> {
    match replied_assessment(e) {
        Some(a) => items_of_module(a),
        None => Seq::empty(),
    }
}

/// The assessments the sessions of a run replied with, in the order the
/// sessions ran; a step that ran no session is `None`.
pub open spec fn replied_assessments(events: Seq<Option<DiscoveryEvent>>) -> Seq<ModuleAssessment>
    decreases events.len(),
{
    if events.len() == 0 {
        Seq::empty()
    } else {
        let before = replied_assessments(events.drop_last());
        match events.last() {
            Some(e) => match replied_assessment(e) {
                Some(a) => before.push(a),
                None => before,
            },
            None => before,
        }
    }
}

/// The progress of the discovery loop over a list of modules.
pub struct DiscoveryProgress {
    /// Index of the next module to consider.
    pub next: usize,
    pub items: Vec<FunctionalityItem>,
    pub hidden_count: usize,
    pub enterprise_count: usize,
    pub degraded_modules: Vec<String>,
    pub budget_skipped_modules: Vec<String>,
}

impl DiscoveryProgress {
    /// The counters agree with the items.
    pub open spec fn counts_agree(&self) -> bool {
        &&& self.hidden_count == count_visibility(self.items@, Visibility::Undocumented)
        &&& self.enterprise_count == count_visibility(self.items@, Visibility::Enterprise)
    }

    /// Nothing done yet.
    pub fn new() -> (p: Self)
        ensures
            p.next == 0,
            p.items@.len() == 0,
            p.degraded_modules@.len() == 0,
            p.budget_skipped_modules@.len() == 0,
            p.counts_agree(),
    {
        DiscoveryProgress {
            next: 0,
            items: Vec::new(),
            hidden_count: 0,
            enterprise_count: 0,
            degraded_modules: Vec::new(),
            budget_skipped_modules: Vec::new(),
        }
    }
}

/// One step of the discovery loop from `before` to `after`: a decision that
/// ran no session (`None`: the items stay, the position does not go back),
/// or the recording of the reply `e` of the session for the module at
/// `before.next` (`Some(e)`: its items are appended, the position advances
/// by one).
pub open spec fn discovery_transition(
    before: DiscoveryProgress,
    after: DiscoveryProgress,
    e: Option<DiscoveryEvent>,
) -> bool {
    match e {
        None => after.items@ == before.items@ && before.next <= after.next,
        Some(ev) => after.items@ == before.items@ + event_items(ev) && after.next == before.next + 1,
    }
}

/// The module `m` already has a stored assessment in job `job_id`.
pub open spec fn already_assessed(store: InMemoryModuleAssessmentStore, job_id: Seq<char>, m: ModuleNode) -> bool {
    lookup(store.entries(), assessment_key(), (job_id, m.id@)) is Some
}

/// The identifiers of the modules.
pub open spec fn module_ids(ms: Seq<ModuleNode>) -> Seq<Seq<char>> {
    ms.map_values(|m: ModuleNode| m.id@)
}

/// Decide the next step: once the budget is exhausted no further session
/// starts (the modules not yet considered are recorded as skipped for the
/// budget); otherwise modules that already have a stored assessment are
/// passed over and the first one without is analysed.
pub fn next_discovery_step(
    progress: &mut DiscoveryProgress,
    modules: &Vec<ModuleNode>,
    store: &InMemoryModuleAssessmentStore,
    budget: &BudgetTracker,
    job_id: &str,
) -> (step: DiscoveryStep)
    requires
        old(progress).next <= modules@.len(),
    ensures
        final(progress).items == old(progress).items,
        final(progress).hidden_count == old(progress).hidden_count,
        final(progress).enterprise_count == old(progress).enterprise_count,
        final(progress).degraded_modules == old(progress).degraded_modules,
        old(progress).next <= final(progress).next <= modules@.len(),
        discovery_transition(*old(progress), *final(progress), None),
        budget.total() >= budget.limits().total_limit && old(progress).next < modules@.len() ==> {
            &&& step == DiscoveryStep::Done
            &&& final(progress).next == modules@.len()
            &&& string_views(final(progress).budget_skipped_modules@) == string_views(
                old(progress).budget_skipped_modules@,
            ) + module_ids(modules@.subrange(old(progress).next as int, modules@.len() as int))
        },
        !(budget.total() >= budget.limits().total_limit && old(progress).next < modules@.len())
            ==> {
            &&& final(progress).budget_skipped_modules == old(progress).budget_skipped_modules
            &&& forall|j: int|
                old(progress).next <= j < final(progress).next ==> already_assessed(
                    *store,
                    job_id@,
                    #[trigger] modules@[j],
                )
            &&& match step {
                DiscoveryStep::Analyze(i) => i == final(progress).next && i < modules@.len()
                    && !already_assessed(*store, job_id@, modules@[i as int]),
                DiscoveryStep::Done => final(progress).next == modules@.len(),
            }
        },
{
    let start = progress.next;
    if start < modules.len() && budget.is_exceeded() {
        let ghost before = progress.budget_skipped_modules@;
        let mut k: usize = start;
        while k < modules.len()
            invariant
                start <= k <= modules@.len(),
                progress.items == old(progress).items,
                progress.hidden_count == old(progress).hidden_count,
                progress.enterprise_count == old(progress).enterprise_count,
                progress.degraded_modules == old(progress).degraded_modules,
                before == old(progress).budget_skipped_modules@,
                string_views(progress.budget_skipped_modules@) == string_views(before) + module_ids(
                    modules@.subrange(start as int, k as int),
                ),
            decreases modules@.len() - k,
        {
            let ghost prev = progress.budget_skipped_modules@;
            let id = modules[k].id.clone();
            progress.budget_skipped_modules.push(id);
            assert(progress.budget_skipped_modules@ == prev.push(id));
            assert(string_views(prev.push(id)) =~= string_views(prev).push(id@));
            assert(module_ids(modules@.subrange(start as int, k + 1)) =~= module_ids(
                modules@.subrange(start as int, k as int),
            ).push(modules@[k as int].id@));
            k = k + 1;
        }
        progress.next = modules.len();
        return DiscoveryStep::Done;
    }
    let mut i: usize = start;
    while i < modules.len()
        invariant
            start <= i <= modules@.len(),
            *progress == *old(progress),
            start == old(progress).next,
            !(budget.total() >= budget.limits().total_limit && start < modules@.len()),
            forall|j: int| start <= j < i ==> already_assessed(*store, job_id@, #[trigger] modules@[j]),
        decreases modules@.len() - i,
    {
        let stored = store.contains_module(job_id, modules[i].id.as_str());
        match stored {
            Ok(true) => {},
            _ => {
                progress.next = i;
                return DiscoveryStep::Analyze(i);
            },
        }
        i = i + 1;
    }
    progress.next = i;
    DiscoveryStep::Done
}

/// Fold the reply of the session for module `modules[progress.next]` into
/// the progress: a failed session or an unusable reply marks the module
/// degraded; a reply's usage is recorded against the budget; an assessment
/// adds its functionality items and is stored for the job.
pub fn record_discovery_event(
    progress: &mut DiscoveryProgress,
    modules: &Vec<ModuleNode>,
    event: DiscoveryEvent,
    budget: &mut BudgetTracker,
    store: &mut InMemoryModuleAssessmentStore,
    job_id: &str,
)
    requires
        old(progress).next < modules@.len(),
        old(progress).counts_agree(),
        event matches DiscoveryEvent::Replied { usage, .. } ==> old(budget).total() + usage_cost(
            usage.input_tokens,
            usage.output_tokens,
            usage.cache_read_input_tokens,
        ) <= u64::MAX,
    ensures
        final(progress).next == old(progress).next + 1,
        final(progress).counts_agree(),
        discovery_transition(*old(progress), *final(progress), Some(event)),
        final(progress).budget_skipped_modules == old(progress).budget_skipped_modules,
        final(budget).limits() == old(budget).limits(),
        match event {
            DiscoveryEvent::SessionFailed => {
                &&& final(budget).total() == old(budget).total()
                &&& final(store).entries() == old(store).entries()
                &&& final(progress).items == old(progress).items
                &&& string_views(final(progress).degraded_modules@) == string_views(
                    old(progress).degraded_modules@,
                ).push(modules@[old(progress).next as int].id@)
            },
            DiscoveryEvent::Replied { usage, assessment } => {
                &&& final(budget).total() == old(budget).total() + usage_cost(
                    usage.input_tokens,
                    usage.output_tokens,
                    usage.cache_read_input_tokens,
                )
                &&& match assessment {
                    None => {
                        &&& final(store).entries() == old(store).entries()
                        &&& final(progress).items == old(progress).items
                        &&& string_views(final(progress).degraded_modules@) == string_views(
                            old(progress).degraded_modules@,
                        ).push(modules@[old(progress).next as int].id@)
                    },
                    Some(a) => {
                        &&& (exists|k: String|
                            k@ == job_id@ && #[trigger] final(store).entries() == upsert(
                                old(store).entries(),
                                assessment_key(),
                                (k, a),
                            ))
                        &&& final(progress).items@ == old(progress).items@ + items_of_module(a)
                        &&& final(progress).degraded_modules == old(progress).degraded_modules
                    },
                }
            },
        },
{
    let i = progress.next;
    let _n = modules.len();
    let ghost old_degraded = progress.degraded_modules@;
    match event {
        DiscoveryEvent::SessionFailed => {
            progress.degraded_modules.push(modules[i].id.clone());
            assert(string_views(progress.degraded_modules@) =~= string_views(old_degraded).push(
                modules@[i as int].id@,
            ));
        },
        DiscoveryEvent::Replied { usage, assessment } => {
            budget.record_usage(
                usage.input_tokens,
                usage.output_tokens,
                usage.cache_read_input_tokens,
            );
            match assessment {
                None => {
                    progress.degraded_modules.push(modules[i].id.clone());
                    assert(string_views(progress.degraded_modules@) =~= string_views(
                        old_degraded,
                    ).push(modules@[i as int].id@));
                },
                Some(a) => {
                    let new_items = map_to_functionality_items(&a, modules[i].path.as_str());
                    add_items(
                        &mut progress.items,
                        &mut progress.hidden_count,
                        &mut progress.enterprise_count,
                        new_items,
                    );
                    let _ = store.save(job_id, a);
                },
            }
        },
    }
    progress.next = i + 1;
}

/// The functionality inventory of the finished discovery loop.
pub fn finish_discovery(progress: DiscoveryProgress, job_id: &str) -> (inv: FunctionalityInventory)
    requires
        progress.counts_agree(),
    ensures
        inv.repo_id@ == job_id@,
        inv.items == progress.items,
        inv.total_count == progress.items@.len(),
        inv.hidden_count == count_visibility(inv.items@, Visibility::Undocumented),
        inv.enterprise_count == count_visibility(inv.items@, Visibility::Enterprise),
        inv.api_entry_points@.len() == 0,
        inv.degraded_modules == progress.degraded_modules,
        inv.budget_skipped_modules == progress.budget_skipped_modules,
{
    FunctionalityInventory {
        repo_id: job_id.to_owned(),
        total_count: progress.items.len(),
        hidden_count: progress.hidden_count,
        enterprise_count: progress.enterprise_count,
        items: progress.items,
        api_entry_points: Vec::new(),
        degraded_modules: progress.degraded_modules,
        budget_skipped_modules: progress.budget_skipped_modules,
    }
}


/// Over a whole discovery run, a sequence of progress states each reached
/// from the one before by one step of the loop, the items gathered are the
/// items of the assessments the sessions replied with, in the order the
/// sessions ran (a failed session or an unusable reply adds none); the
/// position never goes back; and the sessions ran for strictly increasing
/// module positions, so at most once per module and in the map's order.
pub proof fn lemma_discovery_run(states: Seq<DiscoveryProgress>, events: Seq<Option<DiscoveryEvent>>)
    requires
        states.len() == events.len() + 1,
        forall|k: int|
            0 <= k < events.len() ==> discovery_transition(
                #[trigger] states[k],
                states[k + 1],
                events[k],
            ),
    ensures
        states.last().items@ == states[0].items@ + items_of_modules(replied_assessments(events)),
        forall|j: int, k: int|
            0 <= j <= k < states.len() ==> (#[trigger] states[j]).next <= (#[trigger] states[k]).next,
        forall|j: int, k: int|
            0 <= j < k < events.len() && (#[trigger] events[j]) is Some && (#[trigger] events[k]) is Some
                ==> states[j].next < states[k].next,
    decreases events.len(),
{
    let n: int = events.len() as int;
    if n == 0 {
        assert(states.last() == states[0]);
        assert(states[0].items@ + Seq::<FunctionalityItem>::empty() =~= states[0].items@);
    } else {
        let ps = states.drop_last();
        let pe = events.drop_last();
        assert forall|k: int| 0 <= k < pe.len() implies discovery_transition(
            #[trigger] ps[k],
            ps[k + 1],
            pe[k],
        ) by {
            assert(ps[k] == states[k] && ps[k + 1] == states[k + 1] && pe[k] == events[k]);
        }
        lemma_discovery_run(ps, pe);
        let last = states[n - 1];
        assert(ps.last() == last);
        assert(ps[0] == states[0]);
        assert(discovery_transition(states[n - 1], states[n], events[n - 1]));
        let prior = replied_assessments(pe);
        match events[n - 1] {
            Some(e) => match replied_assessment(e) {
                Some(a) => {
                    assert(prior.push(a).drop_last() =~= prior);
                    assert(items_of_modules(prior.push(a)) == items_of_modules(prior) + items_of_module(a));
                    assert(states[n].items@ =~= states[0].items@ + items_of_modules(replied_assessments(events)));
                },
                None => {
                    assert(states[n].items@ =~= states[0].items@ + items_of_modules(replied_assessments(events)));
                },
            },
            None => {},
        }
        assert forall|j: int, k: int| 0 <= j <= k < states.len() implies (
        #[trigger] states[j]).next <= (#[trigger] states[k]).next by {
            if k < n {
                assert(ps[j] == states[j] && ps[k] == states[k]);
            } else if j < n {
                assert(ps[j] == states[j] && ps[n - 1] == states[n - 1]);
            }
        }
        assert forall|j: int, k: int|
            0 <= j < k < events.len() && (#[trigger] events[j]) is Some && (
            #[trigger] events[k]) is Some implies states[j].next < states[k].next by {
            assert(discovery_transition(states[j], states[j + 1], events[j]));
            assert(states[j + 1].next <= states[k].next);
        }
    }
}

} // verus!
