use repogate::domain::claude_schemas::{CapabilityFinding, DiscoveryMethod, ModuleAssessment, RiskAnalysisOutput, RiskFinding};
use repogate::domain::model::{SourceLocation, Visibility};
use repogate::domain::types::{Layer, RiskKind, Severity, TokenBudget};
use repogate::ingestion::manifest::RepoManifest;
use repogate::ingestion::language::LanguageStats;
use repogate::orchestrator::claude::invocation::{ClaudeInvocation, ClaudeModel, ModelIds};
use repogate::orchestrator::claude::routing::{select_model, Phase};
use repogate::orchestrator::claude::schema::{phase_schema_path, schema_target, SchemaTarget};
use repogate::orchestrator::claude::session::parse_session_events;
use repogate::orchestrator::claude::stream::{output_lines_of, ClaudeEvent, StreamError, StreamParser, UsageStats};
use repogate::orchestrator::job::budget::{BudgetStatus, BudgetTracker};
use repogate::orchestrator::job::checkpoint::{all_phases, phases_to_run, InMemoryCheckpointStore, JobCheckpoint};
use repogate::orchestrator::job::gates::{validate_gate, PhaseGateError};
use repogate::orchestrator::job::state::{AssessmentJob, JobStatus, PhaseKind};
use repogate::orchestrator::job::store::{InMemoryAssessmentJobStore, InMemoryModuleAssessmentStore};
use repogate::orchestrator::pipeline::arch_mapping::{
    architecture_map_from, detect_modules_heuristic, generate_ascii_diagram, mapping_invocation, workspace_members_of,
    ModuleNode,
};
use repogate::orchestrator::pipeline::feature_discovery::{
    discovery_invocation, finish_discovery, next_discovery_step, record_discovery_event, DiscoveryEvent,
    DiscoveryProgress, DiscoveryStep,
};
use repogate::orchestrator::pipeline::llm_adapter::{build_inventory, map_to_functionality_items};
use repogate::domain::model::CompletenessMetadata;
use repogate::orchestrator::pipeline::offline::{
    analysis_template, assessment_for, license_detection_is_degraded, repo_license_tier, run_is_complete,
};
use repogate::orchestrator::pipeline::risk_analysis::{classify_kind, risk_invocation, risk_profile_from_findings, risk_profile_from_output};
use repogate::orchestrator::pipeline::synthesis::{module_name_for, synthesis_invocation, tier_assignment};
use repogate::orchestrator::OrchestratorError;
use repogate::licensing::copyleft::CopyleftTier;
use repogate::domain::types::GatingTier;

fn ids() -> ModelIds {
    ModelIds { opus: "deep-model-8".to_string(), sonnet: "bulk-model-6".to_string() }
}

fn budget(total: u64) -> TokenBudget {
    TokenBudget { total_limit: total, per_phase_limit: total, per_session_limit: total, warn_threshold_permille: 800 }
}

fn module_assessment(name: &str) -> ModuleAssessment {
    ModuleAssessment {
        module_name: name.to_string(),
        module_dir: format!("src/{name}"),
        capabilities: vec![],
        estimated_tier: None,
        risks: vec![],
    }
}

fn node(id: &str) -> ModuleNode {
    ModuleNode {
        id: id.to_string(),
        name: id.to_string(),
        path: format!("src/{id}"),
        layer: Layer::Core,
        centrality_hundredths: 50,
        file_count: 1,
        loc: 10,
        has_public_interface: true,
    }
}

#[test]
fn build_command_contains_required_flags() {
    let inv = ClaudeInvocation {
        prompt: "assess".to_string(),
        model: ClaudeModel::Opus,
        schema_path: Some("/tmp/schema.json".into()),
        allowed_tools: vec!["Read".to_string(), "Glob".to_string()],
        system_prompt: Some("be precise".to_string()),
        working_dir: None,
        session_id: None,
    };
    let args = inv.command_args(&ids());
    for flag in ["--bare", "--output-format", "stream-json", "--json-schema", "--allowedTools", "--model"] {
        assert!(args.iter().any(|a| a == flag), "missing flag: {flag}");
    }
    assert!(args.iter().any(|a| a == "deep-model-8"));
    assert!(args.iter().any(|a| a == "Read,Glob"));
}

#[test]
fn build_command_exact_order() {
    let inv = ClaudeInvocation {
        prompt: "assess".to_string(),
        model: ClaudeModel::Sonnet,
        schema_path: Some("/tmp/schema.json".into()),
        allowed_tools: vec!["Read".to_string(), "Glob".to_string()],
        system_prompt: Some("be precise".to_string()),
        working_dir: None,
        session_id: Some("s9".to_string()),
    };
    let args = inv.command_args(&ids());
    assert_eq!(
        args,
        vec![
            "--bare", "-p", "assess", "--output-format", "stream-json", "--json-schema", "/tmp/schema.json",
            "--allowedTools", "Read,Glob", "--append-system-prompt", "be precise", "--model", "bulk-model-6",
            "--resume", "s9",
        ]
    );
}

#[test]
fn model_identifiers_come_from_configuration() {
    let ids = ids();
    assert_eq!(ClaudeModel::Opus.model_id(&ids), "deep-model-8");
    assert_eq!(ClaudeModel::Sonnet.model_id(&ids), "bulk-model-6");
    let inv = ClaudeInvocation {
        prompt: "x".to_string(),
        model: ClaudeModel::Opus,
        schema_path: None,
        allowed_tools: vec![],
        system_prompt: None,
        working_dir: None,
        session_id: None,
    };
    assert_eq!(
        inv.command_args(&ids),
        vec!["--bare", "-p", "x", "--output-format", "stream-json", "--model", "deep-model-8"]
    );
}

#[test]
fn build_command_resume_when_session_set() {
    let inv = ClaudeInvocation {
        prompt: "x".to_string(),
        model: ClaudeModel::Sonnet,
        schema_path: None,
        allowed_tools: vec![],
        system_prompt: None,
        working_dir: None,
        session_id: Some("sess-42".to_string()),
    };
    let args = inv.command_args(&ids());
    assert!(args.iter().any(|a| a == "--resume"));
    assert!(args.iter().any(|a| a == "sess-42"));
    assert!(!args.iter().any(|a| a == "--allowedTools"));
}

#[test]
fn parse_stream_init_result() {
    let events = vec![
        Ok(ClaudeEvent::Init { session_id: "s1".to_string() }),
        Ok(ClaudeEvent::Result {
            content: "done".to_string(),
            usage: UsageStats { input_tokens: 10, output_tokens: 5, cache_read_input_tokens: 2 },
        }),
    ];
    let result = parse_session_events(&events).unwrap();
    assert_eq!(result.session_id, "s1");
    assert_eq!(result.output, "done");
    assert_eq!(result.usage.input_tokens, 10);
}

#[test]
fn parse_stream_surfaces_error_event() {
    let events = vec![
        Ok(ClaudeEvent::Init { session_id: "s1".to_string() }),
        Ok(ClaudeEvent::Error { message: "boom".to_string(), code: "E1".to_string() }),
    ];
    let err = parse_session_events(&events).unwrap_err();
    assert!(matches!(err, OrchestratorError::SessionFailed(_)));
}

#[test]
fn parse_stream_bad_line_fails_and_blank_lines_skipped() {
    let events = vec![Err(StreamError::DeserializeFailed("x".to_string()))];
    assert!(matches!(parse_session_events(&events), Err(OrchestratorError::SessionFailed(_))));
    assert!(!StreamParser::is_event_line("   "));
    assert!(StreamParser::is_event_line(" {} "));
    let empty: Vec<Result<ClaudeEvent, StreamError>> = vec![Ok(ClaudeEvent::Other)];
    let r = parse_session_events(&empty).unwrap();
    assert_eq!(r.session_id, "");
    assert_eq!(r.output, "");
}

#[test]
fn select_model_routing() {
    assert_eq!(select_model("any", Phase::Synthesis), ClaudeModel::Opus);
    assert_eq!(select_model("utils", Phase::ManifestSummarization), ClaudeModel::Sonnet);
    assert_eq!(select_model("auth", Phase::FeatureDiscovery), ClaudeModel::Opus);
    assert_eq!(select_model("widgets", Phase::FeatureDiscovery), ClaudeModel::Sonnet);
}

#[test]
fn select_model_is_case_insensitive() {
    assert_eq!(select_model("BillingCore", Phase::FeatureDiscovery), ClaudeModel::Opus);
    assert_eq!(select_model("Security", Phase::RiskAnalysis), ClaudeModel::Sonnet);
}

#[test]
fn schema_file_paths() {
    assert_eq!(phase_schema_path(Phase::FeatureDiscovery, "/tmp/x"), "/tmp/x/FeatureDiscovery-schema.json");
    assert_eq!(phase_schema_path(Phase::Synthesis, "/tmp/x/"), "/tmp/x/Synthesis-schema.json");
    assert_eq!(phase_schema_path(Phase::RiskAnalysis, ""), "RiskAnalysis-schema.json");
    assert_eq!(schema_target(Phase::Synthesis), SchemaTarget::SynthesisOutput);
    assert_eq!(schema_target(Phase::ManifestSummarization), SchemaTarget::ModuleAssessment);
}

#[test]
fn budget_records_and_detects_exceeded() {
    let mut tracker = BudgetTracker::new(budget(1000));
    let status = tracker.record_usage(500, 200, 0);
    assert_eq!(tracker.used(), 700);
    assert_eq!(status, BudgetStatus::Normal);
    assert!(!tracker.is_exceeded());

    let status = tracker.record_usage(400, 0, 0); // total 1100 >= 1000
    assert_eq!(status, BudgetStatus::Exceeded);
    assert!(tracker.is_exceeded());
    assert_eq!(tracker.remaining(), 0);
}

#[test]
fn budget_cache_read_billed_at_ten_percent() {
    let mut tracker = BudgetTracker::new(budget(10_000));
    tracker.record_usage(0, 0, 1000); // 1000/10 = 100
    assert_eq!(tracker.used(), 100);
}

#[test]
fn budget_warning_at_threshold_and_stays_exceeded() {
    let mut tracker = BudgetTracker::new(budget(1000));
    assert_eq!(tracker.record_usage(799, 0, 0), BudgetStatus::Normal);
    assert_eq!(tracker.record_usage(1, 0, 9), BudgetStatus::Warning);
    assert_eq!(tracker.remaining(), 200);
    assert_eq!(tracker.record_usage(200, 0, 0), BudgetStatus::Exceeded);
    assert_eq!(tracker.record_usage(0, 0, 0), BudgetStatus::Exceeded);
}

fn checkpoint(last: Option<PhaseKind>) -> JobCheckpoint {
    JobCheckpoint {
        job_id: "j1".to_string(),
        last_completed_phase: last,
        completed_module_ids: vec![],
        token_usage_so_far: 0,
        partial_results: serde_json::Value::Null,
        saved_at: "2026-06-30T00:00:00Z".to_string(),
    }
}

#[test]
fn phases_to_run_resumes_after_license_scan() {
    let checkpoint = checkpoint(Some(PhaseKind::LicenseScan));
    let remaining = phases_to_run(&checkpoint);
    assert_eq!(remaining.first(), Some(&PhaseKind::ArchitectureMapping));
    assert!(!remaining.contains(&PhaseKind::Ingestion));
    assert!(!remaining.contains(&PhaseKind::LicenseScan));
    assert!(remaining.contains(&PhaseKind::ReportAssembly));
}

#[test]
fn phases_to_run_edges() {
    assert_eq!(phases_to_run(&checkpoint(None)), all_phases());
    assert_eq!(all_phases().len(), 8);
    assert!(phases_to_run(&checkpoint(Some(PhaseKind::ReportAssembly))).is_empty());
    assert!(phases_to_run(&checkpoint(Some(PhaseKind::Synthesis))).is_empty());
    assert_eq!(
        phases_to_run(&checkpoint(Some(PhaseKind::RiskAnalysis))),
        vec![PhaseKind::ReportAssembly]
    );
}

#[test]
fn feature_discovery_gate_requires_all_assessments() {
    let mut job = AssessmentJob::new("https://example.com/x", "2026-06-30T00:00:00Z");
    job.module_ids = vec!["auth".to_string(), "billing".to_string()];

    // Missing assessments -> gate fails.
    assert!(validate_gate(PhaseKind::FeatureDiscovery, &job).is_err());

    job.module_assessments.push(module_assessment("auth"));
    assert!(validate_gate(PhaseKind::FeatureDiscovery, &job).is_err());

    job.module_assessments.push(module_assessment("billing"));
    assert!(validate_gate(PhaseKind::FeatureDiscovery, &job).is_ok());
}

#[test]
fn ingestion_gate_needs_files() {
    let mut job = AssessmentJob::new("https://example.com/x", "now");
    assert_eq!(job.id.len(), 36);
    assert_eq!(job.status, JobStatus::Queued);
    match validate_gate(PhaseKind::Ingestion, &job) {
        Err(PhaseGateError::Precondition(m)) => assert_eq!(m, "manifest is empty or missing"),
        Ok(()) => panic!("gate should fail"),
    }
    let manifest = RepoManifest {
        repo_id: "r".to_string(),
        url: "u".to_string(),
        total_files: 1,
        total_loc: 0,
        language_stats: LanguageStats::default(),
        root_dirs: vec![],
        file_entries: vec![],
        package_files: vec![],
        dependencies: vec![],
    };
    job.manifest = Some(manifest);
    assert!(validate_gate(PhaseKind::Ingestion, &job).is_ok());
    assert!(validate_gate(PhaseKind::Scoring, &job).is_ok());
}

#[test]
fn job_store_round_trip() {
    let mut store = InMemoryAssessmentJobStore::new();
    let job = AssessmentJob::new("https://example.com/x", "2026-06-30T00:00:00Z");
    let id = job.id.clone();
    store.save(job).unwrap();

    let loaded = store.find_by_id(&id).unwrap();
    assert!(loaded.is_some());
    assert_eq!(loaded.unwrap().repo_url, "https://example.com/x");

    let queued = store.find_by_status(JobStatus::Queued).unwrap();
    assert_eq!(queued.len(), 1);
}

#[test]
fn job_store_replaces_and_filters() {
    let mut store = InMemoryAssessmentJobStore::new();
    let mut a = AssessmentJob::new("https://example.com/x", "t0");
    let b = AssessmentJob::new("https://example.com/x", "t0");
    let c = AssessmentJob::new("https://example.com/y", "t0");
    store.save(a.clone()).unwrap();
    store.save(b.clone()).unwrap();
    store.save(c.clone()).unwrap();
    assert_eq!(store.find_concurrent_for_repo("https://example.com/x").unwrap().len(), 2);
    a.status = JobStatus::Complete;
    store.save(a.clone()).unwrap();
    assert_eq!(store.find_by_status(JobStatus::Queued).unwrap().len(), 2);
    assert_eq!(store.find_by_status(JobStatus::Complete).unwrap().len(), 1);
    let running = store.find_concurrent_for_repo("https://example.com/x").unwrap();
    assert_eq!(running.len(), 1);
    assert_eq!(running[0].id, b.id);
    assert_eq!(store.find_by_id(&a.id).unwrap().unwrap().status, JobStatus::Complete);
    assert!(store.find_by_id("missing").unwrap().is_none());
}

#[test]
fn module_store_exists_and_load_all() {
    let mut store = InMemoryModuleAssessmentStore::new();
    store.save("j1", module_assessment("auth")).unwrap();
    assert!(store.contains_module("j1", "auth").unwrap());
    assert!(!store.contains_module("j1", "billing").unwrap());
    assert_eq!(store.load_all("j1").unwrap().len(), 1);
}

#[test]
fn module_store_keys_by_job_and_module() {
    let mut store = InMemoryModuleAssessmentStore::new();
    store.save("j1", module_assessment("auth")).unwrap();
    store.save("j2", module_assessment("auth")).unwrap();
    let mut replaced = module_assessment("auth");
    replaced.estimated_tier = Some("pro".to_string());
    store.save("j1", replaced).unwrap();
    assert_eq!(store.load_all("j1").unwrap().len(), 1);
    assert_eq!(store.load_all("j2").unwrap().len(), 1);
    assert_eq!(
        store.find_by_module("j1", "auth").unwrap().unwrap().estimated_tier.as_deref(),
        Some("pro")
    );
    assert!(store.find_by_module("j2", "auth").unwrap().unwrap().estimated_tier.is_none());
    assert!(store.find_by_module("j3", "auth").unwrap().is_none());
}

#[test]
fn checkpoint_store_round_trip() {
    let mut store = InMemoryCheckpointStore::new();
    let mut cp = checkpoint(Some(PhaseKind::Ingestion));
    cp.token_usage_so_far = 42;
    store.save(cp).unwrap();
    let loaded = store.load("j1").unwrap().unwrap();
    assert_eq!(loaded.token_usage_so_far, 42);
    assert!(store.load("j2").unwrap().is_none());
}

fn capability(enterprise: bool, undocumented: bool, locs: Option<Vec<SourceLocation>>) -> CapabilityFinding {
    CapabilityFinding {
        name: "sso".to_string(),
        description: "single sign-on".to_string(),
        is_enterprise: enterprise,
        is_undocumented: undocumented,
        discovery_method: DiscoveryMethod::SourceTracing,
        source_locations: locs,
    }
}

#[test]
fn functionality_items_visibility_and_confirmation() {
    let loc = SourceLocation { file_path: "src/a.rs".to_string(), line_start: Some(3), line_end: None };
    let mut a = module_assessment("a");
    a.capabilities = vec![
        capability(true, true, None),
        capability(false, true, Some(vec![loc.clone()])),
        capability(false, false, Some(vec![])),
    ];
    let items = map_to_functionality_items(&a, "src/a");
    assert_eq!(items.len(), 3);
    assert_eq!(items[0].visibility, Visibility::Enterprise);
    assert_eq!(items[1].visibility, Visibility::Undocumented);
    assert_eq!(items[2].visibility, Visibility::Public);
    assert!(!items[0].is_confirmed);
    assert!(items[1].is_confirmed);
    assert_eq!(items[1].source_location.as_ref().unwrap().file_path, "src/a.rs");
    assert!(!items[2].is_confirmed);
    let inv = build_inventory("repo-1", &vec![a.clone(), a]);
    assert_eq!(inv.total_count, 6);
    assert_eq!(inv.enterprise_count, 2);
    assert_eq!(inv.hidden_count, 2);
    assert_eq!(inv.repo_id, "repo-1");
}

fn finding(category: &str, severity: Severity, blocking: bool) -> RiskFinding {
    RiskFinding {
        category: category.to_string(),
        severity,
        description: "d".to_string(),
        mitigation_suggestion: "m".to_string(),
        is_blocking: blocking,
    }
}

#[test]
fn risk_profile_levels_and_kinds() {
    let p = risk_profile_from_findings(&[finding("license", Severity::High, true)]);
    assert_eq!(p.overall_risk_level, "high");
    assert_eq!(p.blocking_risk_count, 1);
    assert_eq!(p.risks[0].kind, RiskKind::LicenseConflict);
    assert_eq!(p.risks[0].mitigation.as_deref(), Some("m"));
    let three = [
        finding("Community", Severity::High, false),
        finding("x", Severity::High, false),
        finding("y", Severity::High, false),
    ];
    let p = risk_profile_from_findings(&three);
    assert_eq!(p.overall_risk_level, "medium");
    assert_eq!(p.high_severity_count, 3);
    assert_eq!(p.risks[0].kind, RiskKind::CommunityBacklash);
    assert_eq!(risk_profile_from_findings(&three[..2]).overall_risk_level, "low");
    assert_eq!(risk_profile_from_output(None).risks.len(), 0);
    assert_eq!(risk_profile_from_output(None).overall_risk_level, "low");
    let out = RiskAnalysisOutput { risks: vec![finding("security", Severity::Low, false)] };
    assert_eq!(risk_profile_from_output(Some(out)).risks[0].kind, RiskKind::SecurityExposure);
    assert_eq!(classify_kind("COMPETITIVE"), RiskKind::CompetitiveExposure);
    assert_eq!(classify_kind("Under-gating"), RiskKind::UnderGating);
    assert_eq!(classify_kind("accidental"), RiskKind::AccidentalOpenSource);
    assert_eq!(classify_kind("copyleft"), RiskKind::LicenseConflict);
    assert_eq!(classify_kind("pricing"), RiskKind::OverGating);
}

#[test]
fn phase_requests() {
    let inv = risk_invocation("S", "V", "L", "I");
    assert_eq!(inv.model, ClaudeModel::Sonnet);
    assert!(inv.prompt.starts_with("Identify risks in this gating strategy (over-gating, community backlash, license conflicts"));
    assert!(inv.prompt.ends_with("STRATEGY: S\n\nVALUATION: V\n\nLICENSE: L\n\nINVENTORY: I"));
    let inv = synthesis_invocation("V", "I", "L");
    assert_eq!(inv.model, ClaudeModel::Opus);
    assert!(inv.prompt.ends_with("Return a SynthesisOutput.\n\nVALUATION: V\n\nINVENTORY: I\n\nLICENSE: L"));
    let inv = mapping_invocation(&vec![node("core"), node("cli")], "/repo");
    assert_eq!(
        inv.prompt,
        "Identify the functional modules and their roles for this repository. Candidate modules: core, cli. Return a JSON array of ModuleNode objects."
    );
    assert_eq!(inv.working_dir.as_deref(), Some("/repo"));
    let inv = discovery_invocation(&node("auth"), "/repo");
    assert_eq!(inv.model, ClaudeModel::Opus);
    assert!(inv.prompt.starts_with("Analyze module `auth` at `src/auth`. Discover all capabilities"));
    assert_eq!(inv.allowed_tools, vec!["Read", "Glob", "Bash(grep *)", "Bash(find *)"]);
}

#[test]
fn heuristic_top_level_dirs() {
    let existing = vec!["tests".to_string(), "src".to_string(), "cli".to_string(), "target".to_string()];
    let modules = detect_modules_heuristic(&vec![], &existing);
    let names: Vec<&str> = modules.iter().map(|m| m.name.as_str()).collect();
    assert_eq!(names, vec!["src", "cli", "tests"]);
    assert_eq!(modules[1].layer, Layer::Cli);
    assert_eq!(modules[2].layer, Layer::Test);
}

#[test]
fn heuristic_cargo_workspace_members() {
    let members = workspace_members_of("[workspace]\nmembers = [\"crates/a\", \"crates/b\", \"crates/c\"]\n");
    assert_eq!(members, vec!["crates/a", "crates/b", "crates/c"]);
    let modules = detect_modules_heuristic(&members, &vec!["src".to_string()]);
    assert_eq!(modules.len(), 3);
    assert_eq!(modules[0].name, "a");
    assert_eq!(modules[2].path, "crates/c");
    assert_eq!(modules[0].layer, Layer::Core);
    assert_eq!(modules[0].centrality_hundredths, 50);
}

#[test]
fn ascii_diagram_and_map() {
    let modules = vec![node("core"), node("cli")];
    assert_eq!(
        generate_ascii_diagram(&modules, &[]),
        "repository\n  ├─ core (Core)\n  └─ cli (Core)\n"
    );
    let map = architecture_map_from(None, modules.clone());
    assert_eq!(map.modules.len(), 2);
    assert!(map.edges.is_empty());
    let map = architecture_map_from(Some(vec![node("x")]), modules);
    assert_eq!(map.ascii_diagram, "repository\n  └─ x (Core)\n");
}

#[test]
fn synthesis_tier_assignments_named_from_map() {
    let mut m = node("m1");
    m.name = "Module One".to_string();
    let modules = vec![m];
    assert_eq!(module_name_for(&modules, "m1"), "Module One");
    assert_eq!(module_name_for(&modules, "zz"), "zz");
    let t = tier_assignment(&modules, "m1", GatingTier::ProTier, "Composite 5.0/10".to_string());
    assert_eq!(t.module_name, "Module One");
    assert_eq!(t.tier, GatingTier::ProTier);
    assert_eq!(t.rationale.as_deref(), Some("Composite 5.0/10"));
}

#[test]
fn offline_helpers() {
    assert_eq!(repo_license_tier(9), CopyleftTier::StrongCopyleft);
    assert_eq!(repo_license_tier(8), CopyleftTier::StrongCopyleft);
    assert_eq!(repo_license_tier(3), CopyleftTier::SourceAvailableNonOsi);
    assert_eq!(repo_license_tier(2), CopyleftTier::Permissive);
    let modules = vec![node("a"), node("b")];
    let t = analysis_template(&modules);
    assert_eq!(t.modules.len(), 2);
    assert_eq!(t.modules[1].module_dir, "src/b");
    let assessments = vec![module_assessment("x"), module_assessment("b")];
    assert_eq!(assessment_for(&assessments, &modules[1]), Some(1));
    assert_eq!(assessment_for(&assessments, &modules[0]), None);
}

/// Drives the discovery decisions the way the application loop does, with a
/// canned reply per session.
fn run_discovery(
    modules: &Vec<ModuleNode>,
    store: &mut InMemoryModuleAssessmentStore,
    tracker: &mut BudgetTracker,
    usage: UsageStats,
) -> (usize, repogate::orchestrator::pipeline::llm_adapter::FunctionalityInventory) {
    let mut progress = DiscoveryProgress::new();
    let mut calls = 0usize;
    loop {
        match next_discovery_step(&mut progress, modules, store, tracker, "job1") {
            DiscoveryStep::Done => break,
            DiscoveryStep::Analyze(_) => {
                let mut a = module_assessment(&format!("m{calls}"));
                a.capabilities = vec![capability(true, false, None)];
                calls += 1;
                record_discovery_event(
                    &mut progress,
                    modules,
                    DiscoveryEvent::Replied { usage, assessment: Some(a) },
                    tracker,
                    store,
                    "job1",
                );
            }
        }
    }
    (calls, finish_discovery(progress, "job1"))
}

#[test]
fn maps_enterprise_capability_and_saves() {
    let mut store = InMemoryModuleAssessmentStore::new();
    let mut tracker = BudgetTracker::new(budget(1_000_000));
    let usage = UsageStats { input_tokens: 10, output_tokens: 5, cache_read_input_tokens: 0 };
    let (calls, inv) = run_discovery(&vec![node("a"), node("b")], &mut store, &mut tracker, usage);
    assert_eq!(calls, 2);
    assert_eq!(inv.enterprise_count, 2);
    assert!(inv.items.iter().all(|i| matches!(i.visibility, Visibility::Enterprise)));
    assert_eq!(store.load_all("job1").unwrap().len(), 2);
    assert_eq!(tracker.used(), 30);
}

#[test]
fn skips_already_assessed_modules() {
    let mut store = InMemoryModuleAssessmentStore::new();
    // Pre-store an assessment for module "a".
    store.save("job1", module_assessment("a")).unwrap();
    let mut tracker = BudgetTracker::new(budget(1_000_000));
    let (calls, _) = run_discovery(&vec![node("a"), node("b")], &mut store, &mut tracker, UsageStats::default());
    // Only module "b" should trigger a session.
    assert_eq!(calls, 1);
}

#[test]
fn budget_exhaustion_stops_new_sessions() {
    let mut store = InMemoryModuleAssessmentStore::new();
    let mut tracker = BudgetTracker::new(budget(50));
    // Each session reports 100 tokens; budget of 50 is exceeded after the first.
    let usage = UsageStats { input_tokens: 100, output_tokens: 0, cache_read_input_tokens: 0 };
    let (calls, inv) = run_discovery(&vec![node("a"), node("b"), node("c")], &mut store, &mut tracker, usage);
    // First module runs (then budget exceeds); the rest are skipped.
    assert_eq!(calls, 1);
    assert_eq!(store.load_all("job1").unwrap().len(), 1);
    assert_eq!(inv.budget_skipped_modules, vec!["b", "c"]);
}

#[test]
fn failed_sessions_mark_modules_degraded() {
    let modules = vec![node("a"), node("b")];
    let mut store = InMemoryModuleAssessmentStore::new();
    let mut tracker = BudgetTracker::new(budget(1000));
    let mut progress = DiscoveryProgress::new();
    assert_eq!(next_discovery_step(&mut progress, &modules, &store, &tracker, "j"), DiscoveryStep::Analyze(0));
    record_discovery_event(&mut progress, &modules, DiscoveryEvent::SessionFailed, &mut tracker, &mut store, "j");
    assert_eq!(next_discovery_step(&mut progress, &modules, &store, &tracker, "j"), DiscoveryStep::Analyze(1));
    let usage = UsageStats { input_tokens: 7, output_tokens: 0, cache_read_input_tokens: 0 };
    record_discovery_event(
        &mut progress,
        &modules,
        DiscoveryEvent::Replied { usage, assessment: None },
        &mut tracker,
        &mut store,
        "j",
    );
    assert_eq!(next_discovery_step(&mut progress, &modules, &store, &tracker, "j"), DiscoveryStep::Done);
    let inv = finish_discovery(progress, "j");
    assert_eq!(inv.degraded_modules, vec!["a", "b"]);
    assert_eq!(tracker.used(), 7);
    assert!(store.load_all("j").unwrap().is_empty());
}

#[test]
fn token_budget_is_exceeded() {
    let budget = TokenBudget { total_limit: 100, per_phase_limit: 50, per_session_limit: 30, warn_threshold_permille: 800 };
    assert!(!budget.is_exceeded(50));
    assert!(budget.is_exceeded(100));
    assert_eq!(budget.remaining(40), 60);
    assert_eq!(budget.remaining(110), 0); // saturating
}

#[test]
fn crash_recovery_resumes_after_feature_discovery() {
    let checkpoint = JobCheckpoint {
        job_id: "test-job".to_string(),
        last_completed_phase: Some(PhaseKind::FeatureDiscovery),
        completed_module_ids: vec!["mod1".to_string(), "mod2".to_string()],
        token_usage_so_far: 500_000,
        partial_results: serde_json::Value::Object(serde_json::Map::new()),
        saved_at: "2026-06-30T00:00:00Z".to_string(),
    };
    let remaining = phases_to_run(&checkpoint);
    assert!(remaining.contains(&PhaseKind::Scoring));
    assert!(!remaining.contains(&PhaseKind::FeatureDiscovery));
}

#[test]
fn crash_recovery_reanalyzes_only_remaining_modules() {
    // Five modules; the first two already have stored assessments (crash after
    // module 2). Discovery should issue exactly 3 sessions.
    let mut store = InMemoryModuleAssessmentStore::new();
    for id in ["mod1", "mod2"] {
        store.save("job1", module_assessment(id)).unwrap();
    }
    let mut tracker = BudgetTracker::new(budget(500_000));
    let modules: Vec<ModuleNode> = ["mod1", "mod2", "mod3", "mod4", "mod5"].iter().map(|i| node(i)).collect();
    let (calls, _) = run_discovery(&modules, &mut store, &mut tracker, UsageStats::default());
    assert_eq!(calls, 3);
}

#[test]
fn completeness_of_a_run() {
    let mut c = CompletenessMetadata {
        degraded_modules: vec![],
        budget_skipped_modules: vec![],
        license_detection_degraded: true,
        scoring_degraded_modules: vec![],
    };
    assert!(c.is_complete());
    assert!(license_detection_is_degraded());
    let mut tracker = BudgetTracker::new(budget(10));
    assert!(run_is_complete(&c, &tracker));
    tracker.record_usage(10, 0, 0);
    assert!(!run_is_complete(&c, &tracker));
    c.scoring_degraded_modules.push("m".to_string());
    assert!(!c.is_complete());
}

#[test]
fn workspace_members_from_toml_text() {
    assert!(workspace_members_of("[workspace\nmembers = [").is_empty());
    assert!(workspace_members_of("[package]\nname = \"x\"\n").is_empty());
    assert!(workspace_members_of("[workspace]\nmembers = \"a\"\n").is_empty());
    assert_eq!(workspace_members_of("[workspace]\nmembers = [\"a\", 1, \"b\"]\n"), vec!["a", "b"]);
}

#[test]
fn job_id_is_hyphenated_v4_uuid() {
    let job = AssessmentJob::new("https://example.com/x", "2026-06-30T00:00:00Z");
    let b = job.id.as_bytes();
    assert_eq!(b.len(), 36);
    for i in [8usize, 13, 18, 23] {
        assert_eq!(b[i], b'-');
    }
    assert_eq!(b[14], b'4');
    assert!(b"89ab".contains(&b[19]));
    let other = AssessmentJob::new("https://example.com/x", "2026-06-30T00:00:00Z");
    assert_ne!(job.id, other.id);
}

#[test]
fn discovery_run_items_follow_session_order() {
    let modules = vec![node("a"), node("b"), node("c")];
    let mut store = InMemoryModuleAssessmentStore::new();
    let mut tracker = BudgetTracker::new(budget(1000));
    let mut progress = DiscoveryProgress::new();
    let usage = UsageStats { input_tokens: 1, output_tokens: 0, cache_read_input_tokens: 0 };
    let mut first = module_assessment("a");
    let mut c1 = capability(false, false, None);
    c1.name = "one".to_string();
    let mut c2 = capability(true, false, None);
    c2.name = "two".to_string();
    first.capabilities = vec![c1, c2];
    let mut third = module_assessment("c");
    let mut c3 = capability(false, true, None);
    c3.name = "three".to_string();
    third.capabilities = vec![c3];

    assert_eq!(next_discovery_step(&mut progress, &modules, &store, &tracker, "j"), DiscoveryStep::Analyze(0));
    record_discovery_event(
        &mut progress,
        &modules,
        DiscoveryEvent::Replied { usage, assessment: Some(first) },
        &mut tracker,
        &mut store,
        "j",
    );
    assert_eq!(next_discovery_step(&mut progress, &modules, &store, &tracker, "j"), DiscoveryStep::Analyze(1));
    record_discovery_event(&mut progress, &modules, DiscoveryEvent::SessionFailed, &mut tracker, &mut store, "j");
    assert_eq!(next_discovery_step(&mut progress, &modules, &store, &tracker, "j"), DiscoveryStep::Analyze(2));
    record_discovery_event(
        &mut progress,
        &modules,
        DiscoveryEvent::Replied { usage, assessment: Some(third) },
        &mut tracker,
        &mut store,
        "j",
    );
    assert_eq!(next_discovery_step(&mut progress, &modules, &store, &tracker, "j"), DiscoveryStep::Done);
    let inv = finish_discovery(progress, "j");
    let names: Vec<&str> = inv.items.iter().map(|i| i.name.as_str()).collect();
    assert_eq!(names, vec!["one", "two", "three"]);
    assert_eq!(inv.total_count, 3);
    assert_eq!(inv.enterprise_count, 1);
    assert_eq!(inv.hidden_count, 1);
    assert_eq!(inv.degraded_modules, vec!["b"]);
    assert_eq!(tracker.used(), 2);
    assert_eq!(store.load_all("j").unwrap().len(), 2);
}

#[test]
fn output_split_into_lines_without_carriage_returns() {
    let lines = output_lines_of(b"{\"a\":1}\r\n\nb\r\r\nc");
    assert_eq!(lines, vec![b"{\"a\":1}".to_vec(), vec![], b"b\r".to_vec(), b"c".to_vec()]);
    assert_eq!(output_lines_of(b""), vec![Vec::<u8>::new()]);
    assert_eq!(output_lines_of(b"x\n"), vec![b"x".to_vec(), vec![]]);
}
