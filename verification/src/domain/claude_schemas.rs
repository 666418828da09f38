//! Structured outputs that model sessions produce: capability findings,
//! per-module assessments and risk findings.
use vstd::prelude::*;

use super::model::SourceLocation;
use super::types::Severity;

verus! {

/// How a capability was discovered during analysis.
#[derive(Debug, Clone, Copy, PartialEq, Eq, Structural)]
pub enum DiscoveryMethod {
    PublicApi,
    TestCoverage,
    ExampleCode,
    CliInspection,
    SourceTracing,
    ConfigAnalysis,
    DocumentationCross,
    LlmInference,
}

/// A single capability finding produced by a model session.
#[derive(Debug, Clone)]
pub struct CapabilityFinding {
    pub name: String,
    pub description: String,
    pub is_enterprise: bool,
    pub is_undocumented: bool,
    pub discovery_method: DiscoveryMethod,
    pub source_locations: Option<Vec<SourceLocation>>,
}

/// The part of one module's assessment that the library reasons about: its
/// identity, capabilities, estimated tier and risks. (The numeric commercial
/// estimates travel beside it, in the application layer.)
#[derive(Debug, Clone)]
pub struct ModuleAssessment {
    pub module_name: String,
    pub module_dir: String,
    pub capabilities: Vec<CapabilityFinding>,
    pub estimated_tier: Option<String>,
    pub risks: Vec<String>,
}

/// One risk identified by the risk-analysis pass.
#[derive(Debug, Clone)]
pub struct RiskFinding {
    pub category: String,
    pub severity: Severity,
    pub description: String,
    pub mitigation_suggestion: String,
    pub is_blocking: bool,
}

/// Structured output of the risk-analysis pass.
#[derive(Debug, Clone, Default)]
pub struct RiskAnalysisOutput {
    pub risks: Vec<RiskFinding>,
}

} // verus!
