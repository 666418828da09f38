//! Repositories, capabilities, risks, tier assignments and completeness.
use std::collections::HashMap;
use vstd::prelude::*;

use super::types::{GatingTier, RiskKind, Severity};

verus! {

/// High-level file and language statistics for a repository.
#[derive(Debug, Clone)]
pub struct RepositoryMetrics {
    pub total_files: usize,
    pub total_loc: usize,
    /// Language name to lines of code.
    pub language_stats: HashMap<String, usize>,
}

/// A repository submitted for assessment.
#[derive(Debug, Clone)]
pub struct Repository {
    pub id: String,
    pub url: String,
    pub name: String,
    pub description: Option<String>,
    pub license: Option<String>,
    pub metrics: RepositoryMetrics,
}

/// Access classification of a discovered capability.
#[derive(Debug, Clone, Copy, PartialEq, Eq, Structural)]
pub enum Visibility {
    Public,
    Internal,
    Experimental,
    Undocumented,
    Enterprise,
}

/// A discrete capability exposed by a module.
#[derive(Debug, Clone)]
pub struct Capability {
    pub name: String,
    pub description: Option<String>,
    pub visibility: Visibility,
    pub affects_tiers: Vec<GatingTier>,
}

/// A pointer to a file (and optionally a line range) in the repository.
#[derive(Debug, Clone)]
pub struct SourceLocation {
    pub file_path: String,
    pub line_start: Option<usize>,
    pub line_end: Option<usize>,
}

/// A gating or compliance risk identified for a module.
#[derive(Debug, Clone)]
pub struct Risk {
    pub kind: RiskKind,
    pub severity: Severity,
    pub description: String,
    pub mitigation: Option<String>,
    pub is_blocking: bool,
}

/// Where an analysis run degraded, so that a consumer can tell a deep
/// result from a partial or fallback one.
#[derive(Debug, Clone, Default)]
pub struct CompletenessMetadata {
    /// Modules whose discovery session failed.
    pub degraded_modules: Vec<String>,
    /// Modules skipped because the token budget was exhausted.
    pub budget_skipped_modules: Vec<String>,
    /// Whether license detection used the heuristic fallback.
    pub license_detection_degraded: bool,
    /// Modules scored with the uniform fallback.
    pub scoring_degraded_modules: Vec<String>,
}

impl CompletenessMetadata {
    /// No completeness-blocking degradation occurred: no degraded, skipped or
    /// fallback-scored module. License-detection degradation is informational.
    pub open spec fn complete(&self) -> bool {
        self.degraded_modules@.len() == 0 && self.budget_skipped_modules@.len() == 0
            && self.scoring_degraded_modules@.len() == 0
    }

    /// True when no completeness-blocking degradation occurred.
    pub fn is_complete(&self) -> (r: bool)
        ensures
            r == self.complete(),
    {
        self.degraded_modules.len() == 0 && self.budget_skipped_modules.len() == 0
            && self.scoring_degraded_modules.len() == 0
    }
}

/// Tier recommendation for a single module.
#[derive(Debug, Clone)]
pub struct TierAssignment {
    pub module_id: String,
    pub module_name: String,
    pub tier: GatingTier,
    pub rationale: Option<String>,
}

/// Recommended tier assignments across all modules in the repository.
#[derive(Debug, Clone)]
pub struct GatingStrategy {
    pub tier_assignments: Vec<TierAssignment>,
    pub boundary_description: Option<String>,
}

} // verus!
