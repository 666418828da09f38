//! Model routing per analysis phase.
use vstd::prelude::*;

use super::invocation::ClaudeModel;
use crate::text::{contains_seq, contains_str, chars_of, to_lowercase, unicode_lowercase};

verus! {

/// Coarse analysis phase used to route an invocation to a model.
#[derive(Debug, Clone, Copy, PartialEq, Eq, Structural)]
pub enum Phase {
    Synthesis,
    ManifestSummarization,
    FeatureDiscovery,
    RiskAnalysis,
}

/// A (lower-cased) module name that mentions a security- or
/// enterprise-sensitive keyword.
pub open spec fn mentions_enterprise_keyword(lowered: Seq<char>) -> bool {
    contains_seq(lowered, "auth"@) || contains_seq(lowered, "rbac"@) || contains_seq(
        lowered,
        "audit"@,
    ) || contains_seq(lowered, "billing"@) || contains_seq(lowered, "enterprise"@)
        || contains_seq(lowered, "compliance"@) || contains_seq(lowered, "security"@)
}

/// The model for a module and phase: Opus for synthesis, Sonnet for the bulk
/// passes, and for feature discovery Opus exactly when the Unicode
/// lower-casing of the module name mentions a sensitive keyword.
pub open spec fn model_for(module_name: Seq<char>, phase: Phase) -> ClaudeModel {
    match phase {
        Phase::Synthesis => ClaudeModel::Opus,
        Phase::ManifestSummarization | Phase::RiskAnalysis => ClaudeModel::Sonnet,
        Phase::FeatureDiscovery => if mentions_enterprise_keyword(unicode_lowercase(module_name)) {
            ClaudeModel::Opus
        } else {
            ClaudeModel::Sonnet
        },
    }
}

/// Whether a lower-cased module name mentions a sensitive keyword.
pub fn mentions_enterprise_keyword_exec(lowered: &str) -> (r: bool)
    ensures
        r == mentions_enterprise_keyword(lowered@),
{
    let l = chars_of(lowered);
    contains_str(&l, "auth") || contains_str(&l, "rbac") || contains_str(&l, "audit")
        || contains_str(&l, "billing") || contains_str(&l, "enterprise") || contains_str(
        &l,
        "compliance",
    ) || contains_str(&l, "security")
}

/// Select the model for a module/phase pair.
///
/// Synthesis always uses Opus; bulk classification (manifest summarization,
/// risk analysis) uses Sonnet; per-module feature discovery escalates to Opus
/// for security- or enterprise-sensitive modules.
pub fn select_model(module_name: &str, phase: Phase) -> (m: ClaudeModel)
    ensures
        m == model_for(module_name@, phase),
{
    match phase {
        Phase::Synthesis => ClaudeModel::Opus,
        Phase::ManifestSummarization | Phase::RiskAnalysis => ClaudeModel::Sonnet,
        Phase::FeatureDiscovery => {
            let lowered = to_lowercase(module_name);
            if mentions_enterprise_keyword_exec(lowered.as_str()) {
                ClaudeModel::Opus
            } else {
                ClaudeModel::Sonnet
            }
        },
    }
}

/// Synthesis always runs on Opus, whatever the module.
pub proof fn lemma_synthesis_routes_to_opus(module_name: Seq<char>)
    ensures
        model_for(module_name, Phase::Synthesis) == ClaudeModel::Opus,
{
}

/// Manifest summarization and risk analysis always run on Sonnet.
pub proof fn lemma_bulk_phases_route_to_sonnet(module_name: Seq<char>)
    ensures
        model_for(module_name, Phase::ManifestSummarization) == ClaudeModel::Sonnet,
        model_for(module_name, Phase::RiskAnalysis) == ClaudeModel::Sonnet,
{
}

/// Feature discovery of a module whose lower-cased name contains `auth`
/// runs on Opus.
pub proof fn lemma_auth_modules_route_to_opus(module_name: Seq<char>)
    requires
        contains_seq(unicode_lowercase(module_name), "auth"@),
    ensures
        model_for(module_name, Phase::FeatureDiscovery) == ClaudeModel::Opus,
{
}

/// Feature discovery of a module whose lower-cased name contains `rbac`
/// runs on Opus.
pub proof fn lemma_rbac_modules_route_to_opus(module_name: Seq<char>)
    requires
        contains_seq(unicode_lowercase(module_name), "rbac"@),
    ensures
        model_for(module_name, Phase::FeatureDiscovery) == ClaudeModel::Opus,
{
}

/// Feature discovery of a module whose lower-cased name contains `audit`
/// runs on Opus.
pub proof fn lemma_audit_modules_route_to_opus(module_name: Seq<char>)
    requires
        contains_seq(unicode_lowercase(module_name), "audit"@),
    ensures
        model_for(module_name, Phase::FeatureDiscovery) == ClaudeModel::Opus,
{
}

/// Feature discovery of a module whose lower-cased name contains `billing`
/// runs on Opus.
pub proof fn lemma_billing_modules_route_to_opus(module_name: Seq<char>)
    requires
        contains_seq(unicode_lowercase(module_name), "billing"@),
    ensures
        model_for(module_name, Phase::FeatureDiscovery) == ClaudeModel::Opus,
{
}

/// Feature discovery of a module whose lower-cased name contains
/// `enterprise` runs on Opus.
pub proof fn lemma_enterprise_modules_route_to_opus(module_name: Seq<char>)
    requires
        contains_seq(unicode_lowercase(module_name), "enterprise"@),
    ensures
        model_for(module_name, Phase::FeatureDiscovery) == ClaudeModel::Opus,
{
}

/// Feature discovery of a module whose lower-cased name contains
/// `compliance` runs on Opus.
pub proof fn lemma_compliance_modules_route_to_opus(module_name: Seq<char>)
    requires
        contains_seq(unicode_lowercase(module_name), "compliance"@),
    ensures
        model_for(module_name, Phase::FeatureDiscovery) == ClaudeModel::Opus,
{
}

/// Feature discovery of a module whose lower-cased name contains
/// `security` runs on Opus.
pub proof fn lemma_security_modules_route_to_opus(module_name: Seq<char>)
    requires
        contains_seq(unicode_lowercase(module_name), "security"@),
    ensures
        model_for(module_name, Phase::FeatureDiscovery) == ClaudeModel::Opus,
{
}

/// Feature discovery of a module whose lower-cased name contains none of
/// the sensitive keywords runs on Sonnet.
pub proof fn lemma_plain_modules_route_to_sonnet(module_name: Seq<char>)
    requires
        !contains_seq(unicode_lowercase(module_name), "auth"@),
        !contains_seq(unicode_lowercase(module_name), "rbac"@),
        !contains_seq(unicode_lowercase(module_name), "audit"@),
        !contains_seq(unicode_lowercase(module_name), "billing"@),
        !contains_seq(unicode_lowercase(module_name), "enterprise"@),
        !contains_seq(unicode_lowercase(module_name), "compliance"@),
        !contains_seq(unicode_lowercase(module_name), "security"@),
    ensures
        model_for(module_name, Phase::FeatureDiscovery) == ClaudeModel::Sonnet,
{
}

} // verus!
