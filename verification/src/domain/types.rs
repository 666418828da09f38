//! Tiers, severities, layers, languages and the token budget.
use vstd::prelude::*;

verus! {

/// Recommended open-core tier for a repository module.
#[derive(Debug, Clone, Copy, PartialEq, Eq, Hash, Structural)]
pub enum GatingTier {
    Open,
    SourceAvailable,
    ProTier,
    EnterpriseTier,
    ManagedCloud,
    LegalReview,
    NotRecommended,
}

/// Risk severity classification.
#[derive(Debug, Clone, Copy, PartialEq, Eq, Structural)]
pub enum Severity {
    Low,
    Medium,
    High,
}

/// Kind of gating or compliance risk identified for a module.
#[derive(Debug, Clone, Copy, PartialEq, Eq, Structural)]
pub enum RiskKind {
    OverGating,
    CommunityBacklash,
    LicenseConflict,
    CompetitiveExposure,
    SecurityExposure,
    AccidentalOpenSource,
    UnderGating,
}

/// Architectural layer a module belongs to.
#[derive(Debug, Clone, Copy, PartialEq, Eq, Structural)]
pub enum Layer {
    Core,
    Api,
    Sdk,
    Cli,
    Connector,
    Integration,
    Deployment,
    Test,
    Documentation,
}

/// The variant name of a layer, as `{:?}` prints it.
pub open spec fn layer_name(layer: Layer) -> Seq<char> {
    match layer {
        Layer::Core => "Core"@,
        Layer::Api => "Api"@,
        Layer::Sdk => "Sdk"@,
        Layer::Cli => "Cli"@,
        Layer::Connector => "Connector"@,
        Layer::Integration => "Integration"@,
        Layer::Deployment => "Deployment"@,
        Layer::Test => "Test"@,
        Layer::Documentation => "Documentation"@,
    }
}

impl Layer {
    /// The variant name of this layer, as `{:?}` prints it.
    pub fn name(&self) -> (s: &'static str)
        ensures
            s@ == layer_name(*self),
    {
        match self {
            Layer::Core => "Core",
            Layer::Api => "Api",
            Layer::Sdk => "Sdk",
            Layer::Cli => "Cli",
            Layer::Connector => "Connector",
            Layer::Integration => "Integration",
            Layer::Deployment => "Deployment",
            Layer::Test => "Test",
            Layer::Documentation => "Documentation",
        }
    }
}

/// Primary programming language of a module or repository.
#[derive(Debug, Clone, PartialEq, Eq, Hash)]
pub enum Language {
    Rust,
    TypeScript,
    Python,
    Go,
    Java,
    CSharp,
    Ruby,
    Other(String),
}

/// The abstract value of a language: its variant, and for `Other` its name.
pub enum LanguageView {
    Rust,
    TypeScript,
    Python,
    Go,
    Java,
    CSharp,
    Ruby,
    Other(Seq<char>),
}

impl View for Language {
    type V = LanguageView;

    open spec fn view(&self) -> LanguageView {
        match self {
            Language::Rust => LanguageView::Rust,
            Language::TypeScript => LanguageView::TypeScript,
            Language::Python => LanguageView::Python,
            Language::Go => LanguageView::Go,
            Language::Java => LanguageView::Java,
            Language::CSharp => LanguageView::CSharp,
            Language::Ruby => LanguageView::Ruby,
            Language::Other(s) => LanguageView::Other(s@),
        }
    }
}

impl Language {
    /// Equality of two languages by their abstract values.
    pub fn same_as(&self, other: &Language) -> (r: bool)
        ensures
            r == (self@ == other@),
    {
        match (self, other) {
            (Language::Rust, Language::Rust) => true,
            (Language::TypeScript, Language::TypeScript) => true,
            (Language::Python, Language::Python) => true,
            (Language::Go, Language::Go) => true,
            (Language::Java, Language::Java) => true,
            (Language::CSharp, Language::CSharp) => true,
            (Language::Ruby, Language::Ruby) => true,
            (Language::Other(a), Language::Other(b)) => crate::text::str_eq(a.as_str(), b.as_str()),
            _ => false,
        }
    }

    /// A copy of this language.
    pub fn duplicate(&self) -> (r: Language)
        ensures
            r@ == self@,
    {
        match self {
            Language::Rust => Language::Rust,
            Language::TypeScript => Language::TypeScript,
            Language::Python => Language::Python,
            Language::Go => Language::Go,
            Language::Java => Language::Java,
            Language::CSharp => Language::CSharp,
            Language::Ruby => Language::Ruby,
            Language::Other(s) => Language::Other(s.clone()),
        }
    }
}

/// Derived signal indicating whether a module is a candidate for gating.
#[derive(Debug, Clone, Copy, PartialEq, Eq, Structural)]
pub enum GatingSignal {
    StrongGateCandidate,
    WeakGateCandidate,
    OpenCandidate,
    Undetermined,
}

/// Maximum allowed token consumption for an assessment job and its
/// phases/sessions. The warning threshold is a fraction of `total_limit`
/// held in thousandths (`800` stands for `0.8`).
#[derive(Debug, Clone, Copy)]
pub struct TokenBudget {
    /// Maximum tokens for the entire job.
    pub total_limit: u64,
    /// Maximum tokens per pipeline phase.
    pub per_phase_limit: u64,
    /// Maximum tokens per individual session.
    pub per_session_limit: u64,
    /// Fraction of `total_limit`, in thousandths, at which a warning is due.
    pub warn_threshold_permille: u32,
}

impl TokenBudget {
    /// Whether `used` has reached or exceeded `total_limit`.
    pub fn is_exceeded(&self, used: u64) -> (r: bool)
        ensures
            r == (used >= self.total_limit),
    {
        used >= self.total_limit
    }

    /// Tokens remaining before `total_limit` is hit (saturating at zero).
    pub fn remaining(&self, used: u64) -> (r: u64)
        ensures
            r == (if used >= self.total_limit { 0 } else { self.total_limit - used }),
    {
        self.total_limit.saturating_sub(used)
    }
}

} // verus!
