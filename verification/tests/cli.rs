use repogate::cli::{output_plan, should_proceed, CacheArgs, CacheCommands, OutputKind, StderrProgressReporter};
use repogate::domain::types::GatingTier;
use repogate::scoring::tier_counts;

#[test]
fn yes_skips_confirmation() {
    // With --yes, no input is read.
    assert!(should_proceed(true, None));
    // Without --yes, "y" proceeds and anything else cancels.
    assert!(should_proceed(false, Some("y\n")));
    assert!(!should_proceed(false, Some("n\n")));
}

#[test]
fn confirmation_edges() {
    assert!(should_proceed(false, Some("  Y \r\n")));
    assert!(!should_proceed(false, Some("yes\n")));
    assert!(!should_proceed(false, Some("")));
    assert!(!should_proceed(false, None));
}

#[test]
fn progress_line_and_cache_args() {
    assert_eq!(StderrProgressReporter.line("ingesting", "cloning x"), "[ingesting] cloning x");
    let args = CacheArgs { command: CacheCommands::Invalidate { repo_url: "https://github.com/a/b".to_string() } };
    assert!(matches!(args.command, CacheCommands::Invalidate { .. }));
}

#[test]
fn tier_counts_of_valuation() {
    let tiers = vec![
        GatingTier::EnterpriseTier,
        GatingTier::ManagedCloud,
        GatingTier::Open,
        GatingTier::LegalReview,
        GatingTier::ProTier,
        GatingTier::Open,
    ];
    assert_eq!(tier_counts(&tiers), (2, 2, 1));
    assert_eq!(tier_counts(&vec![]), (0, 0, 0));
}

#[test]
fn output_plans() {

    assert_eq!(output_plan("json", None), (OutputKind::Json, "assessment.json".to_string()));
    assert_eq!(output_plan("pdf", Some("r.pdf".to_string())), (OutputKind::Pdf, "r.pdf".to_string()));
    assert_eq!(output_plan("markdown", None), (OutputKind::Markdown, "assessment.md".to_string()));
    assert_eq!(output_plan("html", None), (OutputKind::Markdown, "assessment.md".to_string()));
}
