use repogate::domain::types::GatingTier;
use repogate::licensing::detect::{DetectionMethod, LicenseDetection};
use repogate::report::naming::{primary_license, recommended_tier, repo_name_from_url, report_stem, slugify};

#[test]
fn report_stem_github() {
    assert_eq!(
        report_stem("https://github.com/acme/my_project", "20260630-000000"),
        "repogate-acme-my-project-20260630-000000"
    );
}

#[test]
fn report_stem_edges() {
    assert_eq!(report_stem("https://github.com/Acme/Repo.git/", "t"), "repogate-acme-repo-t");
    assert_eq!(report_stem("repo", "t"), "repogate-unknown-repo-t");
    assert_eq!(report_stem("", "t"), "repogate-unknown-repo-t");
    assert_eq!(report_stem("a/b.git.git", "t"), "repogate-a-b-t");
    assert_eq!(slugify("My_Big_Name"), "my-big-name");
}

#[test]
fn repository_name_and_license() {
    assert_eq!(repo_name_from_url("https://github.com/acme/myproject.git/"), "myproject");
    assert_eq!(repo_name_from_url("myproject"), "myproject");
    let d = LicenseDetection {
        file_path: "LICENSE".to_string(),
        spdx_expression: "MIT".to_string(),
        confidence: 90,
        detection_method: DetectionMethod::LicenseFile,
        needs_review: false,
    };
    assert_eq!(primary_license(&vec![d]).as_deref(), Some("MIT"));
    assert!(primary_license(&vec![]).is_none());
    let scores = vec![("a".to_string(), GatingTier::Open), ("a".to_string(), GatingTier::ProTier)];
    assert_eq!(recommended_tier(&scores, "a"), Some(GatingTier::Open));
    assert_eq!(recommended_tier(&scores, "b"), None);
}

#[test]
fn html_document_of_markdown() {
    let doc = repogate::report::pdf::markdown_to_html_doc("# Title\n\n| a |\n|---|\n| b |\n\n~~gone~~\n");
    assert!(doc.starts_with("<!doctype html><html><head><meta charset=\"utf-8\"><style>@page { size: A4;"));
    assert!(doc.contains("<h1>Title</h1>"));
    assert!(doc.contains("<table>"));
    assert!(doc.contains("<del>gone</del>"));
    assert!(doc.ends_with("</body></html>"));
}
