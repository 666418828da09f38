use repogate::ingestion::deps::{DependencyRecord, Ecosystem};
use repogate::licensing::copyleft::{classify_license, copyleft_risk_score, CopyleftTier};
use repogate::licensing::detect::{
    detect_in_file, extract_spdx_header, header_detection, identify_license_text, is_license_file_name,
    is_source_extension, license_file_detection, DetectionMethod, LicenseDetection,
};
use repogate::licensing::report::build_report;
use repogate::licensing::spdx;
use repogate::licensing::LicensingError;

fn detection(spdx: &str) -> LicenseDetection {
    LicenseDetection {
        file_path: "LICENSE".to_string(),
        spdx_expression: spdx.to_string(),
        confidence: 95,
        detection_method: DetectionMethod::LicenseFile,
        needs_review: false,
    }
}

#[test]
fn classify_agpl() {
    assert_eq!(classify_license("AGPL-3.0"), CopyleftTier::StrongCopyleft);
}

#[test]
fn classify_gpl3() {
    assert_eq!(classify_license("GPL-3.0"), CopyleftTier::StrongCopyleft);
}

#[test]
fn classify_mit() {
    assert_eq!(classify_license("MIT"), CopyleftTier::Permissive);
}

#[test]
fn classify_bsl() {
    assert_eq!(classify_license("BSL-1.1"), CopyleftTier::SourceAvailableNonOsi);
}

#[test]
fn classify_strips_suffixes_and_whitespace() {
    assert_eq!(classify_license("  GPL-3.0-or-later "), CopyleftTier::StrongCopyleft);
    assert_eq!(classify_license("LGPL-2.1-only"), CopyleftTier::WeakCopyleft);
    assert_eq!(classify_license("CC0-1.0"), CopyleftTier::PublicDomain);
    assert_eq!(classify_license("WTFPL"), CopyleftTier::Unknown);
    assert_eq!(classify_license("mit"), CopyleftTier::Unknown);
}

#[test]
fn risk_score_strong_copyleft() {
    assert!(copyleft_risk_score(CopyleftTier::StrongCopyleft) >= 8);
}

#[test]
fn risk_scores_exact() {
    assert_eq!(copyleft_risk_score(CopyleftTier::StrongCopyleft), 9);
    assert_eq!(copyleft_risk_score(CopyleftTier::WeakCopyleft), 4);
    assert_eq!(copyleft_risk_score(CopyleftTier::SourceAvailableNonOsi), 3);
    assert_eq!(copyleft_risk_score(CopyleftTier::Permissive), 0);
    assert_eq!(copyleft_risk_score(CopyleftTier::PublicDomain), 0);
    assert_eq!(copyleft_risk_score(CopyleftTier::Unknown), 2);
}

#[test]
fn gpl3_repo_overall_risk_high() {
    let report = build_report("repo-1", vec![detection("GPL-3.0")], &[]).unwrap();
    assert!(report.overall_risk_score >= 8);
}

#[test]
fn dependency_gpl_drives_risk() {
    let dep = DependencyRecord {
        name: "somecrate".to_string(),
        version: "1.0".to_string(),
        ecosystem: Ecosystem::Cargo,
        spdx_license: Some("GPL-3.0".to_string()),
        is_direct: true,
        is_transitive: false,
    };
    let report = build_report("repo-1", vec![], &[dep]).unwrap();
    assert!(report.overall_risk_score >= 8);
    assert_eq!(report.dependency_licenses.len(), 1);
}

#[test]
fn report_fields_exact() {
    let dep = DependencyRecord {
        name: "weak".to_string(),
        version: "2".to_string(),
        ecosystem: Ecosystem::Npm,
        spdx_license: Some("MPL-2.0".to_string()),
        is_direct: false,
        is_transitive: true,
    };
    let nolic = DependencyRecord { spdx_license: None, name: "x".to_string(), ..dep.clone() };
    let report = build_report("r", vec![detection("MIT")], &[dep, nolic]).unwrap();
    assert_eq!(report.repo_id, "r");
    assert_eq!(report.copyleft_exposure, 0);
    assert_eq!(report.overall_risk_score, 4);
    assert_eq!(
        report.dependency_licenses,
        vec![("weak".to_string(), "MPL-2.0".to_string())]
    );
    assert!(!report.missing_licenses);
    assert!(report.conflicts.is_empty());
    let empty = build_report("r", vec![], &[]).unwrap();
    assert!(empty.missing_licenses);
    assert_eq!(empty.overall_risk_score, 0);
}

#[test]
fn spdx_with_exception_parses() {
    assert!(spdx::parse_and_normalize("GPL-2.0-only WITH Classpath-exception-2.0").is_ok());
    let ids = spdx::extract_base_identifiers("GPL-2.0-only WITH Classpath-exception-2.0").unwrap();
    assert_eq!(ids, vec!["GPL-2.0-only".to_string()]);
}

#[test]
fn spdx_compound_parses() {
    let ids = spdx::extract_base_identifiers("MIT OR Apache-2.0").unwrap();
    assert!(ids.contains(&"MIT".to_string()));
    assert!(ids.contains(&"Apache-2.0".to_string()));
}

#[test]
fn spdx_parenthesised_and_normalised() {
    let ids = spdx::extract_base_identifiers("(MIT AND Apache-2.0) OR ISC").unwrap();
    assert_eq!(ids, vec!["MIT".to_string(), "Apache-2.0".to_string(), "ISC".to_string()]);
    assert_eq!(spdx::parse_and_normalize("  MIT  ").unwrap(), "MIT");
}

#[test]
fn spdx_invalid_is_parse_error() {
    match spdx::parse_and_normalize("MIT OR") {
        Err(LicensingError::SpdxParseFailed(m)) => assert!(!m.is_empty()),
        other => panic!("unexpected {other:?}"),
    }
    assert!(matches!(
        spdx::extract_base_identifiers("NOT-A-LICENSE-XYZ"),
        Err(LicensingError::SpdxParseFailed(_))
    ));
}

#[test]
fn identify_mit_text() {
    let text = "Permission is hereby granted, free of charge, to any person obtaining a copy";
    assert_eq!(identify_license_text(text).map(|(id, _)| id), Some("MIT".to_string()));
}

#[test]
fn identify_license_texts_by_signature() {
    assert_eq!(
        identify_license_text("GNU GENERAL PUBLIC LICENSE Version 2, June 1991"),
        Some(("GPL-2.0".to_string(), 90))
    );
    assert_eq!(
        identify_license_text("gnu affero general public license version 3"),
        Some(("AGPL-3.0".to_string(), 90))
    );
    assert_eq!(
        identify_license_text(
            "Redistribution and use in source and binary forms ... Neither the name"
        ),
        Some(("BSD-3-Clause".to_string(), 90))
    );
    assert_eq!(identify_license_text("all rights reserved"), None);
}

#[test]
fn spdx_header_extraction() {
    assert_eq!(
        extract_spdx_header("// SPDX-License-Identifier: MIT OR Apache-2.0"),
        Some("MIT OR Apache-2.0".to_string())
    );
    assert_eq!(
        extract_spdx_header("/* SPDX-License-Identifier: GPL-2.0 */"),
        Some("GPL-2.0".to_string())
    );
    assert_eq!(extract_spdx_header("// SPDX-License-Identifier: */"), None);
    assert_eq!(extract_spdx_header("fn main() {}"), None);
}

#[test]
fn file_classification() {
    assert!(is_license_file_name("LICENSE-MIT"));
    assert!(is_license_file_name("copying.txt"));
    assert!(is_license_file_name("Notice"));
    assert!(!is_license_file_name("README.md"));
    assert!(is_source_extension("rs"));
    assert!(!is_source_extension("RS"));
    assert!(!is_source_extension("md"));
}

#[test]
fn detections_for_files() {
    let d = license_file_detection("repo/LICENSE", "Business Source License 1.1").unwrap();
    assert_eq!(d.spdx_expression, "BSL-1.1");
    assert_eq!(d.confidence, 90);
    assert!(!d.needs_review);
    assert_eq!(d.detection_method, DetectionMethod::LicenseFile);
    let mut lines: Vec<String> = (0..29).map(|i| format!("line {i}")).collect();
    lines.push("// SPDX-License-Identifier: ISC".to_string());
    let h = header_detection("src/a.rs", &lines).unwrap();
    assert_eq!(h.spdx_expression, "ISC");
    assert_eq!(h.confidence, 95);
    lines.insert(0, "fn x() {}".to_string());
    assert!(header_detection("src/a.rs", &lines).is_none());
}

#[test]
fn detect_in_file_sets_confidence_and_review() {
    let d = detect_in_file("repo/LICENSE", "LICENSE", Some("Business Source License 1.1")).unwrap();
    assert_eq!(d.spdx_expression, "BSL-1.1");
    assert_eq!(d.confidence, 90);
    assert!(!d.needs_review);
    assert_eq!(d.detection_method, DetectionMethod::LicenseFile);
    let h = detect_in_file("src/a.rs", "a.rs", Some("// SPDX-License-Identifier: MIT\nfn x() {}\n")).unwrap();
    assert_eq!(h.spdx_expression, "MIT");
    assert_eq!(h.confidence, 95);
    assert!(!h.needs_review);
    assert_eq!(h.detection_method, DetectionMethod::SpdxHeader);
    assert_eq!(h.file_path, "src/a.rs");
    assert!(detect_in_file("README.md", "README.md", Some("// SPDX-License-Identifier: MIT")).is_none());
    assert!(detect_in_file("repo/LICENSE", "LICENSE", None).is_none());
}

#[test]
fn spdx_normalize_is_idempotent() {
    let once = spdx::parse_and_normalize("\t (MIT AND Apache-2.0) OR ISC \n").unwrap();
    assert_eq!(once, "(MIT AND Apache-2.0) OR ISC");
    let twice = spdx::parse_and_normalize(&once).unwrap();
    assert_eq!(twice, once);
}
