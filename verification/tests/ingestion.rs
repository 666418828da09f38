use repogate::ingestion::deps::{
    cargo_records, combine_dependencies, dedup_dependencies, has_cargo_package, infer_ecosystem, sbom_records,
    DependencyRecord, Ecosystem, PackageFields,
};
use repogate::ingestion::git::{validate_repo_url, SubprocessGit};
use repogate::ingestion::language::compute_language_stats;
use repogate::ingestion::manifest::{assemble_manifest, PackageFileType};
use repogate::ingestion::walk::{classify_language, content_hash, count_lines, detect_binary, detect_generated, file_entry};
use repogate::ingestion::IngestionError;

#[test]
fn validate_url_rejects_file() {
    assert!(validate_repo_url("file:///local/path").is_err());
}

#[test]
fn validate_url_rejects_localhost() {
    assert!(validate_repo_url("http://localhost:8080/repo").is_err());
}

#[test]
fn validate_url_rejects_private_ip() {
    assert!(validate_repo_url("http://192.168.1.10/repo.git").is_err());
    assert!(validate_repo_url("https://10.0.0.5/x").is_err());
    assert!(validate_repo_url("http://127.0.0.1/x").is_err());
}

#[test]
fn validate_url_accepts_github() {
    assert!(validate_repo_url("https://github.com/rust-lang/rust").is_ok());
}

#[test]
fn validate_url_messages_and_edges() {
    match validate_repo_url("FILE:///etc") {
        Err(IngestionError::InvalidUrl(m)) => assert_eq!(m, "file:// URLs are not allowed"),
        other => panic!("unexpected {other:?}"),
    }
    match validate_repo_url("https://user@172.20.1.1:22/x") {
        Err(IngestionError::InvalidUrl(m)) => {
            assert_eq!(m, "private/loopback address not allowed: 172.20.1.1")
        }
        other => panic!("unexpected {other:?}"),
    }
    assert!(validate_repo_url("http://169.254.0.1/").is_err());
    assert!(validate_repo_url("http://0.0.0.0/").is_err());
    assert!(validate_repo_url("http://172.32.0.1/").is_ok());
    assert!(validate_repo_url("http://010.0.0.1/").is_ok());
    assert!(validate_repo_url("http://8.8.8.8/").is_ok());
    assert!(validate_repo_url("git@github.com:a/b.git").is_ok());
}

#[test]
fn cargo_record_preserves_license() {
    let record = DependencyRecord {
        name: "serde".to_string(),
        version: "1.0".to_string(),
        ecosystem: Ecosystem::Cargo,
        spdx_license: Some("MIT OR Apache-2.0".to_string()),
        is_direct: true,
        is_transitive: false,
    };
    assert_eq!(record.spdx_license.as_deref(), Some("MIT OR Apache-2.0"));
}

fn mk(n: &str, v: &str) -> DependencyRecord {
    DependencyRecord {
        name: n.to_string(),
        version: v.to_string(),
        ecosystem: Ecosystem::Cargo,
        spdx_license: None,
        is_direct: true,
        is_transitive: false,
    }
}

#[test]
fn dedup_removes_duplicate_tuples() {
    let mut deps = vec![mk("a", "1.0"), mk("a", "1.0"), mk("b", "2.0")];
    dedup_dependencies(&mut deps);
    assert_eq!(deps.len(), 2);
}

#[test]
fn dedup_sorts_and_keeps_first_of_each_key() {
    let mut first = mk("b", "1.0");
    first.spdx_license = Some("MIT".to_string());
    let mut other_eco = mk("b", "1.0");
    other_eco.ecosystem = Ecosystem::Unknown;
    let mut deps = vec![mk("c", "1.0"), first, mk("b", "1.0"), other_eco, mk("a", "2.0"), mk("a", "10.0")];
    dedup_dependencies(&mut deps);
    let keys: Vec<(&str, &str)> = deps.iter().map(|d| (d.name.as_str(), d.version.as_str())).collect();
    assert_eq!(keys, vec![("a", "10.0"), ("a", "2.0"), ("b", "1.0"), ("b", "1.0"), ("c", "1.0")]);
    assert_eq!(deps[2].spdx_license.as_deref(), Some("MIT"));
    assert_eq!(deps[3].ecosystem, Ecosystem::Unknown);
}

#[test]
fn dependency_sources_combine() {
    let pkgs = vec![PackageFields { name: Some("serde".to_string()), version: None, license: Some("MIT".to_string()) }];
    let cargo = cargo_records(&pkgs);
    assert_eq!(cargo[0].name, "serde");
    assert_eq!(cargo[0].version, "");
    assert!(cargo[0].is_direct && !cargo[0].is_transitive);
    let sbom = sbom_records(&vec![
        PackageFields { name: Some("left-pad".to_string()), version: Some("1.3.0".to_string()), license: None },
        PackageFields { name: None, version: None, license: None },
    ]);
    assert_eq!(sbom[0].ecosystem, Ecosystem::Unknown);
    assert!(!sbom[0].is_direct && sbom[0].is_transitive);
    assert_eq!(sbom[1].name, "");
    let all = combine_dependencies(cargo.clone(), Ok(sbom)).unwrap();
    assert_eq!(all.len(), 3);
    assert_eq!(all[0].name, "");
    let only_cargo = combine_dependencies(cargo.clone(), Err(IngestionError::SyftNotFound)).unwrap();
    assert_eq!(only_cargo.len(), 1);
    assert!(matches!(
        combine_dependencies(cargo, Err(IngestionError::CargoMetadataFailed)),
        Err(IngestionError::CargoMetadataFailed)
    ));
    assert_eq!(infer_ecosystem("anything"), Ecosystem::Unknown);
}

#[test]
fn detect_binary_png() {
    assert!(detect_binary("image.png", None));
}

#[test]
fn binary_by_content_and_case() {
    assert!(detect_binary("IMAGE.PNG", None));
    assert!(detect_binary("data.txt", Some(&[1u8, 0, 2])));
    assert!(!detect_binary("data.txt", Some(b"plain text")));
    assert!(!detect_binary("Makefile", None));
}

#[test]
fn classify_language_rust() {
    assert_eq!(classify_language("main.rs"), Some(repogate::domain::types::Language::Rust));
}

#[test]
fn classify_language_others() {
    assert_eq!(classify_language("app.TSX"), Some(repogate::domain::types::Language::TypeScript));
    assert_eq!(classify_language("x.pyi"), Some(repogate::domain::types::Language::Python));
    assert_eq!(classify_language("README"), None);
    assert_eq!(classify_language(".rs"), None);
}

#[test]
fn lines_generated_and_hash() {
    assert_eq!(count_lines(""), 0);
    assert_eq!(count_lines("a\n"), 1);
    assert_eq!(count_lines("a\nb"), 2);
    assert_eq!(count_lines("\n\n"), 2);
    assert!(detect_generated("web/node_modules/x.js"));
    assert!(detect_generated("dist/app.min.js"));
    assert!(!detect_generated("src/main.rs"));
    let h = content_hash(b"");
    assert_eq!(h, "af1349b9f5f9a1a6a0404dea36dcc9499bcb25c9adc112b7cc9a93cae41f3262");
    let e = file_entry("src/main.rs", "main.rs", 13, Some(b"fn main() {}\n"), Some("fn main() {}\n"));
    assert_eq!(e.language, Some(repogate::domain::types::Language::Rust));
    assert_eq!(e.loc, 1);
    assert_eq!(e.hash.len(), 64);
    let png = file_entry("logo.png", "logo.png", 4, Some(&[0u8, 1, 2, 3]), None);
    assert!(png.is_binary);
    assert!(png.language.is_none());
    assert!(png.hash.is_empty());
}

#[test]
fn manifest_of_walked_tree() {
    let entries = vec![
        file_entry("src/main.rs", "main.rs", 13, Some(b"fn main() {}\n"), Some("fn main() {}\n")),
        file_entry("Cargo.toml", "Cargo.toml", 10, Some(b"[package]\n"), Some("[package]\n")),
        file_entry("logo.png", "logo.png", 4, Some(&[0u8, 1, 2, 3]), None),
    ];
    let rel = vec![
        vec!["src".to_string(), "main.rs".to_string()],
        vec!["Cargo.toml".to_string()],
        vec!["logo.png".to_string()],
    ];
    let m = assemble_manifest("https://example.com/x", entries, &rel);
    assert_eq!(m.url, "https://example.com/x");
    assert_eq!(m.total_files, 3);
    assert_eq!(m.total_loc, 1);
    assert_eq!(m.root_dirs, vec!["src"]);
    assert!(m.package_files.iter().any(|p| p.file_type == PackageFileType::Cargo));
    assert!(m.language_stats.language_counts.iter().any(|(l, n)| *l == repogate::domain::types::Language::Rust && *n == 1));
    assert_eq!(m.repo_id.len(), 36);
    assert!(has_cargo_package(&m.package_files));
}

#[test]
fn git_arguments_and_head() {
    let g = SubprocessGit;
    assert_eq!(
        g.clone_args("https://github.com/a/b", "/tmp/b"),
        vec!["clone", "--depth=1", "--filter=blob:none", "https://github.com/a/b", "/tmp/b"]
    );
    assert_eq!(g.head_commit("abc123\n"), "abc123");
}

#[test]
fn dedup_is_idempotent() {
    let mut deps = vec![mk("b", "1.0"), mk("a", "1.0"), mk("b", "1.0"), mk("a", "0.9")];
    dedup_dependencies(&mut deps);
    let once: Vec<(String, String)> = deps.iter().map(|d| (d.name.clone(), d.version.clone())).collect();
    dedup_dependencies(&mut deps);
    let twice: Vec<(String, String)> = deps.iter().map(|d| (d.name.clone(), d.version.clone())).collect();
    assert_eq!(once, twice);
    assert_eq!(once.len(), 3);
}

#[test]
fn language_stats_sum_per_language() {
    let rs1 = file_entry("src/a.rs", "a.rs", 6, Some(b"a\nb\nc\n"), Some("a\nb\nc\n"));
    let rs2 = file_entry("src/b.rs", "b.rs", 2, Some(b"x\n"), Some("x\n"));
    let py = file_entry("tool.py", "tool.py", 4, Some(b"1\n2\n"), Some("1\n2\n"));
    let bin = file_entry("logo.png", "logo.png", 4, Some(&[0u8, 1, 2, 3]), None);
    let mut generated = file_entry("vendor/c.rs", "c.rs", 2, Some(b"y\n"), Some("y\n"));
    generated.is_generated = true;
    let stats = compute_language_stats(&[rs1, py, bin, rs2, generated]);
    assert_eq!(
        stats.language_counts,
        vec![(repogate::domain::types::Language::Rust, 4), (repogate::domain::types::Language::Python, 2)]
    );
    assert_eq!(stats.total_loc(), 6);
}

#[test]
fn manifest_id_is_hyphenated_v4_uuid() {
    let m = assemble_manifest("https://example.com/x", vec![], &vec![]);
    let b = m.repo_id.as_bytes();
    assert_eq!(b.len(), 36);
    for (i, c) in b.iter().enumerate() {
        if i == 8 || i == 13 || i == 18 || i == 23 {
            assert_eq!(*c, b'-');
        } else {
            assert!(c.is_ascii_digit() || (b'a'..=b'f').contains(c));
        }
    }
    assert_eq!(b[14], b'4');
    assert!(b"89ab".contains(&b[19]));
}
