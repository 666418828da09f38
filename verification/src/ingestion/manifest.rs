//! Package manifests among the walked files, top-level directories, and the
//! repository manifest.
use vstd::prelude::*;

use super::deps::DependencyRecord;
use super::language::{
    compute_language_stats, counted_loc, loc_in, stats_of, LanguageStats,
};
use super::walk::FileEntry;
use crate::domain::types::LanguageView;
use crate::order::{insert_sorted_unique, strictly_sorted, views};
use crate::text::{after_last, after_last_exec, chars_of, string_of};

verus! {

/// Kind of dependency-manifest file.
#[derive(Debug, Clone, Copy, PartialEq, Eq, Structural)]
pub enum PackageFileType {
    Cargo,
    Npm,
    PyProject,
    GoMod,
    Maven,
    Gradle,
    Gemfile,
    Unknown,
}

/// The kind of manifest a file name denotes, if any.
pub open spec fn package_type_of(name: Seq<char>) -> Option<PackageFileType> {
    if name == "Cargo.toml"@ {
        Some(PackageFileType::Cargo)
    } else if name == "package.json"@ {
        Some(PackageFileType::Npm)
    } else if name == "pyproject.toml"@ || name == "requirements.txt"@ {
        Some(PackageFileType::PyProject)
    } else if name == "go.mod"@ {
        Some(PackageFileType::GoMod)
    } else if name == "pom.xml"@ {
        Some(PackageFileType::Maven)
    } else if name == "build.gradle"@ || name == "build.gradle.kts"@ {
        Some(PackageFileType::Gradle)
    } else if name == "Gemfile"@ {
        Some(PackageFileType::Gemfile)
    } else {
        None
    }
}

impl PackageFileType {
    /// Classify a path by its file name. `None` if it is not a package
    /// manifest.
    pub fn from_file_name(name: &str) -> (r: Option<PackageFileType>)
        ensures
            r == package_type_of(name@),
    {
        let n = chars_of(name);
        let x = &n;
        if eq(x, "Cargo.toml") {
            Some(PackageFileType::Cargo)
        } else if eq(x, "package.json") {
            Some(PackageFileType::Npm)
        } else if eq(x, "pyproject.toml") || eq(x, "requirements.txt") {
            Some(PackageFileType::PyProject)
        } else if eq(x, "go.mod") {
            Some(PackageFileType::GoMod)
        } else if eq(x, "pom.xml") {
            Some(PackageFileType::Maven)
        } else if eq(x, "build.gradle") || eq(x, "build.gradle.kts") {
            Some(PackageFileType::Gradle)
        } else if eq(x, "Gemfile") {
            Some(PackageFileType::Gemfile)
        } else {
            None
        }
    }
}

fn eq(v: &Vec<char>, lit: &str) -> (r: bool)
    ensures
        r == (v@ == lit@),
{
    crate::licensing::copyleft::eq_lit(v, lit)
}

/// A reference to a dependency-manifest file discovered in the repository.
#[derive(Debug, Clone)]
pub struct PackageFileRef {
    pub path: String,
    pub file_type: PackageFileType,
}

/// The full manifest produced by ingesting a repository.
#[derive(Debug, Clone)]
pub struct RepoManifest {
    pub repo_id: String,
    pub url: String,
    pub total_files: usize,
    pub total_loc: usize,
    pub language_stats: LanguageStats,
    pub root_dirs: Vec<String>,
    pub file_entries: Vec<FileEntry>,
    pub package_files: Vec<PackageFileRef>,
    pub dependencies: Vec<DependencyRecord>,
}

/// The package-file references of the entries whose file name (the text
/// after the last `/` of the path) names a manifest, in order.
pub open spec fn package_refs(entries: Seq<FileEntry>) -> Seq<(Seq<char>, PackageFileType)>
    decreases entries.len(),
{
    if entries.len() == 0 {
        Seq::empty()
    } else {
        let e = entries.last();
        let before = package_refs(entries.drop_last());
        match package_type_of(after_last(e.path@, '/')) {
            Some(t) => before.push((e.path@, t)),
            None => before,
        }
    }
}

/// The views of package-file references.
pub open spec fn ref_views(refs: Seq<PackageFileRef>) -> Seq<(Seq<char>, PackageFileType)> {
    refs.map_values(|r: PackageFileRef| (r.path@, r.file_type))
}

/// Detect dependency-manifest files among the walked entries.
pub fn detect_package_files(entries: &[FileEntry]) -> (r: Vec<PackageFileRef>)
    ensures
        ref_views(r@) == package_refs(entries@),
{
    let mut out: Vec<PackageFileRef> = Vec::new();
    let mut i: usize = 0;
    while i < entries.len()
        invariant
            i <= entries@.len(),
            ref_views(out@) == package_refs(entries@.subrange(0, i as int)),
        decreases entries.len() - i,
    {
        let ghost nxt = entries@.subrange(0, i + 1);
        assert(nxt.drop_last() =~= entries@.subrange(0, i as int));
        let p = chars_of(entries[i].path.as_str());
        let name = after_last_exec(&p, '/');
        let nm = string_of(&name);
        match PackageFileType::from_file_name(nm.as_str()) {
            Some(t) => {
                out.push(PackageFileRef { path: entries[i].path.clone(), file_type: t });
                assert(ref_views(out@) =~= package_refs(nxt));
            },
            None => {},
        }
        i = i + 1;
    }
    assert(entries@.subrange(0, entries@.len() as int) =~= entries@);
    out
}

/// Some entry's path, relative to the repository root, has at least two
/// components and `dir` as the first.
pub open spec fn is_root_dir(rel_paths: Seq<Vec<String>>, dir: Seq<char>) -> bool {
    exists|i: int|
        0 <= i < rel_paths.len() && (#[trigger] rel_paths[i])@.len() > 1 && rel_paths[i]@[0]@
            == dir
}

/// The unique top-level directory names, sorted, given the components of
/// each entry's path relative to the repository root (a top-level file's
/// only component is the file itself, so it names no directory).
pub fn extract_root_dirs(rel_paths: &Vec<Vec<String>>) -> (r: Vec<String>)
    ensures
        strictly_sorted(views(r@)),
        forall|d: Seq<char>| views(r@).contains(d) <==> is_root_dir(rel_paths@, d),
{
    let mut dirs: Vec<String> = Vec::new();
    let mut i: usize = 0;
    while i < rel_paths.len()
        invariant
            i <= rel_paths@.len(),
            strictly_sorted(views(dirs@)),
            forall|d: Seq<char>|
                views(dirs@).contains(d) <==> is_root_dir(
                    rel_paths@.subrange(0, i as int),
                    d,
                ),
        decreases rel_paths.len() - i,
    {
        let ghost pre = rel_paths@.subrange(0, i as int);
        let ghost nxt = rel_paths@.subrange(0, i + 1);
        if rel_paths[i].len() > 1 {
            let first = chars_of(rel_paths[i][0].as_str());
            insert_sorted_unique(&mut dirs, &first);
            proof {
                assert forall|d: Seq<char>| views(dirs@).contains(d) <==> is_root_dir(nxt, d) by {
                    if is_root_dir(pre, d) {
                        let w = choose|w: int|
                            0 <= w < pre.len() && (#[trigger] pre[w])@.len() > 1 && pre[w]@[0]@ == d;
                        assert(nxt[w] == pre[w]);
                    }
                    if is_root_dir(nxt, d) {
                        let w = choose|w: int|
                            0 <= w < nxt.len() && (#[trigger] nxt[w])@.len() > 1 && nxt[w]@[0]@ == d;
                        if w < i {
                            assert(pre[w] == nxt[w]);
                        }
                    }
                    if d == first@ {
                        assert(nxt[i as int] == rel_paths@[i as int]);
                    }
                }
            }
        } else {
            proof {
                assert forall|d: Seq<char>| is_root_dir(pre, d) <==> is_root_dir(nxt, d) by {
                    if is_root_dir(pre, d) {
                        let w = choose|w: int|
                            0 <= w < pre.len() && (#[trigger] pre[w])@.len() > 1 && pre[w]@[0]@ == d;
                        assert(nxt[w] == pre[w]);
                    }
                    if is_root_dir(nxt, d) {
                        let w = choose|w: int|
                            0 <= w < nxt.len() && (#[trigger] nxt[w])@.len() > 1 && nxt[w]@[0]@ == d;
                        if w < i {
                            assert(pre[w] == nxt[w]);
                        } else {
                            assert(nxt[w] == rel_paths@[i as int]);
                        }
                    }
                }
            }
        }
        i = i + 1;
    }
    assert(rel_paths@.subrange(0, i as int) =~= rel_paths@);
    dirs
}

/// Assemble the manifest of a walked repository: `entries` are the walked
/// files, `rel_paths` the components of each file's path relative to the
/// repository root. The manifest gets a fresh random identifier and no
/// dependencies yet.
pub fn assemble_manifest(url: &str, entries: Vec<FileEntry>, rel_paths: &Vec<Vec<String>>) -> (m:
    RepoManifest)
    requires
        counted_loc(entries@) <= usize::MAX,
    ensures
        crate::ids::is_uuid_v4_text(m.repo_id@),
        m.url@ == url@,
        m.total_files == entries@.len(),
        m.total_loc == counted_loc(entries@),
        stats_of(m.language_stats.language_counts@, entries@),
        strictly_sorted(views(m.root_dirs@)),
        forall|d: Seq<char>| views(m.root_dirs@).contains(d) <==> is_root_dir(rel_paths@, d),
        m.file_entries@ == entries@,
        ref_views(m.package_files@) == package_refs(entries@),
        m.dependencies@.len() == 0,
{
    assert forall|l: LanguageView| #[trigger] loc_in(entries@, l) <= usize::MAX by {
        super::language::lemma_loc_in_bounded(entries@, l);
    }
    let language_stats = compute_language_stats(entries.as_slice());
    let total_loc = language_stats.total_loc();
    let root_dirs = extract_root_dirs(rel_paths);
    let package_files = detect_package_files(entries.as_slice());
    RepoManifest {
        repo_id: crate::ids::new_uuid(),
        url: url.to_owned(),
        total_files: entries.len(),
        total_loc,
        language_stats,
        root_dirs,
        file_entries: entries,
        package_files,
        dependencies: Vec::new(),
    }
}

} // verus!
