//! Report file naming: `repogate-{owner}-{repo}-{timestamp}`.
use vstd::prelude::*;

use crate::domain::types::GatingTier;
use crate::licensing::detect::LicenseDetection;
use crate::text::{
    after_last, after_last_exec, append_str, chars_of, split_exec, split_pieces, str_eq, string_of,
    strip_suffix_all, strip_suffix_all_chars, strip_trailing_chars, strip_trailing_chars_exec,
    to_lowercase, unicode_lowercase,
};

verus! {

/// The non-empty pieces, in order.
pub open spec fn nonempty_pieces(pieces: Seq<Seq<char>>) -> Seq<Seq<char>> {
    pieces.filter(|p: Seq<char>| p.len() > 0)
}

/// The non-empty `/`-separated parts of a URL without its trailing slashes.
pub open spec fn url_parts(url: Seq<char>) -> Seq<Seq<char>> {
    nonempty_pieces(split_pieces(strip_trailing_chars(url, seq!['/']), '/'))
}

/// A file-name slug: the Unicode lower-casing with `_` replaced by `-`.
pub open spec fn slug(s: Seq<char>) -> Seq<char> {
    unicode_lowercase(s).map_values(|c: char| if c == '_' { '-' } else { c })
}

/// The report stem of a repository URL and a completion timestamp: the
/// second-to-last URL part is the owner (`unknown` when missing), the last
/// the repository (`repo` when missing, without trailing `.git`).
pub open spec fn stem_of(url: Seq<char>, completed_at: Seq<char>) -> Seq<char> {
    let parts = url_parts(url);
    let owner = if parts.len() >= 2 {
        parts[parts.len() - 2]
    } else {
        "unknown"@
    };
    let repo = if parts.len() >= 1 {
        parts.last()
    } else {
        "repo"@
    };
    "repogate-"@ + slug(owner) + "-"@ + slug(strip_suffix_all(repo, ".git"@)) + "-"@ + completed_at
}

/// Lower-case `s` and replace each `_` by `-`.
pub fn slugify(s: &str) -> (r: String)
    ensures
        r@ == slug(s@),
{
    let lowered = to_lowercase(s);
    let c = chars_of(lowered.as_str());
    let mut out: Vec<char> = Vec::new();
    for i in 0..c.len()
        invariant
            c@ == unicode_lowercase(s@),
            out@ == c@.subrange(0, i as int).map_values(|x: char| if x == '_' { '-' } else { x }),
    {
        let x = c[i];
        out.push(if x == '_' { '-' } else { x });
        assert(out@ =~= c@.subrange(0, i + 1).map_values(|x: char| if x == '_' { '-' } else { x }));
    }
    assert(c@.subrange(0, c@.len() as int) =~= c@);
    string_of(&out)
}

fn url_parts_exec(url: &str) -> (r: Vec<Vec<char>>)
    ensures
        r@.len() == url_parts(url@).len(),
        forall|i: int| 0 <= i < r@.len() ==> #[trigger] r@[i]@ == url_parts(url@)[i],
{
    let slash = vec!['/'];
    let trimmed = strip_trailing_chars_exec(&chars_of(url), &slash);
    assert(slash@ =~= seq!['/']);
    let pieces = split_exec(&trimmed, '/');
    let ghost all = split_pieces(trimmed@, '/');
    let ghost pred = |p: Seq<char>| p.len() > 0;
    let mut out: Vec<Vec<char>> = Vec::new();
    assert(all.subrange(0, 0).filter(pred) =~= Seq::<Seq<char>>::empty()) by {
        reveal(Seq::filter);
    }
    for i in 0..pieces.len()
        invariant
            pieces@.len() == all.len(),
            forall|k: int| 0 <= k < pieces@.len() ==> #[trigger] pieces@[k]@ == all[k],
            pred == (|p: Seq<char>| p.len() > 0),
            out@.len() == all.subrange(0, i as int).filter(pred).len(),
            forall|k: int| 0 <= k < out@.len() ==> #[trigger] out@[k]@ == all.subrange(0, i as int).filter(pred)[k],
    {
        assert(all.subrange(0, i + 1).drop_last() =~= all.subrange(0, i as int));
        assert(all.subrange(0, i + 1).filter(pred) == (if pred(all[i as int]) {
            all.subrange(0, i as int).filter(pred).push(all[i as int])
        } else {
            all.subrange(0, i as int).filter(pred)
        })) by {
            reveal(Seq::filter);
        }
        if pieces[i].len() > 0 {
            let p = crate::text::slice_chars(&pieces[i], 0, pieces[i].len());
            out.push(p);
        }
    }
    assert(all.subrange(0, all.len() as int) =~= all);
    out
}

/// Build the report file stem from a repository URL and a completion
/// timestamp.
pub fn report_stem(repo_url: &str, completed_at: &str) -> (r: String)
    ensures
        r@ == stem_of(repo_url@, completed_at@),
{
    let parts = url_parts_exec(repo_url);
    let n = parts.len();
    let owner: Vec<char> = if n >= 2 {
        crate::text::slice_chars(&parts[n - 2], 0, parts[n - 2].len())
    } else {
        chars_of("unknown")
    };
    let repo: Vec<char> = if n >= 1 {
        crate::text::slice_chars(&parts[n - 1], 0, parts[n - 1].len())
    } else {
        chars_of("repo")
    };
    let ghost parts_spec = url_parts(repo_url@);
    proof {
        if n >= 2 {
            assert(parts[n - 2]@ == parts_spec[n - 2]);
            assert(owner@ =~= parts_spec[n - 2]);
        }
        if n >= 1 {
            assert(parts[n - 1]@ == parts_spec[n - 1]);
            assert(repo@ =~= parts_spec.last());
        }
    }
    let repo_trimmed = strip_suffix_all_chars(&repo, ".git");
    let owner_slug = slugify(string_of(&owner).as_str());
    let repo_slug = slugify(string_of(&repo_trimmed).as_str());
    let mut out: Vec<char> = Vec::new();
    append_str(&mut out, "repogate-");
    append_str(&mut out, owner_slug.as_str());
    append_str(&mut out, "-");
    append_str(&mut out, repo_slug.as_str());
    append_str(&mut out, "-");
    append_str(&mut out, completed_at);
    string_of(&out)
}

/// The repository name of a URL: its last `/`-separated part (after
/// removing trailing slashes), without trailing `.git`.
pub open spec fn repo_name_of(url: Seq<char>) -> Seq<char> {
    strip_suffix_all(after_last(strip_trailing_chars(url, seq!['/']), '/'), ".git"@)
}

/// The repository name of a URL.
pub fn repo_name_from_url(url: &str) -> (r: String)
    ensures
        r@ == repo_name_of(url@),
{
    let slash = vec!['/'];
    let trimmed = strip_trailing_chars_exec(&chars_of(url), &slash);
    assert(slash@ =~= seq!['/']);
    let last = after_last_exec(&trimmed, '/');
    string_of(&strip_suffix_all_chars(&last, ".git"))
}

/// The primary license of a repository: the expression of its first
/// detection, if any.
pub fn primary_license(detections: &Vec<LicenseDetection>) -> (r: Option<String>)
    ensures
        match r {
            Some(s) => detections@.len() > 0 && s@ == detections@[0].spdx_expression@,
            None => detections@.len() == 0,
        },
{
    if detections.len() > 0 {
        Some(detections[0].spdx_expression.clone())
    } else {
        None
    }
}

/// The tier recorded for `module_id` in `(module, tier)` pairs: the first.
pub fn recommended_tier(scores: &Vec<(String, GatingTier)>, module_id: &str) -> (r: Option<GatingTier>)
    ensures
        match r {
            Some(t) => exists|i: int|
                0 <= i < scores@.len() && (#[trigger] scores@[i]).0@ == module_id@ && scores@[i].1 == t
                    && forall|j: int| 0 <= j < i ==> (#[trigger] scores@[j]).0@ != module_id@,
            None => forall|j: int| 0 <= j < scores@.len() ==> (#[trigger] scores@[j]).0@ != module_id@,
        },
{
    for i in 0..scores.len()
        invariant
            forall|j: int| 0 <= j < i ==> (#[trigger] scores@[j]).0@ != module_id@,
    {
        if str_eq(scores[i].0.as_str(), module_id) {
            return Some(scores[i].1);
        }
    }
    None
}

} // verus!
