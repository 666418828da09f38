//! Copyleft classification of SPDX identifiers and the copyleft risk matrix.
use vstd::prelude::*;

use crate::text::{
    chars_of, has_suffix, is_ws, seq_eq, strip_suffix_all, strip_suffix_all_chars, trim_chars,
    trim_end_ws, trim_start_ws, trim_ws,
};

verus! {

/// Copyleft exposure tier for a license.
#[derive(Debug, Clone, Copy, PartialEq, Eq, Structural)]
pub enum CopyleftTier {
    /// GPL / AGPL family: strong, viral copyleft.
    StrongCopyleft,
    /// LGPL / MPL / EUPL: file- or library-level copyleft.
    WeakCopyleft,
    /// BSL / SSPL / Elastic: source-available, not OSI-approved.
    SourceAvailableNonOsi,
    /// MIT / Apache / BSD / ISC: permissive.
    Permissive,
    /// Public-domain dedications.
    PublicDomain,
    /// No match.
    Unknown,
}

/// The base identifier of an SPDX id: trimmed, then with trailing
/// `-or-later` and then trailing `-only` suffixes removed.
pub open spec fn license_base(spdx_id: Seq<char>) -> Seq<char> {
    strip_suffix_all(strip_suffix_all(trim_ws(spdx_id), "-or-later"@), "-only"@)
}

/// The tier of a base identifier.
pub open spec fn tier_of_base(base: Seq<char>) -> CopyleftTier {
    if base == "AGPL-3.0"@ || base == "GPL-3.0"@ || base == "GPL-2.0"@ {
        CopyleftTier::StrongCopyleft
    } else if base == "LGPL-2.1"@ || base == "LGPL-3.0"@ || base == "MPL-2.0"@ || base
        == "EUPL-1.2"@ {
        CopyleftTier::WeakCopyleft
    } else if base == "BSL-1.1"@ || base == "SSPL-1.0"@ || base == "Elastic-2.0"@ {
        CopyleftTier::SourceAvailableNonOsi
    } else if base == "MIT"@ || base == "Apache-2.0"@ || base == "BSD-2-Clause"@ || base
        == "BSD-3-Clause"@ || base == "ISC"@ {
        CopyleftTier::Permissive
    } else if base == "Unlicense"@ || base == "CC0-1.0"@ {
        CopyleftTier::PublicDomain
    } else {
        CopyleftTier::Unknown
    }
}

/// The tier that `classify_license` gives an SPDX identifier.
pub open spec fn classify_spec(spdx_id: Seq<char>) -> CopyleftTier {
    tier_of_base(license_base(spdx_id))
}

/// The 0..=10 copyleft risk score of a tier.
pub open spec fn risk_of(tier: CopyleftTier) -> u32 {
    match tier {
        CopyleftTier::StrongCopyleft => 9,
        CopyleftTier::WeakCopyleft => 4,
        CopyleftTier::SourceAvailableNonOsi => 3,
        CopyleftTier::Permissive => 0,
        CopyleftTier::PublicDomain => 0,
        CopyleftTier::Unknown => 2,
    }
}

/// Whether the characters `v` spell the string `lit`.
pub fn eq_lit(v: &Vec<char>, lit: &str) -> (r: bool)
    ensures
        r == (v@ == lit@),
{
    let l = chars_of(lit);
    seq_eq(v, &l)
}

/// Classify an SPDX license identifier into a [`CopyleftTier`].
pub fn classify_license(spdx_id: &str) -> (tier: CopyleftTier)
    ensures
        tier == classify_spec(spdx_id@),
{
    let s = chars_of(spdx_id);
    let t = trim_chars(&s);
    let a = strip_suffix_all_chars(&t, "-or-later");
    let base = strip_suffix_all_chars(&a, "-only");
    if eq_lit(&base, "AGPL-3.0") || eq_lit(&base, "GPL-3.0") || eq_lit(&base, "GPL-2.0") {
        CopyleftTier::StrongCopyleft
    } else if eq_lit(&base, "LGPL-2.1") || eq_lit(&base, "LGPL-3.0") || eq_lit(&base, "MPL-2.0")
        || eq_lit(&base, "EUPL-1.2") {
        CopyleftTier::WeakCopyleft
    } else if eq_lit(&base, "BSL-1.1") || eq_lit(&base, "SSPL-1.0") || eq_lit(
        &base,
        "Elastic-2.0",
    ) {
        CopyleftTier::SourceAvailableNonOsi
    } else if eq_lit(&base, "MIT") || eq_lit(&base, "Apache-2.0") || eq_lit(&base, "BSD-2-Clause")
        || eq_lit(&base, "BSD-3-Clause") || eq_lit(&base, "ISC") {
        CopyleftTier::Permissive
    } else if eq_lit(&base, "Unlicense") || eq_lit(&base, "CC0-1.0") {
        CopyleftTier::PublicDomain
    } else {
        CopyleftTier::Unknown
    }
}

/// Map a [`CopyleftTier`] to its 0..=10 risk score for the commercial-gating
/// model (every score of the matrix is a whole number).
pub fn copyleft_risk_score(tier: CopyleftTier) -> (score: u32)
    ensures
        score == risk_of(tier),
        score <= 10,
{
    match tier {
        CopyleftTier::StrongCopyleft => 9,
        CopyleftTier::WeakCopyleft => 4,
        CopyleftTier::SourceAvailableNonOsi => 3,
        CopyleftTier::Permissive => 0,
        CopyleftTier::PublicDomain => 0,
        CopyleftTier::Unknown => 2,
    }
}

/// Strong copyleft carries the highest risk of the matrix, and permissive and
/// public-domain licenses carry none.
pub proof fn lemma_risk_matrix_ordering(t: CopyleftTier)
    ensures
        risk_of(t) <= risk_of(CopyleftTier::StrongCopyleft),
        risk_of(CopyleftTier::Permissive) <= risk_of(t),
        risk_of(CopyleftTier::PublicDomain) == 0,
        risk_of(CopyleftTier::StrongCopyleft) >= 8,
{
}

proof fn lemma_no_suffix_when_last_differs(s: Seq<char>, pat: Seq<char>)
    requires
        pat.len() > 0,
        s.len() == 0 || s.last() != pat.last(),
    ensures
        !has_suffix(s, pat),
{
    if has_suffix(s, pat) {
        let k = s.len() - pat.len();
        assert(s.subrange(k, s.len() as int)[pat.len() - 1] == s[s.len() - 1]);
    }
}

proof fn lemma_strip_one_suffix(x: Seq<char>, pat: Seq<char>)
    requires
        pat.len() > 0,
        !has_suffix(x, pat),
    ensures
        strip_suffix_all(x + pat, pat) == x,
        strip_suffix_all(x, pat) == x,
{
    let s = x + pat;
    assert(s.subrange(x.len() as int, s.len() as int) =~= pat);
    assert(has_suffix(s, pat));
    assert(s.subrange(0, s.len() - pat.len()) =~= x);
    assert(strip_suffix_all(x, pat) == x);
    assert(strip_suffix_all(s, pat) == strip_suffix_all(s.subrange(0, s.len() - pat.len()), pat));
}

proof fn lemma_trim_untouched(t: Seq<char>)
    requires
        t.len() > 0,
        !is_ws(t[0]),
        !is_ws(t.last()),
    ensures
        trim_ws(t) == t,
{
    assert(trim_start_ws(t) == t);
    assert(trim_end_ws(t) == t);
}

/// The base of `b`, `b-only` and `b-or-later` is `b`, for a base `b` that
/// ends in a digit.
proof fn lemma_base_of_spellings(b: Seq<char>)
    requires
        b.len() > 0,
        '0' <= b.last() <= '9',
        !is_ws(b[0]),
    ensures
        license_base(b) == b,
        license_base(b + "-only"@) == b,
        license_base(b + "-or-later"@) == b,
{
    reveal_strlit("-only");
    reveal_strlit("-or-later");
    let only = "-only"@;
    let later = "-or-later"@;
    lemma_no_suffix_when_last_differs(b, only);
    lemma_no_suffix_when_last_differs(b, later);
    lemma_strip_one_suffix(b, only);
    lemma_strip_one_suffix(b, later);
    lemma_trim_untouched(b);
    let bo = b + only;
    assert(bo[0] == b[0] && bo.last() == 'y');
    lemma_trim_untouched(bo);
    lemma_no_suffix_when_last_differs(bo, later);
    lemma_strip_one_suffix(bo, later);
    let bl = b + later;
    assert(bl[0] == b[0] && bl.last() == 'r');
    lemma_trim_untouched(bl);
}

/// The GPL family is strong copyleft: an identifier whose base is
/// `AGPL-3.0`, `GPL-3.0` or `GPL-2.0` classifies as strong copyleft.
pub proof fn lemma_gpl_family_is_strong_copyleft(spdx_id: Seq<char>)
    requires
        license_base(spdx_id) == "AGPL-3.0"@ || license_base(spdx_id) == "GPL-3.0"@
            || license_base(spdx_id) == "GPL-2.0"@,
    ensures
        classify_spec(spdx_id) == CopyleftTier::StrongCopyleft,
{
}

/// Every spelling of a GPL-family identifier (`GPL-2.0`, `GPL-2.0-only`,
/// `GPL-2.0-or-later`, and the same for `GPL-3.0` and `AGPL-3.0`),
/// surrounded by any whitespace, classifies as strong copyleft.
pub proof fn lemma_gpl_spellings_are_strong_copyleft(spdx_id: Seq<char>)
    requires
        trim_ws(spdx_id) == "GPL-2.0"@ || trim_ws(spdx_id) == "GPL-2.0-only"@ || trim_ws(spdx_id)
            == "GPL-2.0-or-later"@ || trim_ws(spdx_id) == "GPL-3.0"@ || trim_ws(spdx_id)
            == "GPL-3.0-only"@ || trim_ws(spdx_id) == "GPL-3.0-or-later"@ || trim_ws(spdx_id)
            == "AGPL-3.0"@ || trim_ws(spdx_id) == "AGPL-3.0-only"@ || trim_ws(spdx_id)
            == "AGPL-3.0-or-later"@,
    ensures
        classify_spec(spdx_id) == CopyleftTier::StrongCopyleft,
{
    reveal_strlit("GPL-2.0");
    reveal_strlit("GPL-2.0-only");
    reveal_strlit("GPL-2.0-or-later");
    reveal_strlit("GPL-3.0");
    reveal_strlit("GPL-3.0-only");
    reveal_strlit("GPL-3.0-or-later");
    reveal_strlit("AGPL-3.0");
    reveal_strlit("AGPL-3.0-only");
    reveal_strlit("AGPL-3.0-or-later");
    reveal_strlit("-only");
    reveal_strlit("-or-later");
    let t = trim_ws(spdx_id);
    let bases = seq!["GPL-2.0"@, "GPL-3.0"@, "AGPL-3.0"@];
    assert forall|k: int| 0 <= k < 3 implies license_base(#[trigger] bases[k]) == bases[k] && license_base(bases[k] + "-only"@) == bases[k] && license_base(bases[k] + "-or-later"@) == bases[k] by {
        lemma_base_of_spellings(bases[k]);
    }
    assert("GPL-2.0-only"@ =~= bases[0] + "-only"@);
    assert("GPL-2.0-or-later"@ =~= bases[0] + "-or-later"@);
    assert("GPL-3.0-only"@ =~= bases[1] + "-only"@);
    assert("GPL-3.0-or-later"@ =~= bases[1] + "-or-later"@);
    assert("AGPL-3.0-only"@ =~= bases[2] + "-only"@);
    assert("AGPL-3.0-or-later"@ =~= bases[2] + "-or-later"@);
    assert(license_base(spdx_id) == license_base(t));
    lemma_gpl_family_is_strong_copyleft(spdx_id);
}

/// LGPL, MPL and EUPL are weak copyleft: an identifier whose base is
/// `LGPL-2.1`, `LGPL-3.0`, `MPL-2.0` or `EUPL-1.2` classifies as weak copyleft.
pub proof fn lemma_weak_copyleft_licenses(spdx_id: Seq<char>)
    requires
        license_base(spdx_id) == "LGPL-2.1"@ || license_base(spdx_id) == "LGPL-3.0"@ || license_base(spdx_id) == "MPL-2.0"@ || license_base(spdx_id) == "EUPL-1.2"@,
    ensures
        classify_spec(spdx_id) == CopyleftTier::WeakCopyleft,
{
    reveal_strlit("AGPL-3.0");
    reveal_strlit("GPL-3.0");
    reveal_strlit("GPL-2.0");
    reveal_strlit("LGPL-2.1");
    reveal_strlit("LGPL-3.0");
    reveal_strlit("MPL-2.0");
    reveal_strlit("EUPL-1.2");
    reveal_strlit("BSL-1.1");
    reveal_strlit("SSPL-1.0");
    reveal_strlit("Elastic-2.0");
    reveal_strlit("MIT");
    reveal_strlit("Apache-2.0");
    reveal_strlit("BSD-2-Clause");
    reveal_strlit("BSD-3-Clause");
    reveal_strlit("ISC");
    reveal_strlit("Unlicense");
    reveal_strlit("CC0-1.0");
    let b = license_base(spdx_id);
    if b == "LGPL-2.1"@ {
        assert(b.len() == 8 && b[0] == 'L' && b[1] == 'G' && b[2] == 'P' && b[3] == 'L');
    }
    if b == "LGPL-3.0"@ {
        assert(b.len() == 8 && b[0] == 'L' && b[1] == 'G' && b[2] == 'P' && b[3] == 'L');
    }
    if b == "MPL-2.0"@ {
        assert(b.len() == 7 && b[0] == 'M' && b[1] == 'P' && b[2] == 'L' && b[3] == '-');
    }
    if b == "EUPL-1.2"@ {
        assert(b.len() == 8 && b[0] == 'E' && b[1] == 'U' && b[2] == 'P' && b[3] == 'L');
    }
}

/// BSL, SSPL and the Elastic license are source-available, not OSI:
/// bases `BSL-1.1`, `SSPL-1.0` and `Elastic-2.0`.
pub proof fn lemma_source_available_licenses(spdx_id: Seq<char>)
    requires
        license_base(spdx_id) == "BSL-1.1"@ || license_base(spdx_id) == "SSPL-1.0"@ || license_base(spdx_id) == "Elastic-2.0"@,
    ensures
        classify_spec(spdx_id) == CopyleftTier::SourceAvailableNonOsi,
{
    reveal_strlit("AGPL-3.0");
    reveal_strlit("GPL-3.0");
    reveal_strlit("GPL-2.0");
    reveal_strlit("LGPL-2.1");
    reveal_strlit("LGPL-3.0");
    reveal_strlit("MPL-2.0");
    reveal_strlit("EUPL-1.2");
    reveal_strlit("BSL-1.1");
    reveal_strlit("SSPL-1.0");
    reveal_strlit("Elastic-2.0");
    reveal_strlit("MIT");
    reveal_strlit("Apache-2.0");
    reveal_strlit("BSD-2-Clause");
    reveal_strlit("BSD-3-Clause");
    reveal_strlit("ISC");
    reveal_strlit("Unlicense");
    reveal_strlit("CC0-1.0");
    let b = license_base(spdx_id);
    if b == "BSL-1.1"@ {
        assert(b.len() == 7 && b[0] == 'B' && b[1] == 'S' && b[2] == 'L' && b[3] == '-');
    }
    if b == "SSPL-1.0"@ {
        assert(b.len() == 8 && b[0] == 'S' && b[1] == 'S' && b[2] == 'P' && b[3] == 'L');
    }
    if b == "Elastic-2.0"@ {
        assert(b.len() == 11 && b[0] == 'E' && b[1] == 'l' && b[2] == 'a' && b[3] == 's');
    }
}

/// MIT, Apache, BSD and ISC are permissive: bases `MIT`, `Apache-2.0`,
/// `BSD-2-Clause`, `BSD-3-Clause` and `ISC`.
pub proof fn lemma_permissive_licenses(spdx_id: Seq<char>)
    requires
        license_base(spdx_id) == "MIT"@ || license_base(spdx_id) == "Apache-2.0"@ || license_base(spdx_id) == "BSD-2-Clause"@ || license_base(spdx_id) == "BSD-3-Clause"@ || license_base(spdx_id) == "ISC"@,
    ensures
        classify_spec(spdx_id) == CopyleftTier::Permissive,
{
    reveal_strlit("AGPL-3.0");
    reveal_strlit("GPL-3.0");
    reveal_strlit("GPL-2.0");
    reveal_strlit("LGPL-2.1");
    reveal_strlit("LGPL-3.0");
    reveal_strlit("MPL-2.0");
    reveal_strlit("EUPL-1.2");
    reveal_strlit("BSL-1.1");
    reveal_strlit("SSPL-1.0");
    reveal_strlit("Elastic-2.0");
    reveal_strlit("MIT");
    reveal_strlit("Apache-2.0");
    reveal_strlit("BSD-2-Clause");
    reveal_strlit("BSD-3-Clause");
    reveal_strlit("ISC");
    reveal_strlit("Unlicense");
    reveal_strlit("CC0-1.0");
    let b = license_base(spdx_id);
    if b == "MIT"@ {
        assert(b.len() == 3 && b[0] == 'M' && b[1] == 'I' && b[2] == 'T');
    }
    if b == "Apache-2.0"@ {
        assert(b.len() == 10 && b[0] == 'A' && b[1] == 'p' && b[2] == 'a' && b[3] == 'c');
    }
    if b == "BSD-2-Clause"@ {
        assert(b.len() == 12 && b[0] == 'B' && b[1] == 'S' && b[2] == 'D' && b[3] == '-');
    }
    if b == "BSD-3-Clause"@ {
        assert(b.len() == 12 && b[0] == 'B' && b[1] == 'S' && b[2] == 'D' && b[3] == '-');
    }
    if b == "ISC"@ {
        assert(b.len() == 3 && b[0] == 'I' && b[1] == 'S' && b[2] == 'C');
    }
}

/// The Unlicense and CC0 are public-domain dedications: bases `Unlicense`
/// and `CC0-1.0`.
pub proof fn lemma_public_domain_licenses(spdx_id: Seq<char>)
    requires
        license_base(spdx_id) == "Unlicense"@ || license_base(spdx_id) == "CC0-1.0"@,
    ensures
        classify_spec(spdx_id) == CopyleftTier::PublicDomain,
{
    reveal_strlit("AGPL-3.0");
    reveal_strlit("GPL-3.0");
    reveal_strlit("GPL-2.0");
    reveal_strlit("LGPL-2.1");
    reveal_strlit("LGPL-3.0");
    reveal_strlit("MPL-2.0");
    reveal_strlit("EUPL-1.2");
    reveal_strlit("BSL-1.1");
    reveal_strlit("SSPL-1.0");
    reveal_strlit("Elastic-2.0");
    reveal_strlit("MIT");
    reveal_strlit("Apache-2.0");
    reveal_strlit("BSD-2-Clause");
    reveal_strlit("BSD-3-Clause");
    reveal_strlit("ISC");
    reveal_strlit("Unlicense");
    reveal_strlit("CC0-1.0");
    let b = license_base(spdx_id);
    if b == "Unlicense"@ {
        assert(b.len() == 9 && b[0] == 'U' && b[1] == 'n' && b[2] == 'l' && b[3] == 'i');
    }
    if b == "CC0-1.0"@ {
        assert(b.len() == 7 && b[0] == 'C' && b[1] == 'C' && b[2] == '0' && b[3] == '-');
    }
}

/// An identifier whose base is none of the known ones is unknown.
pub proof fn lemma_unknown_licenses(spdx_id: Seq<char>)
    requires
        license_base(spdx_id) != "AGPL-3.0"@,
        license_base(spdx_id) != "GPL-3.0"@,
        license_base(spdx_id) != "GPL-2.0"@,
        license_base(spdx_id) != "LGPL-2.1"@,
        license_base(spdx_id) != "LGPL-3.0"@,
        license_base(spdx_id) != "MPL-2.0"@,
        license_base(spdx_id) != "EUPL-1.2"@,
        license_base(spdx_id) != "BSL-1.1"@,
        license_base(spdx_id) != "SSPL-1.0"@,
        license_base(spdx_id) != "Elastic-2.0"@,
        license_base(spdx_id) != "MIT"@,
        license_base(spdx_id) != "Apache-2.0"@,
        license_base(spdx_id) != "BSD-2-Clause"@,
        license_base(spdx_id) != "BSD-3-Clause"@,
        license_base(spdx_id) != "ISC"@,
        license_base(spdx_id) != "Unlicense"@,
        license_base(spdx_id) != "CC0-1.0"@,
    ensures
        classify_spec(spdx_id) == CopyleftTier::Unknown,
{
}

/// The risk score of each tier: strong copyleft 9, weak copyleft 4,
/// source-available 3, unknown 2, permissive and public domain 0.
pub proof fn lemma_risk_scores()
    ensures
        risk_of(CopyleftTier::StrongCopyleft) == 9,
        risk_of(CopyleftTier::WeakCopyleft) == 4,
        risk_of(CopyleftTier::SourceAvailableNonOsi) == 3,
        risk_of(CopyleftTier::Unknown) == 2,
        risk_of(CopyleftTier::Permissive) == 0,
        risk_of(CopyleftTier::PublicDomain) == 0,
{
}

} // verus!
