//! SPDX expression validation (by the `spdx` crate) and extraction of the
//! base license identifiers of an expression.
use vstd::prelude::*;

use super::LicensingError;
use crate::text::{
    ascii_upper_chars, ascii_upper_seq, chars_of, is_whitespace, is_ws, seq_eq, string_of,
    trim_chars, trim_ws,
};

verus! {

/// What `spdx::Expression::parse` (strict mode) makes of an expression:
/// `Ok(())` when it parses, else `Err` with the error's display text.
pub uninterp spec fn spdx_parse_result(expr: Seq<char>) -> Result<(), Seq<char>>;

/// Calls `spdx::Expression::parse`; whether it succeeds, and the display text
/// of its error, are the name `spdx_parse_result` of the input. The SPDX
/// grammar and license list that decide it are not restated here. One fact
/// of them is: the lexer skips the whitespace before every token, the only
/// whitespace check (a separated `+`) fails on whitespace before a token,
/// and a successful parse depends on the tokens alone, so an expression
/// that parses still parses with its leading and trailing whitespace
/// removed.
#[verifier::external_body]
fn spdx_parse(expr: &str) -> (r: Result<(), String>)
    ensures
        match r {
            Ok(()) => spdx_parse_result(expr@) == Ok::<(), Seq<char>>(()) && spdx_parse_result(
                trim_ws(expr@),
            ) == Ok::<(), Seq<char>>(()),
            Err(m) => spdx_parse_result(expr@) == Err::<(), Seq<char>>(m@),
        },
{
    match ::spdx::Expression::parse(expr) {
        Ok(_) => Ok(()),
        Err(e) => Err(e.to_string()),
    }
}

/// Separators between the tokens of an expression: whitespace and parentheses.
pub open spec fn is_token_sep(c: char) -> bool {
    is_ws(c) || c == '(' || c == ')'
}

/// The tokens of `s`: its maximal non-empty runs of non-separator characters,
/// in order.
pub open spec fn expr_tokens(s: Seq<char>) -> Seq<Seq<char>>
    decreases s.len(),
{
    if s.len() == 0 {
        Seq::empty()
    } else {
        let t = expr_tokens(s.drop_last());
        if is_token_sep(s.last()) {
            t
        } else if s.len() >= 2 && !is_token_sep(s[s.len() - 2]) {
            t.update(t.len() - 1, t.last().push(s.last()))
        } else {
            t.push(seq![s.last()])
        }
    }
}

/// The identifiers among `toks`: operators `AND`/`OR`/`WITH` (in any ASCII
/// case) are dropped, and so is the exception token after each `WITH`.
pub open spec fn select_identifiers(toks: Seq<Seq<char>>, after_with: bool) -> Seq<Seq<char>>
    decreases toks.len(),
{
    if toks.len() == 0 {
        Seq::empty()
    } else {
        let t = toks[0];
        let up = ascii_upper_seq(t);
        let rest = toks.drop_first();
        if up == "WITH"@ {
            select_identifiers(rest, true)
        } else if up == "AND"@ || up == "OR"@ {
            select_identifiers(rest, after_with)
        } else if after_with {
            select_identifiers(rest, false)
        } else {
            seq![t] + select_identifiers(rest, false)
        }
    }
}

/// The base license identifiers of an expression.
pub open spec fn base_identifiers(expr: Seq<char>) -> Seq<Seq<char>> {
    select_identifiers(expr_tokens(expr), false)
}

/// A token that is not an operator: its ASCII upper-casing is none of
/// `WITH`, `AND`, `OR`.
pub open spec fn is_plain_token(t: Seq<char>) -> bool {
    ascii_upper_seq(t) != "WITH"@ && ascii_upper_seq(t) != "AND"@ && ascii_upper_seq(t) != "OR"@
}

/// A non-operator token outside a `WITH` clause is an identifier: it is
/// kept, in front of the identifiers of the tokens after it.
pub proof fn lemma_plain_token_kept(a: Seq<char>, rest: Seq<Seq<char>>)
    requires
        is_plain_token(a),
    ensures
        select_identifiers(seq![a] + rest, false) == seq![a] + select_identifiers(rest, false),
{
    assert((seq![a] + rest).drop_first() =~= rest);
}

/// `AND` and `OR` (in any ASCII case) are dropped and change nothing else.
pub proof fn lemma_and_or_dropped(o: Seq<char>, rest: Seq<Seq<char>>, after_with: bool)
    requires
        ascii_upper_seq(o) == "AND"@ || ascii_upper_seq(o) == "OR"@,
    ensures
        select_identifiers(seq![o] + rest, after_with) == select_identifiers(rest, after_with),
{
    reveal_strlit("AND");
    reveal_strlit("OR");
    reveal_strlit("WITH");
    let u = ascii_upper_seq(o);
    if u == "AND"@ {
        assert(u.len() == 3);
    } else {
        assert(u.len() == 2);
    }
    assert((seq![o] + rest).drop_first() =~= rest);
}

/// `WITH` (in any ASCII case) drops itself and exactly the one token after
/// it, its exception; the tokens after that are read as outside any `WITH`.
pub proof fn lemma_with_drops_one_exception(
    w: Seq<char>,
    e: Seq<char>,
    rest: Seq<Seq<char>>,
    after_with: bool,
)
    requires
        ascii_upper_seq(w) == "WITH"@,
        is_plain_token(e),
    ensures
        select_identifiers(seq![w, e] + rest, after_with) == select_identifiers(rest, false),
{
    reveal_strlit("WITH");
    let s = seq![w, e] + rest;
    let s2 = seq![e] + rest;
    assert(s[0] == w);
    assert(s.drop_first() =~= s2);
    assert(select_identifiers(s, after_with) == select_identifiers(s2, true));
    assert(s2[0] == e);
    assert(s2.drop_first() =~= rest);
    assert(select_identifiers(s2, true) == select_identifiers(rest, false));
}

/// Whitespace and both parentheses separate tokens; the characters of
/// identifiers and operators (letters, digits, `-`, `.`, `+`, `:`) do not.
pub proof fn lemma_token_separators()
    ensures
        is_token_sep(' ') && is_token_sep('\t') && is_token_sep('\n') && is_token_sep('\r'),
        is_token_sep('(') && is_token_sep(')'),
        !is_token_sep('-') && !is_token_sep('.') && !is_token_sep('+') && !is_token_sep(':'),
        forall|c: char| ('a' <= c <= 'z' || 'A' <= c <= 'Z' || '0' <= c <= '9') ==> !is_token_sep(c),
{
}

/// Operators are recognised in any ASCII case: `with`, `and` and `or`
/// upper-case to `WITH`, `AND` and `OR`.
pub proof fn lemma_lower_case_operators()
    ensures
        ascii_upper_seq("with"@) == "WITH"@,
        ascii_upper_seq("and"@) == "AND"@,
        ascii_upper_seq("or"@) == "OR"@,
{
    reveal_strlit("with");
    reveal_strlit("and");
    reveal_strlit("or");
    reveal_strlit("WITH");
    reveal_strlit("AND");
    reveal_strlit("OR");
    assert(ascii_upper_seq("with"@) =~= "WITH"@);
    assert(ascii_upper_seq("and"@) =~= "AND"@);
    assert(ascii_upper_seq("or"@) =~= "OR"@);
}

/// No character of `t` separates tokens.
pub open spec fn has_no_separator(t: Seq<char>) -> bool {
    forall|i: int| 0 <= i < t.len() ==> !is_token_sep(#[trigger] t[i])
}

proof fn lemma_single_token(t: Seq<char>)
    requires
        t.len() > 0,
        has_no_separator(t),
    ensures
        expr_tokens(t) == seq![t],
    decreases t.len(),
{
    let p = t.drop_last();
    assert(!is_token_sep(t[t.len() - 1]));
    if t.len() == 1 {
        assert(expr_tokens(p) =~= Seq::<Seq<char>>::empty());
        assert(seq![t.last()] =~= t);
    } else {
        assert(has_no_separator(p)) by {
            assert forall|i: int| 0 <= i < p.len() implies !is_token_sep(#[trigger] p[i]) by {
                assert(p[i] == t[i]);
            }
        }
        lemma_single_token(p);
        assert(!is_token_sep(t[t.len() - 2]));
        assert(p.push(t.last()) =~= t);
    }
}

proof fn lemma_tokens_nonempty(s: Seq<char>)
    requires
        s.len() > 0,
        !is_token_sep(s.last()),
    ensures
        expr_tokens(s).len() > 0,
    decreases s.len(),
{
    if s.len() >= 2 && !is_token_sep(s[s.len() - 2]) {
        let p = s.drop_last();
        assert(p.last() == s[s.len() - 2]);
        lemma_tokens_nonempty(p);
    }
}

/// A separator splits the tokens: those of `x`, then those of `y`.
pub proof fn lemma_tokens_split(x: Seq<char>, c: char, y: Seq<char>)
    requires
        is_token_sep(c),
    ensures
        expr_tokens(x + seq![c] + y) == expr_tokens(x) + expr_tokens(y),
    decreases y.len(),
{
    let s = x + seq![c] + y;
    if y.len() == 0 {
        assert(s.drop_last() =~= x);
        assert(s.last() == c);
        assert(expr_tokens(x) + expr_tokens(y) =~= expr_tokens(x));
    } else {
        let y2 = y.drop_last();
        let d = y.last();
        lemma_tokens_split(x, c, y2);
        assert(s.drop_last() =~= x + seq![c] + y2);
        assert(s.last() == d);
        let tx = expr_tokens(x);
        let ty2 = expr_tokens(y2);
        if is_token_sep(d) {
        } else if y2.len() > 0 && !is_token_sep(y2.last()) {
            assert(s[s.len() - 2] == y2.last());
            assert(y[y.len() - 2] == y2.last());
            lemma_tokens_nonempty(y2);
            let t = tx + ty2;
            assert(t.update(t.len() - 1, t.last().push(d)) =~= tx + ty2.update(
                ty2.len() - 1,
                ty2.last().push(d),
            ));
        } else {
            if y2.len() > 0 {
                assert(s[s.len() - 2] == y2.last());
                assert(y[y.len() - 2] == y2.last());
            } else {
                assert(s[s.len() - 2] == c);
                assert(expr_tokens(y2) =~= Seq::<Seq<char>>::empty());
            }
            assert((tx + ty2).push(seq![d]) =~= tx + ty2.push(seq![d]));
        }
    }
}

/// In `a WITH e OR b`, with `a`, `e` and `b` single non-operator tokens,
/// the base identifiers are `a` and `b`: the `WITH` drops only `e`, and `b`
/// after it is kept.
pub proof fn lemma_with_then_or_keeps_both_sides(a: Seq<char>, e: Seq<char>, b: Seq<char>)
    requires
        a.len() > 0 && e.len() > 0 && b.len() > 0,
        has_no_separator(a) && has_no_separator(e) && has_no_separator(b),
        is_plain_token(a) && is_plain_token(e) && is_plain_token(b),
    ensures
        base_identifiers(a + " WITH "@ + e + " OR "@ + b) == seq![a, b],
{
    reveal_strlit(" WITH ");
    reveal_strlit(" OR ");
    reveal_strlit("WITH");
    reveal_strlit("OR");
    let sp = ' ';
    let w = "WITH"@;
    let o = "OR"@;
    let r3 = o + seq![sp] + b;
    let r2 = e + seq![sp] + r3;
    let r1 = w + seq![sp] + r2;
    let whole = a + seq![sp] + r1;
    assert(a + " WITH "@ + e + " OR "@ + b =~= whole);
    assert(is_token_sep(sp));
    lemma_tokens_split(a, sp, r1);
    lemma_tokens_split(w, sp, r2);
    lemma_tokens_split(e, sp, r3);
    lemma_tokens_split(o, sp, b);
    assert(has_no_separator(w)) by {
        assert forall|i: int| 0 <= i < w.len() implies !is_token_sep(#[trigger] w[i]) by {
            assert(w[i] == 'W' || w[i] == 'I' || w[i] == 'T' || w[i] == 'H');
        }
    }
    assert(has_no_separator(o)) by {
        assert forall|i: int| 0 <= i < o.len() implies !is_token_sep(#[trigger] o[i]) by {
            assert(o[i] == 'O' || o[i] == 'R');
        }
    }
    lemma_single_token(a);
    lemma_single_token(w);
    lemma_single_token(e);
    lemma_single_token(o);
    lemma_single_token(b);
    let toks = seq![a, w, e, o, b];
    assert(expr_tokens(whole) =~= toks);
    assert(ascii_upper_seq(w) =~= w);
    assert(ascii_upper_seq(o) =~= o);
    lemma_plain_token_kept(a, seq![w, e, o, b]);
    assert(toks =~= seq![a] + seq![w, e, o, b]);
    lemma_with_drops_one_exception(w, e, seq![o, b], false);
    assert(seq![w, e, o, b] =~= seq![w, e] + seq![o, b]);
    lemma_and_or_dropped(o, seq![b], false);
    assert(seq![o, b] =~= seq![o] + seq![b]);
    lemma_plain_token_kept(b, Seq::empty());
    assert(seq![b] =~= seq![b] + Seq::<Seq<char>>::empty());
    assert(select_identifiers(Seq::<Seq<char>>::empty(), false) =~= Seq::<Seq<char>>::empty());
    assert(seq![a] + (seq![b] + Seq::<Seq<char>>::empty()) =~= seq![a, b]);
}

/// Parse and validate an SPDX expression, returning its trimmed text.
///
/// Handles compound expressions (`MIT OR Apache-2.0`) and exceptions
/// (`GPL-2.0-only WITH Classpath-exception-2.0`). The result is itself
/// normalized: it parses and is its own trimmed text, so normalizing it
/// again gives it back.
pub fn parse_and_normalize(expr_str: &str) -> (r: Result<String, LicensingError>)
    ensures
        match r {
            Ok(s) => {
                &&& spdx_parse_result(expr_str@) is Ok
                &&& s@ == trim_ws(expr_str@)
                &&& spdx_parse_result(s@) is Ok
                &&& trim_ws(s@) == s@
            },
            Err(e) => match spdx_parse_result(expr_str@) {
                Ok(()) => false,
                Err(m) => e matches LicensingError::SpdxParseFailed(msg) && msg@ == m,
            },
        },
{
    match spdx_parse(expr_str) {
        Ok(()) => {
            let s = chars_of(expr_str);
            let t = trim_chars(&s);
            proof {
                crate::text::lemma_trim_ws_idempotent(expr_str@);
            }
            Ok(string_of(&t))
        },
        Err(m) => Err(LicensingError::SpdxParseFailed(m)),
    }
}

/// The tokens of `s`, as computed so far: the finished ones and the one
/// being read.
spec fn tokens_with_current(done: Seq<Seq<char>>, cur: Seq<char>) -> Seq<Seq<char>> {
    if cur.len() > 0 {
        done.push(cur)
    } else {
        done
    }
}

/// The tokens of `s` (see [`expr_tokens`]).
fn tokenize(s: &Vec<char>) -> (r: Vec<Vec<char>>)
    ensures
        r@.len() == expr_tokens(s@).len(),
        forall|i: int| 0 <= i < r@.len() ==> #[trigger] r@[i]@ == expr_tokens(s@)[i],
{
    let mut done: Vec<Vec<char>> = Vec::new();
    let ghost mut g: Seq<Seq<char>> = Seq::empty();
    let mut cur: Vec<char> = Vec::new();
    let mut i: usize = 0;
    while i < s.len()
        invariant
            i <= s.len(),
            done@.len() == g.len(),
            forall|k: int| 0 <= k < g.len() ==> #[trigger] done@[k]@ == g[k],
            tokens_with_current(g, cur@) == expr_tokens(s@.subrange(0, i as int)),
            cur@.len() > 0 ==> i > 0 && !is_token_sep(s@[i - 1]),
            cur@.len() == 0 ==> i == 0 || is_token_sep(s@[i - 1]),
            forall|k: int| 0 <= k < g.len() ==> #[trigger] g[k].len() > 0,
        decreases s.len() - i,
    {
        let c = s[i];
        let ghost pre = s@.subrange(0, i as int);
        let ghost nxt = s@.subrange(0, i + 1);
        assert(nxt.drop_last() =~= pre);
        assert(nxt.last() == c);
        if is_whitespace(c) || c == '(' || c == ')' {
            assert(expr_tokens(nxt) == expr_tokens(pre));
            if cur.len() > 0 {
                proof {
                    g = g.push(cur@);
                }
                done.push(cur);
                cur = Vec::new();
            }
        } else {
            let ghost oldcur = cur@;
            let ghost t = expr_tokens(pre);
            proof {
                if i >= 1 {
                    assert(nxt[nxt.len() - 2] == s@[i - 1]);
                }
            }
            cur.push(c);
            proof {
                if i >= 1 && !is_token_sep(s@[i - 1]) {
                    assert(oldcur.len() > 0);
                    assert(t == g.push(oldcur));
                    assert(t.update(t.len() - 1, t.last().push(c)) =~= g.push(cur@));
                } else {
                    assert(oldcur.len() == 0);
                    assert(seq![c] =~= cur@);
                }
            }
        }
        i = i + 1;
    }
    assert(s@.subrange(0, s.len() as int) =~= s@);
    if cur.len() > 0 {
        proof {
            g = g.push(cur@);
        }
        done.push(cur);
    }
    done
}

/// Extract the base license identifiers from an SPDX expression, dropping the
/// `AND`/`OR`/`WITH` operators and any `WITH` exception, e.g.
/// `GPL-2.0-only WITH Classpath-exception-2.0` gives `["GPL-2.0-only"]`.
/// The expression must first parse.
pub fn extract_base_identifiers(expr_str: &str) -> (r: Result<Vec<String>, LicensingError>)
    ensures
        match r {
            Ok(ids) => spdx_parse_result(expr_str@) is Ok && ids@.len() == base_identifiers(
                expr_str@,
            ).len() && forall|i: int|
                0 <= i < ids@.len() ==> #[trigger] ids@[i]@ == base_identifiers(expr_str@)[i],
            Err(e) => match spdx_parse_result(expr_str@) {
                Ok(()) => false,
                Err(m) => e matches LicensingError::SpdxParseFailed(msg) && msg@ == m,
            },
        },
{
    match spdx_parse(expr_str) {
        Ok(()) => {},
        Err(m) => {
            return Err(LicensingError::SpdxParseFailed(m));
        },
    }
    let s = chars_of(expr_str);
    let toks = tokenize(&s);
    let ghost all = expr_tokens(s@);
    let mut result: Vec<String> = Vec::new();
    let ghost mut g: Seq<Seq<char>> = Seq::empty();
    let mut after_with = false;
    let mut i: usize = 0;
    assert(all.subrange(0, all.len() as int) =~= all);
    assert(g + select_identifiers(all, false) =~= select_identifiers(all, false));
    while i < toks.len()
        invariant
            i <= toks@.len(),
            toks@.len() == all.len(),
            forall|k: int| 0 <= k < toks@.len() ==> #[trigger] toks@[k]@ == all[k],
            result@.len() == g.len(),
            forall|k: int| 0 <= k < g.len() ==> #[trigger] result@[k]@ == g[k],
            g + select_identifiers(all.subrange(i as int, all.len() as int), after_with)
                == select_identifiers(all, false),
        decreases toks@.len() - i,
    {
        let ghost rest = all.subrange(i as int, all.len() as int);
        assert(rest.drop_first() =~= all.subrange(i + 1, all.len() as int));
        assert(rest[0] == toks@[i as int]@);
        let up = ascii_upper_chars(&toks[i]);
        if eq_lit_chars(&up, "WITH") {
            after_with = true;
        } else if eq_lit_chars(&up, "AND") || eq_lit_chars(&up, "OR") {
        } else if after_with {
            after_with = false;
        } else {
            proof {
                assert(g + (seq![rest[0]] + select_identifiers(rest.drop_first(), false)) =~= g.push(
                    rest[0],
                ) + select_identifiers(rest.drop_first(), false));
                g = g.push(rest[0]);
            }
            result.push(string_of(&toks[i]));
        }
        i = i + 1;
    }
    assert(all.subrange(toks@.len() as int, all.len() as int) =~= Seq::<Seq<char>>::empty());
    assert(g =~= select_identifiers(all, false));
    Ok(result)
}

/// Whether the characters `v` spell the string `lit`.
fn eq_lit_chars(v: &Vec<char>, lit: &str) -> (r: bool)
    ensures
        r == (v@ == lit@),
{
    let l = chars_of(lit);
    seq_eq(v, &l)
}

} // verus!
