//! Validation of remote repository URLs before cloning.
use vstd::prelude::*;

use super::IngestionError;
use crate::text::{
    after_last, after_last_exec, ascii_lower_chars, ascii_lower_seq, chars_of, concat_chars,
    contains_seq, contains_str, has_prefix, prefix_until, prefix_until_exec, second_piece,
    second_piece_exec, split_exec, split_pieces, starts_with_str, string_of,
};

verus! {

/// The host of a (lower-cased) URL: the second piece of `url.split("://")`
/// (or the whole URL when it has no `://`), after its last `@`, up to the
/// first `/`, `:` or `?`; `None` when that is empty.
pub open spec fn url_host(url: Seq<char>) -> Option<Seq<char>> {
    let after_scheme = match second_piece(url, "://"@) {
        Some(p) => p,
        None => url,
    };
    let host = prefix_until(after_last(after_scheme, '@'), seq!['/', ':', '?']);
    if host.len() > 0 {
        Some(host)
    } else {
        None
    }
}

/// A decimal digit character.
pub open spec fn is_digit(c: char) -> bool {
    '0' <= c && c <= '9'
}

/// The value of a string of decimal digits.
pub open spec fn decimal_value(s: Seq<char>) -> int
    decreases s.len(),
{
    if s.len() == 0 {
        0
    } else {
        decimal_value(s.drop_last()) * 10 + (s.last() as int - '0' as int)
    }
}

/// One dotted-quad octet as `Ipv4Addr`'s parser accepts it: one to three
/// decimal digits, no leading zero unless it is `0` itself, at most 255.
pub open spec fn octet_value(s: Seq<char>) -> Option<u8> {
    if 1 <= s.len() <= 3 && (forall|i: int| 0 <= i < s.len() ==> is_digit(#[trigger] s[i])) && !(
    s.len() > 1 && s[0] == '0') && decimal_value(s) <= 255 {
        Some(decimal_value(s) as u8)
    } else {
        None
    }
}

/// The four octets of a dotted-quad IPv4 address, if `s` is one in the
/// form `Ipv4Addr::from_str` accepts.
pub open spec fn parse_ipv4(s: Seq<char>) -> Option<(u8, u8, u8, u8)> {
    let p = split_pieces(s, '.');
    if p.len() == 4 && octet_value(p[0]) is Some && octet_value(p[1]) is Some && octet_value(
        p[2],
    ) is Some && octet_value(p[3]) is Some {
        Some(
            (
                octet_value(p[0])->0,
                octet_value(p[1])->0,
                octet_value(p[2])->0,
                octet_value(p[3])->0,
            ),
        )
    } else {
        None
    }
}

/// Loopback (127/8), private (10/8, 172.16/12, 192.168/16), link-local
/// (169.254/16) or unspecified (0.0.0.0) addresses.
pub open spec fn is_internal_ipv4(ip: (u8, u8, u8, u8)) -> bool {
    let (a, b, c, d) = ip;
    a == 127 || a == 10 || (a == 172 && 16 <= b && b <= 31) || (a == 192 && b == 168) || (a
        == 169 && b == 254) || (a == 0 && b == 0 && c == 0 && d == 0)
}

/// Why a URL is refused, if it is: `file://` URLs, URLs that mention
/// `localhost`, and hosts that are internal IPv4 addresses.
pub open spec fn url_rejection(url: Seq<char>) -> Option<Seq<char>> {
    let lowered = ascii_lower_seq(url);
    if has_prefix(lowered, "file://"@) {
        Some("file:// URLs are not allowed"@)
    } else if contains_seq(lowered, "localhost"@) {
        Some("localhost URLs are not allowed"@)
    } else {
        match url_host(lowered) {
            Some(host) => match parse_ipv4(host) {
                Some(ip) => if is_internal_ipv4(ip) {
                    Some("private/loopback address not allowed: "@ + host)
                } else {
                    None
                },
                None => None,
            },
            None => None,
        }
    }
}

/// The value of one octet, if `s` is one (see [`octet_value`]).
fn parse_octet(s: &Vec<char>) -> (r: Option<u8>)
    ensures
        r == octet_value(s@),
{
    if s.len() < 1 || s.len() > 3 {
        return None;
    }
    if s.len() > 1 && s[0] == '0' {
        return None;
    }
    let mut v: u32 = 0;
    let mut i: usize = 0;
    while i < s.len()
        invariant
            1 <= s.len() <= 3,
            i <= s.len(),
            forall|k: int| 0 <= k < i ==> is_digit(#[trigger] s@[k]),
            v == decimal_value(s@.subrange(0, i as int)),
            i == 0 ==> v == 0,
            i == 1 ==> v < 10,
            i == 2 ==> v < 100,
            v < 1000,
        decreases s.len() - i,
    {
        let c = s[i];
        if !('0' <= c && c <= '9') {
            return None;
        }
        assert(s@.subrange(0, i + 1).drop_last() =~= s@.subrange(0, i as int));
        v = v * 10 + ((c as u32) - ('0' as u32));
        i = i + 1;
    }
    assert(s@.subrange(0, s.len() as int) =~= s@);
    if v > 255 {
        return None;
    }
    Some(v as u8)
}

/// The four octets of `host`, if it is a dotted-quad IPv4 address.
fn parse_ipv4_exec(host: &Vec<char>) -> (r: Option<(u8, u8, u8, u8)>)
    ensures
        r == parse_ipv4(host@),
{
    let p = split_exec(host, '.');
    if p.len() != 4 {
        return None;
    }
    let a = parse_octet(&p[0]);
    let b = parse_octet(&p[1]);
    let c = parse_octet(&p[2]);
    let d = parse_octet(&p[3]);
    assert(p@[0]@ == split_pieces(host@, '.')[0]);
    assert(p@[1]@ == split_pieces(host@, '.')[1]);
    assert(p@[2]@ == split_pieces(host@, '.')[2]);
    assert(p@[3]@ == split_pieces(host@, '.')[3]);
    match (a, b, c, d) {
        (Some(a), Some(b), Some(c), Some(d)) => Some((a, b, c, d)),
        _ => None,
    }
}

/// The host of a URL, if it has a non-empty one (see [`url_host`]).
fn extract_host(url: &Vec<char>) -> (r: Option<Vec<char>>)
    ensures
        match r {
            None => url_host(url@) is None,
            Some(h) => url_host(url@) == Some(h@),
        },
{
    let marker = chars_of("://");
    let after_scheme = match second_piece_exec(url, &marker) {
        Some(p) => p,
        None => crate::text::slice_chars(url, 0, url.len()),
    };
    assert(url@.subrange(0, url@.len() as int) =~= url@);
    let after_userinfo = after_last_exec(&after_scheme, '@');
    let stop = chars_of("/:?");
    proof {
        reveal_strlit("/:?");
        assert(stop@ =~= seq!['/', ':', '?']);
    }
    let host = prefix_until_exec(&after_userinfo, &stop);
    if host.len() == 0 {
        None
    } else {
        Some(host)
    }
}

/// Validate a remote repository URL before cloning.
///
/// Rejects local and private-network targets (`file://`, `localhost`,
/// loopback, private, link-local and unspecified IPv4 hosts) so that a
/// submitted URL cannot be used to reach internal services.
pub fn validate_repo_url(url: &str) -> (r: Result<(), IngestionError>)
    ensures
        match url_rejection(url@) {
            None => r is Ok,
            Some(msg) => r matches Err(IngestionError::InvalidUrl(m)) && m@ == msg,
        },
{
    let u = chars_of(url);
    let lowered = ascii_lower_chars(&u);
    if starts_with_str(&lowered, "file://") {
        let m = chars_of("file:// URLs are not allowed");
        return Err(IngestionError::InvalidUrl(string_of(&m)));
    }
    if contains_str(&lowered, "localhost") {
        let m = chars_of("localhost URLs are not allowed");
        return Err(IngestionError::InvalidUrl(string_of(&m)));
    }
    match extract_host(&lowered) {
        Some(host) => {
            match parse_ipv4_exec(&host) {
                Some(ip) => {
                    let (a, b, c, d) = ip;
                    if a == 127 || a == 10 || (a == 172 && 16 <= b && b <= 31) || (a == 192 && b
                        == 168) || (a == 169 && b == 254) || (a == 0 && b == 0 && c == 0 && d
                        == 0) {
                        let prefix = chars_of("private/loopback address not allowed: ");
                        let m = concat_chars(&prefix, &host);
                        return Err(IngestionError::InvalidUrl(string_of(&m)));
                    }
                },
                None => {},
            }
        },
        None => {},
    }
    Ok(())
}

/// Git operations through the system `git` binary; the processes themselves
/// run in the application layer.
pub struct SubprocessGit;

impl SubprocessGit {
    /// The arguments of a shallow, blobless clone of `url` into `dest`.
    pub fn clone_args(&self, url: &str, dest: &str) -> (r: Vec<String>)
        ensures
            crate::orchestrator::claude::invocation::string_views(r@) == seq![
                "clone"@,
                "--depth=1"@,
                "--filter=blob:none"@,
                url@,
                dest@,
            ],
    {
        let r = vec![
            "clone".to_owned(),
            "--depth=1".to_owned(),
            "--filter=blob:none".to_owned(),
            url.to_owned(),
            dest.to_owned(),
        ];
        assert(crate::orchestrator::claude::invocation::string_views(r@) =~= seq![
            "clone"@,
            "--depth=1"@,
            "--filter=blob:none"@,
            url@,
            dest@,
        ]);
        r
    }

    /// The commit of `HEAD` from the output of `git rev-parse HEAD`: the
    /// output without surrounding whitespace.
    pub fn head_commit(&self, stdout: &str) -> (r: String)
        ensures
            r@ == crate::text::trim_ws(stdout@),
    {
        string_of(&crate::text::trim_chars(&chars_of(stdout)))
    }
}

} // verus!
