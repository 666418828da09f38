//! Events of the `--output-format stream-json` event stream.
use vstd::prelude::*;

use crate::text::{chars_of, trim_chars, trim_ws};

verus! {

/// Token-usage accounting reported with the terminal result event.
#[derive(Debug, Clone, Copy, PartialEq, Eq)]
pub struct UsageStats {
    pub input_tokens: u64,
    pub output_tokens: u64,
    pub cache_read_input_tokens: u64,
}

impl Default for UsageStats {
    /// No tokens used.
    fn default() -> (r: UsageStats)
        ensures
            r.input_tokens == 0 && r.output_tokens == 0 && r.cache_read_input_tokens == 0,
    {
        UsageStats { input_tokens: 0, output_tokens: 0, cache_read_input_tokens: 0 }
    }
}

/// One newline-delimited event of the stream.
#[derive(Debug, Clone)]
pub enum ClaudeEvent {
    /// Session start, carrying the session id.
    Init { session_id: String },
    /// Terminal result: the final text and the usage.
    Result { content: String, usage: UsageStats },
    /// A terminal error reported by the session.
    Error { message: String, code: String },
    /// Any other event (assistant and user messages, ...), ignored.
    Other,
}

/// Errors produced while parsing the event stream.
#[derive(Debug, Clone)]
pub enum StreamError {
    DeserializeFailed(String),
    Truncated,
}

/// The display text of a stream error.
pub open spec fn stream_error_text(e: StreamError) -> Seq<char> {
    match e {
        StreamError::DeserializeFailed(m) => "deserialize failed: "@ + m@,
        StreamError::Truncated => "stream ended unexpectedly"@,
    }
}

/// Stateless selector of the lines of the stream that carry events.
pub struct StreamParser;

impl StreamParser {
    /// A line carries an event unless it is blank.
    pub fn is_event_line(line: &str) -> (r: bool)
        ensures
            r == (trim_ws(line@).len() > 0),
    {
        let c = chars_of(line);
        let t = trim_chars(&c);
        t.len() > 0
    }
}


/// The pieces of `s` between its `\n` bytes, as `[u8]::split` gives them:
/// one more piece than there are newlines, empty pieces included.
pub open spec fn split_at_newlines(s: Seq<u8>) -> Seq<Seq<u8>>
    decreases s.len(),
{
    if s.len() == 0 {
        seq![Seq::<u8>::empty()]
    } else {
        let p = split_at_newlines(s.drop_last());
        if s.last() == 10u8 {
            p.push(Seq::<u8>::empty())
        } else {
            p.update(p.len() - 1, p.last().push(s.last()))
        }
    }
}

/// A line without its trailing `\r`, if it has one.
pub open spec fn without_cr(line: Seq<u8>) -> Seq<u8> {
    if line.len() > 0 && line.last() == 13u8 {
        line.drop_last()
    } else {
        line
    }
}

/// The lines of collected output: its pieces between newlines, each
/// without a trailing carriage return.
pub open spec fn output_lines(s: Seq<u8>) -> Seq<Seq<u8>> {
    split_at_newlines(s).map_values(|l: Seq<u8>| without_cr(l))
}

/// The views of a list of byte vectors.
pub open spec fn byte_views(v: Seq<Vec<u8>>) -> Seq<Seq<u8>> {
    v.map_values(|b: Vec<u8>| b@)
}

proof fn lemma_split_nonempty(s: Seq<u8>)
    ensures
        split_at_newlines(s).len() >= 1,
    decreases s.len(),
{
    if s.len() > 0 {
        lemma_split_nonempty(s.drop_last());
    }
}

fn strip_cr(line: Vec<u8>) -> (r: Vec<u8>)
    ensures
        r@ == without_cr(line@),
{
    let mut line = line;
    let n = line.len();
    if n > 0 && line[n - 1] == 13u8 {
        line.pop();
    }
    line
}

/// Split collected output into lines at each `\n`, dropping the `\r` that
/// ends a line written with `\r\n`. Output that ends in a newline has a
/// last, empty line.
pub fn output_lines_of(stdout: &[u8]) -> (r: Vec<Vec<u8>>)
    ensures
        byte_views(r@) == output_lines(stdout@),
{
    let mut done: Vec<Vec<u8>> = Vec::new();
    let mut cur: Vec<u8> = Vec::new();
    let mut i: usize = 0;
    assert(stdout@.subrange(0, 0) =~= Seq::<u8>::empty());
    while i < stdout.len()
        invariant
            i <= stdout@.len(),
            split_at_newlines(stdout@.subrange(0, i as int)).len() >= 1,
            byte_views(done@) == split_at_newlines(stdout@.subrange(0, i as int)).drop_last().map_values(
                |l: Seq<u8>| without_cr(l),
            ),
            cur@ == split_at_newlines(stdout@.subrange(0, i as int)).last(),
        decreases stdout.len() - i,
    {
        let ghost pre = stdout@.subrange(0, i as int);
        let ghost nxt = stdout@.subrange(0, i + 1);
        let ghost sp = split_at_newlines(pre);
        assert(nxt.drop_last() =~= pre);
        let b = stdout[i];
        assert(nxt.last() == b);
        if b == 10u8 {
            let ghost old_done = done@;
            let line = strip_cr(cur);
            done.push(line);
            cur = Vec::new();
            proof {
                let sn = split_at_newlines(nxt);
                assert(sn == sp.push(Seq::<u8>::empty()));
                assert(sn.drop_last() =~= sp);
                assert(byte_views(done@) =~= byte_views(old_done).push(without_cr(sp.last())));
                assert(sp.map_values(|l: Seq<u8>| without_cr(l)) =~= sp.drop_last().map_values(
                    |l: Seq<u8>| without_cr(l),
                ).push(without_cr(sp.last())));
                assert(cur@ =~= sn.last());
            }
        } else {
            cur.push(b);
            proof {
                let sn = split_at_newlines(nxt);
                assert(sn == sp.update(sp.len() - 1, sp.last().push(b)));
                assert(sn.drop_last() =~= sp.drop_last());
                assert(cur@ =~= sn.last());
            }
        }
        i = i + 1;
    }
    assert(stdout@.subrange(0, stdout@.len() as int) =~= stdout@);
    let ghost sp = split_at_newlines(stdout@);
    let ghost old_done = done@;
    let line = strip_cr(cur);
    done.push(line);
    proof {
        assert(byte_views(done@) =~= byte_views(old_done).push(without_cr(sp.last())));
        assert(sp.map_values(|l: Seq<u8>| without_cr(l)) =~= sp.drop_last().map_values(
            |l: Seq<u8>| without_cr(l),
        ).push(without_cr(sp.last())));
    }
    done
}

} // verus!
