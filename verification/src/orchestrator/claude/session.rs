//! The result of a completed session, folded from its event stream.
use vstd::prelude::*;

use super::stream::{stream_error_text, ClaudeEvent, StreamError, UsageStats};
use crate::orchestrator::OrchestratorError;
use crate::text::{chars_of, concat_chars, string_of};

verus! {

/// The outcome of a completed session.
#[derive(Debug, Clone)]
pub struct SessionResult {
    pub session_id: String,
    pub output: String,
    pub usage: UsageStats,
}

/// The abstract outcome of folding events: the failure message, or the
/// session id, output text and usage.
pub enum SessionOutcome {
    Failed(Seq<char>),
    Done(Seq<char>, Seq<char>, UsageStats),
}

/// Folds the events in order: an init event sets the session id, a result
/// event sets the output and usage, and the first error event or
/// unparseable line ends the fold with a failure.
pub open spec fn fold_events(
    events: Seq<Result<ClaudeEvent, StreamError>>,
    sid: Seq<char>,
    out: Seq<char>,
    usage: UsageStats,
) -> SessionOutcome
    decreases events.len(),
{
    if events.len() == 0 {
        SessionOutcome::Done(sid, out, usage)
    } else {
        let rest = events.drop_first();
        match events[0] {
            Ok(ClaudeEvent::Init { session_id }) => fold_events(rest, session_id@, out, usage),
            Ok(ClaudeEvent::Result { content, usage: u }) => fold_events(rest, sid, content@, u),
            Ok(ClaudeEvent::Error { message, code }) => SessionOutcome::Failed(
                "session error "@ + code@ + ": "@ + message@,
            ),
            Ok(ClaudeEvent::Other) => fold_events(rest, sid, out, usage),
            Err(e) => SessionOutcome::Failed("stream parse error: "@ + stream_error_text(e)),
        }
    }
}

/// The outcome of a whole event stream.
pub open spec fn session_outcome(events: Seq<Result<ClaudeEvent, StreamError>>) -> SessionOutcome {
    fold_events(events, Seq::empty(), Seq::empty(), UsageStats {
        input_tokens: 0,
        output_tokens: 0,
        cache_read_input_tokens: 0,
    })
}

/// A failing event anywhere in the stream (an error event or a line that
/// does not parse) makes the whole session fail, whatever came before it.
pub proof fn lemma_failure_is_reported(
    events: Seq<Result<ClaudeEvent, StreamError>>,
    k: int,
    sid: Seq<char>,
    out: Seq<char>,
    usage: UsageStats,
)
    requires
        0 <= k < events.len(),
        events[k] is Err || events[k] matches Ok(ClaudeEvent::Error { .. }),
    ensures
        fold_events(events, sid, out, usage) is Failed,
    decreases events.len(),
{
    if k > 0 {
        let rest = events.drop_first();
        assert(rest[k - 1] == events[k]);
        match events[0] {
            Ok(ClaudeEvent::Init { session_id }) => {
                lemma_failure_is_reported(rest, k - 1, session_id@, out, usage);
            },
            Ok(ClaudeEvent::Result { content, usage: u }) => {
                lemma_failure_is_reported(rest, k - 1, sid, content@, u);
            },
            Ok(ClaudeEvent::Other) => {
                lemma_failure_is_reported(rest, k - 1, sid, out, usage);
            },
            _ => {},
        }
    }
}

fn lit(s: &str) -> (r: Vec<char>)
    ensures
        r@ == s@,
{
    chars_of(s)
}

/// The display text of a stream error.
fn stream_error_message(e: &StreamError) -> (r: Vec<char>)
    ensures
        r@ == stream_error_text(*e),
{
    match e {
        StreamError::DeserializeFailed(m) => {
            let a = lit("deserialize failed: ");
            let b = chars_of(m.as_str());
            concat_chars(&a, &b)
        },
        StreamError::Truncated => lit("stream ended unexpectedly"),
    }
}

/// Fold the parsed events of a session's output into its result: the last
/// init event gives the session id, the last result event the output and
/// usage; an error event or an unparseable line makes the session fail.
pub fn parse_session_events(events: &Vec<Result<ClaudeEvent, StreamError>>) -> (r: Result<
    SessionResult,
    OrchestratorError,
>)
    ensures
        match session_outcome(events@) {
            SessionOutcome::Failed(m) => r matches Err(OrchestratorError::SessionFailed(msg))
                && msg@ == m,
            SessionOutcome::Done(sid, out, usage) => r matches Ok(res) && res.session_id@ == sid
                && res.output@ == out && res.usage == usage,
        },
{
    let mut session_id: Vec<char> = Vec::new();
    let mut output: Vec<char> = Vec::new();
    let mut usage = UsageStats::default();
    let mut i: usize = 0;
    let ghost zero = UsageStats { input_tokens: 0, output_tokens: 0, cache_read_input_tokens: 0 };
    assert(usage == zero);
    assert(events@.subrange(0, events@.len() as int) =~= events@);
    assert(session_id@ =~= Seq::<char>::empty());
    assert(output@ =~= Seq::<char>::empty());
    while i < events.len()
        invariant
            i <= events@.len(),
            session_outcome(events@) == fold_events(
                events@.subrange(i as int, events@.len() as int),
                session_id@,
                output@,
                usage,
            ),
        decreases events.len() - i,
    {
        let ghost rest = events@.subrange(i as int, events@.len() as int);
        assert(rest.drop_first() =~= events@.subrange(i + 1, events@.len() as int));
        match &events[i] {
            Ok(ClaudeEvent::Init { session_id: sid }) => {
                session_id = chars_of(sid.as_str());
            },
            Ok(ClaudeEvent::Result { content, usage: used }) => {
                output = chars_of(content.as_str());
                usage = *used;
            },
            Ok(ClaudeEvent::Error { message, code }) => {
                let a = lit("session error ");
                let b = chars_of(code.as_str());
                let c = lit(": ");
                let d = chars_of(message.as_str());
                let ab = concat_chars(&a, &b);
                let abc = concat_chars(&ab, &c);
                let m = concat_chars(&abc, &d);
                return Err(OrchestratorError::SessionFailed(string_of(&m)));
            },
            Ok(ClaudeEvent::Other) => {},
            Err(e) => {
                let a = lit("stream parse error: ");
                let b = stream_error_message(e);
                let m = concat_chars(&a, &b);
                return Err(OrchestratorError::SessionFailed(string_of(&m)));
            },
        }
        i = i + 1;
    }
    Ok(
        SessionResult {
            session_id: string_of(&session_id),
            output: string_of(&output),
            usage,
        },
    )
}

/// The production session runner, which runs the agent CLI; the process
/// itself runs in the application layer.
pub struct ClaudeCliRunner;

} // verus!
