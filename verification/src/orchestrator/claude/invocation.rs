//! Construction of a headless invocation of the agent CLI.
use vstd::prelude::*;

use crate::text::{chars_of, string_of};

verus! {

/// Which model to route an invocation to.
#[derive(Debug, Clone, Copy, PartialEq, Eq, Structural)]
pub enum ClaudeModel {
    /// The deep-reasoning model: final synthesis and sensitive modules.
    Opus,
    /// The bulk-classification model.
    Sonnet,
}

/// The command-line identifiers of the two models, as the application
/// configures them.
#[derive(Debug, Clone)]
pub struct ModelIds {
    pub opus: String,
    pub sonnet: String,
}

/// The CLI identifier of a model.
pub open spec fn model_id_of(m: ClaudeModel, ids: ModelIds) -> Seq<char> {
    match m {
        ClaudeModel::Opus => ids.opus@,
        ClaudeModel::Sonnet => ids.sonnet@,
    }
}

impl ClaudeModel {
    /// The CLI model identifier.
    pub fn model_id<'a>(self, ids: &'a ModelIds) -> (s: &'a str)
        ensures
            s@ == model_id_of(self, *ids),
    {
        match self {
            ClaudeModel::Opus => ids.opus.as_str(),
            ClaudeModel::Sonnet => ids.sonnet.as_str(),
        }
    }
}

/// A fully specified headless invocation. Paths are held as strings.
#[derive(Debug, Clone)]
pub struct ClaudeInvocation {
    pub prompt: String,
    pub model: ClaudeModel,
    pub schema_path: Option<String>,
    pub allowed_tools: Vec<String>,
    pub system_prompt: Option<String>,
    pub working_dir: Option<String>,
    pub session_id: Option<String>,
}

/// The items of `items` joined by `sep` (`[T]::join`).
pub open spec fn join_with(items: Seq<Seq<char>>, sep: char) -> Seq<char>
    decreases items.len(),
{
    if items.len() == 0 {
        Seq::empty()
    } else if items.len() == 1 {
        items[0]
    } else {
        join_with(items.drop_last(), sep).push(sep) + items.last()
    }
}

/// The views of a list of strings.
pub open spec fn string_views(v: Seq<String>) -> Seq<Seq<char>> {
    v.map_values(|s: String| s@)
}

/// The arguments of the agent command for an invocation:
/// `--bare -p <prompt> --output-format stream-json [--json-schema <path>]
/// [--allowedTools <csv>] [--append-system-prompt <sys>] --model <id>
/// [--resume <session>]`, where the tools list is given only when its
/// comma-joined text is not empty.
pub open spec fn invocation_args(inv: ClaudeInvocation, ids: ModelIds) -> Seq<Seq<char>> {
    let base = seq!["--bare"@, "-p"@, inv.prompt@, "--output-format"@, "stream-json"@];
    let with_schema = match inv.schema_path {
        Some(p) => base + seq!["--json-schema"@, p@],
        None => base,
    };
    let tools = join_with(string_views(inv.allowed_tools@), ',');
    let with_tools = if tools.len() > 0 {
        with_schema + seq!["--allowedTools"@, tools]
    } else {
        with_schema
    };
    let with_sys = match inv.system_prompt {
        Some(s) => with_tools + seq!["--append-system-prompt"@, s@],
        None => with_tools,
    };
    let with_model = with_sys + seq!["--model"@, model_id_of(inv.model, ids)];
    match inv.session_id {
        Some(s) => with_model + seq!["--resume"@, s@],
        None => with_model,
    }
}

/// A fresh copy of a string.
fn copy_str(s: &str) -> (r: String)
    ensures
        r@ == s@,
{
    let c = chars_of(s);
    string_of(&c)
}

/// The items of `items` joined by `sep`.
pub fn join_strings(items: &Vec<String>, sep: char) -> (r: String)
    ensures
        r@ == join_with(string_views(items@), sep),
{
    let mut out: Vec<char> = Vec::new();
    let mut i: usize = 0;
    while i < items.len()
        invariant
            i <= items@.len(),
            out@ == join_with(string_views(items@.subrange(0, i as int)), sep),
        decreases items.len() - i,
    {
        let ghost pre = string_views(items@.subrange(0, i as int));
        let ghost nxt = string_views(items@.subrange(0, i + 1));
        assert(nxt.drop_last() =~= pre);
        assert(nxt.last() == items@[i as int]@);
        if i > 0 {
            out.push(sep);
        }
        let item = chars_of(items[i].as_str());
        let mut j: usize = 0;
        let ghost before = out@;
        while j < item.len()
            invariant
                j <= item@.len(),
                out@ == before + item@.subrange(0, j as int),
            decreases item.len() - j,
        {
            out.push(item[j]);
            j = j + 1;
            assert(out@ =~= before + item@.subrange(0, j as int));
        }
        assert(item@.subrange(0, item@.len() as int) =~= item@);
        proof {
            if i == 0 {
                assert(nxt.len() == 1);
                assert(before =~= Seq::<char>::empty());
                assert(out@ =~= nxt[0]);
            }
        }
        i = i + 1;
    }
    assert(items@.subrange(0, items@.len() as int) =~= items@);
    string_from_vec(out)
}

fn string_from_vec(v: Vec<char>) -> (r: String)
    ensures
        r@ == v@,
{
    string_of(&v)
}

impl ClaudeInvocation {
    /// The arguments of the agent command for this invocation (see
    /// [`invocation_args`]); the working directory, when set, is where the
    /// command runs.
    pub fn command_args(&self, ids: &ModelIds) -> (r: Vec<String>)
        ensures
            string_views(r@) == invocation_args(*self, *ids),
    {
        let mut args: Vec<String> = Vec::new();
        args.push(copy_str("--bare"));
        args.push(copy_str("-p"));
        args.push(self.prompt.clone());
        args.push(copy_str("--output-format"));
        args.push(copy_str("stream-json"));
        match &self.schema_path {
            Some(p) => {
                args.push(copy_str("--json-schema"));
                args.push(p.clone());
            },
            None => {},
        }
        let tools = join_strings(&self.allowed_tools, ',');
        if !tools.as_str().is_empty() {
            args.push(copy_str("--allowedTools"));
            args.push(tools);
        }
        match &self.system_prompt {
            Some(s) => {
                args.push(copy_str("--append-system-prompt"));
                args.push(s.clone());
            },
            None => {},
        }
        args.push(copy_str("--model"));
        args.push(copy_str(self.model.model_id(ids)));
        match &self.session_id {
            Some(s) => {
                args.push(copy_str("--resume"));
                args.push(s.clone());
            },
            None => {},
        }
        assert(string_views(args@) =~= invocation_args(*self, *ids));
        args
    }
}

} // verus!
