//! Architecture mapping: deterministic module-boundary detection, the
//! manifest-summarization request, and the rendered module tree.
use vstd::prelude::*;

use crate::domain::types::{layer_name, Layer};
use crate::orchestrator::claude::invocation::{string_views, ClaudeInvocation, ClaudeModel};
use crate::text::{after_last, after_last_exec, append_str, chars_of, str_eq, string_of};

verus! {

/// A functional module identified in the repository. Its centrality is held
/// in hundredths (`50` stands for `0.5`).
#[derive(Debug, Clone)]
pub struct ModuleNode {
    pub id: String,
    pub name: String,
    pub path: String,
    pub layer: Layer,
    pub centrality_hundredths: u32,
    pub file_count: usize,
    pub loc: usize,
    pub has_public_interface: bool,
}

/// The module dependency graph plus a renderable text diagram.
#[derive(Debug, Clone)]
pub struct ArchitectureMap {
    pub modules: Vec<ModuleNode>,
    pub edges: Vec<(String, String)>,
    pub ascii_diagram: String,
}

/// A candidate module found by the heuristics: named `name`, at `path`, in
/// `layer`, with the default centrality and no measured size.
pub open spec fn candidate(name: Seq<char>, path: Seq<char>, layer: Layer, m: ModuleNode) -> bool {
    &&& m.id@ == name
    &&& m.name@ == name
    &&& m.path@ == path
    &&& m.layer == layer
    &&& m.centrality_hundredths == 50
    &&& m.file_count == 0
    &&& m.loc == 0
    &&& m.has_public_interface
}

fn candidate_node(name: &Vec<char>, path: &str, layer: Layer) -> (m: ModuleNode)
    ensures
        candidate(name@, path@, layer, m),
{
    ModuleNode {
        id: string_of(name),
        name: string_of(name),
        path: path.to_owned(),
        layer,
        centrality_hundredths: 50,
        file_count: 0,
        loc: 0,
        has_public_interface: true,
    }
}

/// One core module per Cargo workspace member, named by the last segment of
/// the member path.
pub fn workspace_modules(members: &Vec<String>) -> (r: Vec<ModuleNode>)
    ensures
        r@.len() == members@.len(),
        forall|i: int|
            0 <= i < r@.len() ==> candidate(
                after_last(members@[i]@, '/'),
                members@[i]@,
                Layer::Core,
                #[trigger] r@[i],
            ),
{
    let mut out: Vec<ModuleNode> = Vec::new();
    for i in 0..members.len()
        invariant
            out@.len() == i,
            forall|j: int|
                0 <= j < i ==> candidate(
                    after_last(members@[j]@, '/'),
                    members@[j]@,
                    Layer::Core,
                    #[trigger] out@[j],
                ),
    {
        let member = members[i].as_str();
        let name = after_last_exec(&chars_of(member), '/');
        out.push(candidate_node(&name, member, Layer::Core));
    }
    out
}

/// What the `toml` crate finds under `[workspace].members` of a manifest
/// text: `None` when the text does not parse as TOML or holds no such
/// array; else each item, `Some` of its text for a string item, `None` for
/// any other item.
pub uninterp spec fn toml_workspace_items(text: Seq<char>) -> Option<Seq<Option<Seq<char>>>>;

/// The views of optional strings.
pub open spec fn optional_views(v: Seq<Option<String>>) -> Seq<Option<Seq<char>>> {
    v.map_values(
        |o: Option<String>|
            match o {
                Some(s) => Some(s@),
                None => None,
            },
    )
}

/// Parses the text with `str::parse::<toml::Value>` and reads
/// `get("workspace")`, `get("members")`, `as_array` and each item's
/// `as_str`; the result is the name `toml_workspace_items` of the text. The
/// TOML grammar behind it is not restated here.
#[verifier::external_body]
fn workspace_items(toml_text: &str) -> (r: Option<Vec<Option<String>>>)
    ensures
        r is None <==> toml_workspace_items(toml_text@) is None,
        r matches Some(v) ==> toml_workspace_items(toml_text@) == Some(optional_views(v@)),
{
    let value: toml::Value = toml_text.parse().ok()?;
    let items = value.get("workspace")?.get("members")?.as_array()?;
    Some(items.iter().map(|m| m.as_str().map(|s| s.to_string())).collect())
}

/// The string items of a sequence of optional texts, in order.
pub open spec fn present_texts(items: Seq<Option<Seq<char>>>) -> Seq<Seq<char>>
    decreases items.len(),
{
    if items.len() == 0 {
        Seq::empty()
    } else {
        let before = present_texts(items.drop_last());
        match items.last() {
            Some(t) => before.push(t),
            None => before,
        }
    }
}

/// The string items of a workspace member list, in order; none when there
/// is no list.
pub open spec fn string_items(items: Option<Seq<Option<Seq<char>>>>) -> Seq<Seq<char>> {
    match items {
        Some(v) => present_texts(v),
        None => Seq::empty(),
    }
}

/// The Cargo workspace members named in a `Cargo.toml` text: the string
/// items of `[workspace].members`, in order; none when the text does not
/// parse or has no such array.
pub fn workspace_members_of(toml_text: &str) -> (r: Vec<String>)
    ensures
        string_views(r@) == string_items(toml_workspace_items(toml_text@)),
{
    let mut out: Vec<String> = Vec::new();
    match workspace_items(toml_text) {
        None => {
            assert(string_views(out@) =~= Seq::<Seq<char>>::empty());
        },
        Some(items) => {
            let ghost all = optional_views(items@);
            for i in 0..items.len()
                invariant
                    all == optional_views(items@),
                    string_views(out@) == present_texts(all.subrange(0, i as int)),
            {
                assert(all.subrange(0, i + 1).drop_last() =~= all.subrange(0, i as int));
                match &items[i] {
                    Some(t) => {
                        out.push(t.clone());
                        assert(string_views(out@) =~= present_texts(all.subrange(0, i + 1)));
                    },
                    None => {},
                }
            }
            assert(all.subrange(0, all.len() as int) =~= all);
        },
    }
    out
}

/// The conventional top-level directories and their layers, in order.
pub open spec fn conventional_dirs() -> Seq<(Seq<char>, Layer)> {
    seq![
        ("src"@, Layer::Core),
        ("cli"@, Layer::Cli),
        ("lib"@, Layer::Core),
        ("tests"@, Layer::Test),
        ("examples"@, Layer::Documentation),
        ("docs"@, Layer::Documentation),
    ]
}

/// `name` is among the strings of `v`.
pub open spec fn listed(v: Seq<String>, name: Seq<char>) -> bool {
    exists|i: int| 0 <= i < v.len() && (#[trigger] v[i])@ == name
}

/// The conventional directories present in `dirs`, in conventional order.
pub open spec fn present_dirs(dirs: Seq<(Seq<char>, Layer)>, existing: Seq<String>) -> Seq<
    (Seq<char>, Layer),
>
    decreases dirs.len(),
{
    if dirs.len() == 0 {
        Seq::empty()
    } else {
        let before = present_dirs(dirs.drop_last(), existing);
        if listed(existing, dirs.last().0) {
            before.push(dirs.last())
        } else {
            before
        }
    }
}

fn is_listed(v: &Vec<String>, name: &str) -> (r: bool)
    ensures
        r == listed(v@, name@),
{
    for i in 0..v.len()
        invariant
            forall|j: int| 0 <= j < i ==> (#[trigger] v@[j])@ != name@,
    {
        if str_eq(v[i].as_str(), name) {
            return true;
        }
    }
    false
}

/// One module per conventional top-level directory that exists
/// (`existing_dirs` names the top-level directories of the checkout).
pub fn top_level_modules(existing_dirs: &Vec<String>) -> (r: Vec<ModuleNode>)
    ensures
        r@.len() == present_dirs(conventional_dirs(), existing_dirs@).len(),
        forall|i: int|
            0 <= i < r@.len() ==> {
                let d = present_dirs(conventional_dirs(), existing_dirs@)[i];
                candidate(d.0, d.0, d.1, #[trigger] r@[i])
            },
{
    let mut out: Vec<ModuleNode> = Vec::new();
    let ghost dirs = conventional_dirs();
    add_if_listed(&mut out, existing_dirs, "src", Layer::Core, Ghost(dirs.subrange(0, 0)));
    assert(dirs.subrange(0, 0).push(("src"@, Layer::Core)) =~= dirs.subrange(0, 1));
    add_if_listed(&mut out, existing_dirs, "cli", Layer::Cli, Ghost(dirs.subrange(0, 1)));
    assert(dirs.subrange(0, 1).push(("cli"@, Layer::Cli)) =~= dirs.subrange(0, 2));
    add_if_listed(&mut out, existing_dirs, "lib", Layer::Core, Ghost(dirs.subrange(0, 2)));
    assert(dirs.subrange(0, 2).push(("lib"@, Layer::Core)) =~= dirs.subrange(0, 3));
    add_if_listed(&mut out, existing_dirs, "tests", Layer::Test, Ghost(dirs.subrange(0, 3)));
    assert(dirs.subrange(0, 3).push(("tests"@, Layer::Test)) =~= dirs.subrange(0, 4));
    add_if_listed(&mut out, existing_dirs, "examples", Layer::Documentation, Ghost(dirs.subrange(0, 4)));
    assert(dirs.subrange(0, 4).push(("examples"@, Layer::Documentation)) =~= dirs.subrange(0, 5));
    add_if_listed(&mut out, existing_dirs, "docs", Layer::Documentation, Ghost(dirs.subrange(0, 5)));
    assert(dirs.subrange(0, 5).push(("docs"@, Layer::Documentation)) =~= dirs.subrange(0, 6));
    assert(dirs.subrange(0, 6) =~= dirs);
    out
}

fn add_if_listed(
    out: &mut Vec<ModuleNode>,
    existing: &Vec<String>,
    dir: &str,
    layer: Layer,
    Ghost(done): Ghost<Seq<(Seq<char>, Layer)>>,
)
    requires
        old(out)@.len() == present_dirs(done, existing@).len(),
        forall|i: int|
            0 <= i < old(out)@.len() ==> {
                let d = present_dirs(done, existing@)[i];
                candidate(d.0, d.0, d.1, #[trigger] old(out)@[i])
            },
    ensures
        final(out)@.len() == present_dirs(done.push((dir@, layer)), existing@).len(),
        forall|i: int|
            0 <= i < final(out)@.len() ==> {
                let d = present_dirs(done.push((dir@, layer)), existing@)[i];
                candidate(d.0, d.0, d.1, #[trigger] final(out)@[i])
            },
{
    assert(done.push((dir@, layer)).drop_last() =~= done);
    if is_listed(existing, dir) {
        let name = chars_of(dir);
        out.push(candidate_node(&name, dir, layer));
    }
}

/// Candidate modules by deterministic heuristics: the Cargo workspace
/// members when there are any, otherwise the conventional top-level
/// directories that exist.
pub fn detect_modules_heuristic(workspace_members: &Vec<String>, existing_dirs: &Vec<String>) -> (r:
    Vec<ModuleNode>)
    ensures
        workspace_members@.len() > 0 ==> r@.len() == workspace_members@.len() && forall|i: int|
            0 <= i < r@.len() ==> candidate(
                after_last(workspace_members@[i]@, '/'),
                workspace_members@[i]@,
                Layer::Core,
                #[trigger] r@[i],
            ),
        workspace_members@.len() == 0 ==> r@.len() == present_dirs(
            conventional_dirs(),
            existing_dirs@,
        ).len() && forall|i: int|
            0 <= i < r@.len() ==> {
                let d = present_dirs(conventional_dirs(), existing_dirs@)[i];
                candidate(d.0, d.0, d.1, #[trigger] r@[i])
            },
{
    if workspace_members.len() > 0 {
        workspace_modules(workspace_members)
    } else {
        top_level_modules(existing_dirs)
    }
}

/// The names of the modules joined by `", "`.
pub open spec fn names_joined(ms: Seq<ModuleNode>) -> Seq<char>
    decreases ms.len(),
{
    if ms.len() == 0 {
        Seq::empty()
    } else if ms.len() == 1 {
        ms[0].name@
    } else {
        names_joined(ms.drop_last()) + ", "@ + ms.last().name@
    }
}

/// The manifest-summarization request about the candidate modules.
pub open spec fn mapping_prompt_text(candidates: Seq<ModuleNode>) -> Seq<char> {
    "Identify the functional modules and their roles for this repository. Candidate modules: "@
        + names_joined(candidates) + ". Return a JSON array of ModuleNode objects."@
}

/// The manifest-summarization request, routed to Sonnet in the checkout.
pub fn mapping_invocation(candidates: &Vec<ModuleNode>, repo_dir: &str) -> (inv: ClaudeInvocation)
    ensures
        inv.prompt@ == mapping_prompt_text(candidates@),
        inv.model == ClaudeModel::Sonnet,
        inv.schema_path is None,
        inv.allowed_tools@.len() == 0,
        inv.system_prompt is None,
        inv.working_dir matches Some(d) && d@ == repo_dir@,
        inv.session_id is None,
{
    let mut p: Vec<char> = Vec::new();
    append_str(
        &mut p,
        "Identify the functional modules and their roles for this repository. Candidate modules: ",
    );
    let ghost head = p@;
    for i in 0..candidates.len()
        invariant
            p@ == head + names_joined(candidates@.subrange(0, i as int)),
    {
        assert(candidates@.subrange(0, i + 1).drop_last() =~= candidates@.subrange(0, i as int));
        if i > 0 {
            append_str(&mut p, ", ");
        }
        append_str(&mut p, candidates[i].name.as_str());
        proof {
            if i == 0 {
                assert(candidates@.subrange(0, 1)[0] == candidates@[0]);
            }
            assert(p@ =~= head + names_joined(candidates@.subrange(0, i + 1)));
        }
    }
    assert(candidates@.subrange(0, candidates@.len() as int) =~= candidates@);
    append_str(&mut p, ". Return a JSON array of ModuleNode objects.");
    ClaudeInvocation {
        prompt: string_of(&p),
        model: ClaudeModel::Sonnet,
        schema_path: None,
        allowed_tools: Vec::new(),
        system_prompt: None,
        working_dir: Some(repo_dir.to_owned()),
        session_id: None,
    }
}

/// The line of the diagram for module `m`; the last module is drawn with a
/// closing branch.
pub open spec fn diagram_line(m: ModuleNode, last: bool) -> Seq<char> {
    "  "@ + (if last {
        "└─"@
    } else {
        "├─"@
    }) + " "@ + m.name@ + " ("@ + layer_name(m.layer) + ")\n"@
}

/// The lines of the first modules of a list of `total` modules.
pub open spec fn diagram_lines(ms: Seq<ModuleNode>, total: int) -> Seq<char>
    decreases ms.len(),
{
    if ms.len() == 0 {
        Seq::empty()
    } else {
        diagram_lines(ms.drop_last(), total) + diagram_line(ms.last(), ms.len() == total)
    }
}

/// Render a text-art tree of the modules (the edges are not drawn).
pub fn generate_ascii_diagram(modules: &[ModuleNode], edges: &[(String, String)]) -> (r: String)
    ensures
        r@ == "repository\n"@ + diagram_lines(modules@, modules@.len() as int),
{
    let mut out: Vec<char> = Vec::new();
    append_str(&mut out, "repository\n");
    let ghost head = out@;
    let n = modules.len();
    for i in 0..n
        invariant
            n == modules@.len(),
            out@ == head + diagram_lines(modules@.subrange(0, i as int), n as int),
    {
        assert(modules@.subrange(0, i + 1).drop_last() =~= modules@.subrange(0, i as int));
        append_str(&mut out, "  ");
        if i + 1 == n {
            append_str(&mut out, "└─");
        } else {
            append_str(&mut out, "├─");
        }
        append_str(&mut out, " ");
        append_str(&mut out, modules[i].name.as_str());
        append_str(&mut out, " (");
        append_str(&mut out, modules[i].layer.name());
        append_str(&mut out, ")\n");
        assert(out@ =~= head + diagram_lines(modules@.subrange(0, i + 1), n as int));
    }
    assert(modules@.subrange(0, n as int) =~= modules@);
    string_of(&out)
}

/// The architecture map: the modules the model returned when its reply
/// parsed, the heuristic candidates otherwise; no dependency edges are
/// derived, and the diagram is rendered from the modules.
pub fn architecture_map_from(reply: Option<Vec<ModuleNode>>, candidates: Vec<ModuleNode>) -> (m:
    ArchitectureMap)
    ensures
        m.modules@ == (match reply {
            Some(r) => r@,
            None => candidates@,
        }),
        m.edges@.len() == 0,
        m.ascii_diagram@ == "repository\n"@ + diagram_lines(m.modules@, m.modules@.len() as int),
{
    let modules = match reply {
        Some(r) => r,
        None => candidates,
    };
    let edges: Vec<(String, String)> = Vec::new();
    let ascii_diagram = generate_ascii_diagram(modules.as_slice(), edges.as_slice());
    ArchitectureMap { modules, edges, ascii_diagram }
}

} // verus!
