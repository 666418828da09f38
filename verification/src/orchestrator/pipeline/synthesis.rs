//! Gating-strategy synthesis: the request to the synthesis model and the
//! per-module tier assignments, which are taken from the valuation.
use vstd::prelude::*;

use super::arch_mapping::ModuleNode;
use crate::domain::model::TierAssignment;
use crate::domain::types::GatingTier;
use crate::orchestrator::claude::invocation::{ClaudeInvocation, ClaudeModel};
use crate::text::{append_str, str_eq, string_of};

verus! {

/// The display name of module `module_id`: the name of the first module of
/// the map with that identifier, the identifier itself when there is none.
pub open spec fn display_name(modules: Seq<ModuleNode>, module_id: Seq<char>) -> Seq<char>
    decreases modules.len(),
{
    if modules.len() == 0 {
        module_id
    } else if modules[0].id@ == module_id {
        modules[0].name@
    } else {
        display_name(modules.drop_first(), module_id)
    }
}

/// The display name of a module of the architecture map.
pub fn module_name_for(modules: &Vec<ModuleNode>, module_id: &str) -> (r: String)
    ensures
        r@ == display_name(modules@, module_id@),
{
    let mut i: usize = 0;
    assert(modules@.subrange(0, modules@.len() as int) =~= modules@);
    while i < modules.len()
        invariant
            i <= modules@.len(),
            display_name(modules@, module_id@) == display_name(modules@.subrange(i as int, modules@.len() as int), module_id@),
        decreases modules@.len() - i,
    {
        let ghost rest = modules@.subrange(i as int, modules@.len() as int);
        assert(rest.drop_first() =~= modules@.subrange(i + 1, modules@.len() as int));
        assert(rest[0] == modules@[i as int]);
        if str_eq(modules[i].id.as_str(), module_id) {
            return modules[i].name.clone();
        }
        i = i + 1;
    }
    module_id.to_owned()
}

/// The tier assignment of one scored module, named after the architecture
/// map and carrying the given rationale.
pub fn tier_assignment(modules: &Vec<ModuleNode>, module_id: &str, tier: GatingTier, rationale: String) -> (t: TierAssignment)
    ensures
        t.module_id@ == module_id@,
        t.module_name@ == display_name(modules@, module_id@),
        t.tier == tier,
        t.rationale == Some(rationale),
{
    TierAssignment {
        module_id: module_id.to_owned(),
        module_name: module_name_for(modules, module_id),
        tier,
        rationale: Some(rationale),
    }
}

/// One tier assignment per scored module, in the valuation's order: each
/// scored module is given as its identifier, tier and rationale.
pub fn tier_assignments(modules: &Vec<ModuleNode>, scored: &Vec<(String, GatingTier, String)>) -> (r: Vec<TierAssignment>)
    ensures
        r@.len() == scored@.len(),
        forall|i: int|
            0 <= i < r@.len() ==> {
                let t = #[trigger] r@[i];
                &&& t.module_id@ == scored@[i].0@
                &&& t.module_name@ == display_name(modules@, scored@[i].0@)
                &&& t.tier == scored@[i].1
                &&& t.rationale == Some(scored@[i].2)
            },
{
    let mut out: Vec<TierAssignment> = Vec::new();
    for i in 0..scored.len()
        invariant
            out@.len() == i,
            forall|k: int|
                0 <= k < i ==> {
                    let t = #[trigger] out@[k];
                    &&& t.module_id@ == scored@[k].0@
                    &&& t.module_name@ == display_name(modules@, scored@[k].0@)
                    &&& t.tier == scored@[k].1
                    &&& t.rationale == Some(scored@[k].2)
                },
    {
        let s = &scored[i];
        out.push(tier_assignment(modules, s.0.as_str(), s.1, s.2.clone()));
    }
    out
}

/// The request of the synthesis session around the JSON renderings of the
/// valuation, inventory and license report.
pub open spec fn synthesis_prompt_text(valuation: Seq<char>, inventory: Seq<char>, license: Seq<char>) -> Seq<char> {
    "Synthesize an open-core commercialization strategy from these summaries. Return a SynthesisOutput.\n\nVALUATION: "@
        + valuation + "\n\nINVENTORY: "@ + inventory + "\n\nLICENSE: "@ + license
}

/// The synthesis request, always routed to Opus, with no tools.
pub fn synthesis_invocation(valuation_json: &str, inventory_json: &str, license_json: &str) -> (inv: ClaudeInvocation)
    ensures
        inv.prompt@ == synthesis_prompt_text(valuation_json@, inventory_json@, license_json@),
        inv.model == ClaudeModel::Opus,
        inv.schema_path is None,
        inv.allowed_tools@.len() == 0,
        inv.system_prompt is None,
        inv.working_dir is None,
        inv.session_id is None,
{
    let mut p: Vec<char> = Vec::new();
    append_str(
        &mut p,
        "Synthesize an open-core commercialization strategy from these summaries. Return a SynthesisOutput.\n\nVALUATION: ",
    );
    append_str(&mut p, valuation_json);
    append_str(&mut p, "\n\nINVENTORY: ");
    append_str(&mut p, inventory_json);
    append_str(&mut p, "\n\nLICENSE: ");
    append_str(&mut p, license_json);
    ClaudeInvocation {
        prompt: string_of(&p),
        model: ClaudeModel::Opus,
        schema_path: None,
        allowed_tools: Vec::new(),
        system_prompt: None,
        working_dir: None,
        session_id: None,
    }
}

} // verus!
