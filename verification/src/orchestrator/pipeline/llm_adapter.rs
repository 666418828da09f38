//! Adapts per-module assessments into functionality items.
use vstd::prelude::*;

use crate::domain::claude_schemas::{CapabilityFinding, DiscoveryMethod, ModuleAssessment};
use crate::domain::model::{SourceLocation, Visibility};

verus! {

/// A single discovered capability, normalized for the functionality inventory.
#[derive(Debug, Clone)]
pub struct FunctionalityItem {
    pub name: String,
    pub description: String,
    pub visibility: Visibility,
    pub source_location: Option<SourceLocation>,
    pub discovery_method: DiscoveryMethod,
    /// True when the finding is backed by a concrete source location.
    pub is_confirmed: bool,
}

/// The repository-wide inventory of discovered functionality.
#[derive(Debug, Clone)]
pub struct FunctionalityInventory {
    pub repo_id: String,
    pub items: Vec<FunctionalityItem>,
    pub total_count: usize,
    pub hidden_count: usize,
    pub enterprise_count: usize,
    pub api_entry_points: Vec<String>,
    /// Modules whose discovery session failed or gave no usable assessment.
    pub degraded_modules: Vec<String>,
    /// Modules not analysed because the token budget was exhausted.
    pub budget_skipped_modules: Vec<String>,
}

/// The visibility of a capability: enterprise first, then undocumented,
/// public otherwise.
pub open spec fn visibility_of(cap: CapabilityFinding) -> Visibility {
    if cap.is_enterprise {
        Visibility::Enterprise
    } else if cap.is_undocumented {
        Visibility::Undocumented
    } else {
        Visibility::Public
    }
}

/// The first source location of a capability, if it lists any.
pub open spec fn first_location(cap: CapabilityFinding) -> Option<SourceLocation> {
    match cap.source_locations {
        Some(locs) => if locs@.len() > 0 {
            Some(locs@[0])
        } else {
            None
        },
        None => None,
    }
}

/// The functionality item of capability `cap`: its name, description and
/// discovery method, its visibility, and its first source location, which
/// also decides whether the finding is confirmed.
pub open spec fn item_for(cap: CapabilityFinding) -> FunctionalityItem {
    FunctionalityItem {
        name: cap.name,
        description: cap.description,
        visibility: visibility_of(cap),
        source_location: first_location(cap),
        discovery_method: cap.discovery_method,
        is_confirmed: first_location(cap) is Some,
    }
}

/// The number of items of `items` with visibility `v`.
pub open spec fn count_visibility(items: Seq<FunctionalityItem>, v: Visibility) -> nat
    decreases items.len(),
{
    if items.len() == 0 {
        0
    } else {
        count_visibility(items.drop_last(), v) + (if items.last().visibility == v {
            1nat
        } else {
            0nat
        })
    }
}

impl SourceLocation {
    /// An equal copy.
    pub fn duplicate(&self) -> (r: SourceLocation)
        ensures
            r == *self,
    {
        SourceLocation {
            file_path: self.file_path.clone(),
            line_start: self.line_start,
            line_end: self.line_end,
        }
    }
}

fn first_location_exec(cap: &CapabilityFinding) -> (r: Option<SourceLocation>)
    ensures
        r == first_location(*cap),
{
    match &cap.source_locations {
        Some(locs) => if locs.len() > 0 {
            Some(locs[0].duplicate())
        } else {
            None
        },
        None => None,
    }
}

/// The functionality item of one capability.
pub fn item_of(cap: &CapabilityFinding) -> (item: FunctionalityItem)
    ensures
        item == item_for(*cap),
{
    let visibility = if cap.is_enterprise {
        Visibility::Enterprise
    } else if cap.is_undocumented {
        Visibility::Undocumented
    } else {
        Visibility::Public
    };
    let source_location = first_location_exec(cap);
    FunctionalityItem {
        name: cap.name.clone(),
        description: cap.description.clone(),
        visibility,
        is_confirmed: source_location.is_some(),
        source_location,
        discovery_method: cap.discovery_method,
    }
}

/// Map a module assessment's capabilities into functionality items, one per
/// capability, in order.
pub fn map_to_functionality_items(assessment: &ModuleAssessment, module_dir: &str) -> (r: Vec<
    FunctionalityItem,
>)
    ensures
        r@.len() == assessment.capabilities@.len(),
        r@ == items_of_module(*assessment),
{
    let mut out: Vec<FunctionalityItem> = Vec::new();
    for i in 0..assessment.capabilities.len()
        invariant
            out@.len() == i,
            forall|j: int|
                0 <= j < i ==> #[trigger] out@[j] == item_for(assessment.capabilities@[j]),
    {
        out.push(item_of(&assessment.capabilities[i]));
    }
    assert(out@ =~= items_of_module(*assessment));
    out
}

/// Append `new_items` to an inventory's items, counting the undocumented
/// and enterprise ones.
pub fn add_items(
    items: &mut Vec<FunctionalityItem>,
    hidden_count: &mut usize,
    enterprise_count: &mut usize,
    new_items: Vec<FunctionalityItem>,
)
    requires
        *old(hidden_count) == count_visibility(old(items)@, Visibility::Undocumented),
        *old(enterprise_count) == count_visibility(old(items)@, Visibility::Enterprise),
    ensures
        final(items)@ == old(items)@ + new_items@,
        *final(hidden_count) == count_visibility(final(items)@, Visibility::Undocumented),
        *final(enterprise_count) == count_visibility(final(items)@, Visibility::Enterprise),
{
    let ghost start = items@;
    let mut k: usize = 0;
    let mut rest = new_items;
    let ghost all = rest@;
    while k < rest.len()
        invariant
            rest@ == all,
            k <= all.len(),
            items@ == start + all.subrange(0, k as int),
            *hidden_count == count_visibility(items@, Visibility::Undocumented),
            *enterprise_count == count_visibility(items@, Visibility::Enterprise),
        decreases all.len() - k,
    {
        proof {
            lemma_count_visibility_bound(items@, Visibility::Undocumented);
            lemma_count_visibility_bound(items@, Visibility::Enterprise);
            lemma_count_visibility_disjoint(items@);
        }
        let item = rest[k].clone_item();
        let vis = item.visibility;
        let ghost before = items@;
        items.push(item);
        let _n = items.len();
        assert(items@.drop_last() =~= before);
        match vis {
            Visibility::Undocumented => {
                *hidden_count = *hidden_count + 1;
            },
            Visibility::Enterprise => {
                *enterprise_count = *enterprise_count + 1;
            },
            _ => {},
        }
        assert(items@ =~= start + all.subrange(0, k + 1));
        k = k + 1;
    }
    assert(all.subrange(0, all.len() as int) =~= all);
}

proof fn lemma_count_visibility_bound(items: Seq<FunctionalityItem>, v: Visibility)
    ensures
        count_visibility(items, v) <= items.len(),
    decreases items.len(),
{
    if items.len() > 0 {
        lemma_count_visibility_bound(items.drop_last(), v);
    }
}

proof fn lemma_count_visibility_disjoint(items: Seq<FunctionalityItem>)
    ensures
        count_visibility(items, Visibility::Undocumented) + count_visibility(
            items,
            Visibility::Enterprise,
        ) <= items.len(),
    decreases items.len(),
{
    if items.len() > 0 {
        lemma_count_visibility_disjoint(items.drop_last());
    }
}

impl FunctionalityItem {
    /// An equal copy.
    pub fn clone_item(&self) -> (r: FunctionalityItem)
        ensures
            r == *self,
    {
        FunctionalityItem {
            name: self.name.clone(),
            description: self.description.clone(),
            visibility: self.visibility,
            source_location: match &self.source_location {
                Some(l) => Some(l.duplicate()),
                None => None,
            },
            discovery_method: self.discovery_method,
            is_confirmed: self.is_confirmed,
        }
    }
}

/// The inventory of a set of module assessments, in order (the offline path,
/// where the assessments were written by an agent).
pub fn build_inventory(repo_id: &str, modules: &Vec<ModuleAssessment>) -> (inv: FunctionalityInventory)
    ensures
        inv.repo_id@ == repo_id@,
        inv.items@.len() == inv.total_count,
        inv.hidden_count == count_visibility(inv.items@, Visibility::Undocumented),
        inv.enterprise_count == count_visibility(inv.items@, Visibility::Enterprise),
        inv.items@ == items_of_modules(modules@),
        inv.api_entry_points@.len() == 0,
        inv.degraded_modules@.len() == 0,
        inv.budget_skipped_modules@.len() == 0,
{
    let mut items: Vec<FunctionalityItem> = Vec::new();
    let mut hidden_count: usize = 0;
    let mut enterprise_count: usize = 0;
    for i in 0..modules.len()
        invariant
            items@ == items_of_modules(modules@.subrange(0, i as int)),
            hidden_count == count_visibility(items@, Visibility::Undocumented),
            enterprise_count == count_visibility(items@, Visibility::Enterprise),
    {
        let a = &modules[i];
        let new_items = map_to_functionality_items(a, a.module_dir.as_str());
        proof {
            assert(modules@.subrange(0, i + 1).drop_last() =~= modules@.subrange(0, i as int));
        }
        add_items(&mut items, &mut hidden_count, &mut enterprise_count, new_items);
    }
    assert(modules@.subrange(0, modules@.len() as int) =~= modules@);
    FunctionalityInventory {
        repo_id: repo_id.to_owned(),
        total_count: items.len(),
        hidden_count,
        enterprise_count,
        items,
        api_entry_points: Vec::new(),
        degraded_modules: Vec::new(),
        budget_skipped_modules: Vec::new(),
    }
}

/// The functionality items of one assessment, in order.
pub open spec fn items_of_module(a: ModuleAssessment) -> Seq<FunctionalityItem> {
    a.capabilities@.map_values(|c: CapabilityFinding| item_for(c))
}

/// The functionality items of a sequence of assessments, concatenated.
pub open spec fn items_of_modules(ms: Seq<ModuleAssessment>) -> Seq<FunctionalityItem>
    decreases ms.len(),
{
    if ms.len() == 0 {
        Seq::empty()
    } else {
        items_of_modules(ms.drop_last()) + items_of_module(ms.last())
    }
}

} // verus!
