//! How the validated model is handed to the drawings: flows and tiers as plain item
//! lists, hierarchies as charts whose parents are named by label, or as fishbones, and
//! transitions' ends looked up among the states.

use vstd::prelude::*;
use crate::model::{FishboneCause, FishboneDiagram, FlowDiagram, HierarchyDiagram, HierarchyNode,
    Item, ItemsDiagram, OrgChartDiagram, OrgChartNode, SpecFishboneCause, SpecFishboneDiagram,
    SpecFlowItem, SpecHierarchyDiagram, SpecHierarchyNode, SpecItem, SpecItemsDiagram,
    SpecOrgChartDiagram, SpecOrgChartNode, SpecStateNode, StateDiagram, TierDiagram, opt_str};
use crate::text::str_eq;

verus! {

fn copy_opt(o: &Option<String>) -> (r: Option<String>)
    ensures
        opt_str(r) == opt_str(*o),
{
    match o {
        Some(s) => Some(s.clone()),
        None => None,
    }
}

fn opt_is(o: &Option<String>, s: &str) -> (r: bool)
    ensures
        r == (opt_str(*o) == Some(s@)),
{
    match o {
        Some(x) => str_eq(x.as_str(), s),
        None => false,
    }
}

// ---------------------------------------------------------------------------
// Flows and tiers as item lists
// ---------------------------------------------------------------------------

/// A flow step as a plain item: its actor is dropped.
pub open spec fn flow_step_item(fi: SpecFlowItem) -> SpecItem {
    SpecItem { label: fi.label, emphasis: fi.emphasis, status: fi.status }
}

/// The steps of a flow as a plain item list, for the process, cycle and funnel drawings.
pub fn flow_as_items(d: &FlowDiagram) -> (r: ItemsDiagram)
    ensures
        r@ == (SpecItemsDiagram {
            title: d@.title,
            items: d@.items.map_values(|fi: SpecFlowItem| flow_step_item(fi)),
        }),
{
    let mut items: Vec<Item> = Vec::new();
    let mut i: usize = 0;
    while i < d.items.len()
        invariant
            i <= d.items@.len(),
            items@.len() == i,
            forall|k: int| 0 <= k < i ==> (#[trigger] items@[k])@ == flow_step_item(d.items@[k]@),
        decreases d.items@.len() - i,
    {
        let fi = &d.items[i];
        items.push(Item { label: fi.label.clone(), emphasis: fi.emphasis, status: fi.status });
        i = i + 1;
    }
    let r = ItemsDiagram { title: copy_opt(&d.title), items };
    assert(r@.items =~= d@.items.map_values(|fi: SpecFlowItem| flow_step_item(fi)));
    r
}

/// The layers of a tier as a plain item list, for the pyramid and concentric drawings.
pub fn tier_as_items(d: &TierDiagram) -> (r: ItemsDiagram)
    ensures
        r@ == (SpecItemsDiagram { title: d@.title, items: d@.items }),
{
    let mut items: Vec<Item> = Vec::new();
    let mut i: usize = 0;
    while i < d.items.len()
        invariant
            i <= d.items@.len(),
            items@.len() == i,
            forall|k: int| 0 <= k < i ==> (#[trigger] items@[k])@ == d.items@[k]@,
        decreases d.items@.len() - i,
    {
        let it = &d.items[i];
        items.push(Item { label: it.label.clone(), emphasis: it.emphasis, status: it.status });
        i = i + 1;
    }
    let r = ItemsDiagram { title: copy_opt(&d.title), items };
    assert(r@.items =~= d@.items);
    r
}

// ---------------------------------------------------------------------------
// Hierarchies
// ---------------------------------------------------------------------------

/// The label of the first node whose id is `p`, looking from position `from` on.
pub open spec fn label_for_id(nodes: Seq<SpecHierarchyNode>, p: Seq<char>, from: int) -> Option<Seq<char>>
    decreases nodes.len() - from,
{
    if from < 0 || from >= nodes.len() {
        None
    } else if nodes[from].id == Some(p) {
        Some(nodes[from].label)
    } else {
        label_for_id(nodes, p, from + 1)
    }
}

/// What a parent reference comes to in a chart: the label of the first node with that id,
/// else the reference itself, taken as a label.
pub open spec fn parent_label(nodes: Seq<SpecHierarchyNode>, p: Seq<char>) -> Seq<char> {
    match label_for_id(nodes, p, 0) {
        Some(l) => l,
        None => p,
    }
}

pub open spec fn chart_node(nodes: Seq<SpecHierarchyNode>, n: SpecHierarchyNode) -> SpecOrgChartNode {
    SpecOrgChartNode {
        label: n.label,
        parent: match n.parent {
            Some(p) => Some(parent_label(nodes, p)),
            None => None,
        },
    }
}

/// A hierarchy as a chart whose nodes name their parents by label.
pub open spec fn resolved_chart(d: SpecHierarchyDiagram) -> SpecOrgChartDiagram {
    SpecOrgChartDiagram {
        title: d.title,
        nodes: d.nodes.map_values(|n: SpecHierarchyNode| chart_node(d.nodes, n)),
    }
}

fn parent_label_of(nodes: &Vec<HierarchyNode>, p: &String) -> (r: String)
    ensures
        r@ == parent_label(nodes@.map_values(|n: HierarchyNode| n@), p@),
{
    let ghost ns = nodes@.map_values(|n: HierarchyNode| n@);
    let mut j: usize = 0;
    while j < nodes.len()
        invariant
            j <= nodes@.len(),
            ns == nodes@.map_values(|n: HierarchyNode| n@),
            label_for_id(ns, p@, 0) == label_for_id(ns, p@, j as int),
        decreases nodes@.len() - j,
    {
        if opt_is(&nodes[j].id, p.as_str()) {
            assert(ns[j as int].id == Some(p@));
            return nodes[j].label.clone();
        }
        j = j + 1;
    }
    p.clone()
}

/// The hierarchy as an org chart or mind map draws it: each parent given by id is replaced
/// by the label of the first node with that id; any other parent is kept as a label.
pub fn resolve_nodes(d: &HierarchyDiagram) -> (r: OrgChartDiagram)
    ensures
        r@ == resolved_chart(d@),
{
    let ghost ns = d.nodes@.map_values(|n: HierarchyNode| n@);
    let mut out: Vec<OrgChartNode> = Vec::new();
    let mut i: usize = 0;
    while i < d.nodes.len()
        invariant
            i <= d.nodes@.len(),
            ns == d.nodes@.map_values(|n: HierarchyNode| n@),
            out@.len() == i,
            forall|k: int| 0 <= k < i ==> (#[trigger] out@[k])@ == chart_node(ns, d.nodes@[k]@),
        decreases d.nodes@.len() - i,
    {
        let n = &d.nodes[i];
        let parent = match &n.parent {
            Some(p) => Some(parent_label_of(&d.nodes, p)),
            None => None,
        };
        out.push(OrgChartNode { label: n.label.clone(), parent });
        i = i + 1;
    }
    let r = OrgChartDiagram { title: copy_opt(&d.title), nodes: out };
    assert(r@.nodes =~= ns.map_values(|n: SpecHierarchyNode| chart_node(ns, n)));
    r
}

/// The labels of the nodes without a parent, in order.
pub open spec fn root_labels(nodes: Seq<SpecHierarchyNode>) -> Seq<Seq<char>>
    decreases nodes.len(),
{
    if nodes.len() == 0 {
        Seq::empty()
    } else if nodes.last().parent is None {
        root_labels(nodes.drop_last()).push(nodes.last().label)
    } else {
        root_labels(nodes.drop_last())
    }
}

/// The id of the first node labelled `label`, if that node has one.
pub open spec fn id_of_label(nodes: Seq<SpecHierarchyNode>, label: Seq<char>, from: int) -> Option<Seq<char>>
    decreases nodes.len() - from,
{
    if from < 0 || from >= nodes.len() {
        None
    } else if nodes[from].label == label {
        nodes[from].id
    } else {
        id_of_label(nodes, label, from + 1)
    }
}

/// The node hangs from the bone `label`: its parent is that label, or the id of the first
/// node with that label.
pub open spec fn hangs_from(n: SpecHierarchyNode, label: Seq<char>, root_id: Option<Seq<char>>) -> bool {
    match n.parent {
        Some(p) => (root_id is Some && Some(p) == root_id) || p == label,
        None => false,
    }
}

/// The labels of the nodes that hang from the bone `label`, as plain items, in order.
pub open spec fn bone_items(nodes: Seq<SpecHierarchyNode>, label: Seq<char>, root_id: Option<Seq<char>>) -> Seq<SpecItem>
    decreases nodes.len(),
{
    if nodes.len() == 0 {
        Seq::empty()
    } else if hangs_from(nodes.last(), label, root_id) {
        bone_items(nodes.drop_last(), label, root_id).push(
            SpecItem { label: nodes.last().label, emphasis: None, status: None },
        )
    } else {
        bone_items(nodes.drop_last(), label, root_id)
    }
}

/// The cause drawn for the root labelled `label`.
pub open spec fn bone(nodes: Seq<SpecHierarchyNode>, label: Seq<char>) -> SpecFishboneCause {
    SpecFishboneCause { label, items: bone_items(nodes, label, id_of_label(nodes, label, 0)) }
}

/// A hierarchy as a fishbone: the effect is the hierarchy's effect, else its title, else
/// empty; each root is a cause, and the nodes hanging from it are its items.
pub open spec fn fishbone_chart(d: SpecHierarchyDiagram) -> SpecFishboneDiagram {
    SpecFishboneDiagram {
        title: None,
        effect: match d.effect {
            Some(e) => e,
            None => match d.title {
                Some(t) => t,
                None => Seq::empty(),
            },
        },
        causes: root_labels(d.nodes).map_values(|l: Seq<char>| bone(d.nodes, l)),
    }
}

fn id_of_label_in(nodes: &Vec<HierarchyNode>, label: &str) -> (r: Option<String>)
    ensures
        opt_str(r) == id_of_label(nodes@.map_values(|n: HierarchyNode| n@), label@, 0),
{
    let ghost ns = nodes@.map_values(|n: HierarchyNode| n@);
    let mut j: usize = 0;
    while j < nodes.len()
        invariant
            j <= nodes@.len(),
            ns == nodes@.map_values(|n: HierarchyNode| n@),
            id_of_label(ns, label@, 0) == id_of_label(ns, label@, j as int),
        decreases nodes@.len() - j,
    {
        if str_eq(nodes[j].label.as_str(), label) {
            return copy_opt(&nodes[j].id);
        }
        j = j + 1;
    }
    None
}

fn bone_of(nodes: &Vec<HierarchyNode>, label: &String) -> (c: FishboneCause)
    ensures
        c@ == bone(nodes@.map_values(|n: HierarchyNode| n@), label@),
{
    let ghost ns = nodes@.map_values(|n: HierarchyNode| n@);
    let root_id = id_of_label_in(nodes, label.as_str());
    let ghost rid = opt_str(root_id);
    let mut items: Vec<Item> = Vec::new();
    let mut i: usize = 0;
    while i < nodes.len()
        invariant
            i <= nodes@.len(),
            ns == nodes@.map_values(|n: HierarchyNode| n@),
            rid == opt_str(root_id),
            items@.map_values(|it: Item| it@) == bone_items(ns.take(i as int), label@, rid),
        decreases nodes@.len() - i,
    {
        assert(ns.take(i as int + 1).drop_last() =~= ns.take(i as int));
        let n = &nodes[i];
        let hangs = match &n.parent {
            Some(p) => (match &root_id {
                Some(id) => str_eq(p.as_str(), id.as_str()),
                None => false,
            }) || str_eq(p.as_str(), label.as_str()),
            None => false,
        };
        assert(hangs == hangs_from(ns[i as int], label@, rid));
        let ghost before = items@;
        if hangs {
            items.push(Item { label: n.label.clone(), emphasis: None, status: None });
            assert(items@.map_values(|it: Item| it@) =~= before.map_values(|it: Item| it@).push(
                SpecItem { label: n.label@, emphasis: None, status: None },
            ));
        }
        i = i + 1;
    }
    assert(ns.take(nodes@.len() as int) =~= ns);
    FishboneCause { label: label.clone(), items }
}

/// The hierarchy as the fishbone drawing takes it.
pub fn fishbone_of(d: &HierarchyDiagram) -> (r: FishboneDiagram)
    ensures
        r@ == fishbone_chart(d@),
{
    let ghost ns = d.nodes@.map_values(|n: HierarchyNode| n@);
    let effect = match &d.effect {
        Some(e) => e.clone(),
        None => match &d.title {
            Some(t) => t.clone(),
            None => String::new(),
        },
    };
    let mut causes: Vec<FishboneCause> = Vec::new();
    let mut i: usize = 0;
    while i < d.nodes.len()
        invariant
            i <= d.nodes@.len(),
            ns == d.nodes@.map_values(|n: HierarchyNode| n@),
            causes@.map_values(|c: FishboneCause| c@)
                == root_labels(ns.take(i as int)).map_values(|l: Seq<char>| bone(ns, l)),
        decreases d.nodes@.len() - i,
    {
        assert(ns.take(i as int + 1).drop_last() =~= ns.take(i as int));
        let ghost before = causes@;
        if d.nodes[i].parent.is_none() {
            let c = bone_of(&d.nodes, &d.nodes[i].label);
            causes.push(c);
            assert(causes@.map_values(|c: FishboneCause| c@) =~= before.map_values(
                |c: FishboneCause| c@,
            ).push(bone(ns, d.nodes@[i as int].label@)));
            assert(root_labels(ns.take(i as int + 1)).map_values(|l: Seq<char>| bone(ns, l))
                =~= root_labels(ns.take(i as int)).map_values(|l: Seq<char>| bone(ns, l)).push(
                bone(ns, d.nodes@[i as int].label@)));
        }
        i = i + 1;
    }
    assert(ns.take(d.nodes@.len() as int) =~= ns);
    FishboneDiagram { title: None, effect, causes }
}

// ---------------------------------------------------------------------------
// States
// ---------------------------------------------------------------------------

/// The first state at or after `from` whose id is `key`.
pub open spec fn index_by_id(states: Seq<SpecStateNode>, key: Seq<char>, from: int) -> Option<int>
    decreases states.len() - from,
{
    if from < 0 || from >= states.len() {
        None
    } else if states[from].id == Some(key) {
        Some(from)
    } else {
        index_by_id(states, key, from + 1)
    }
}

/// The first state at or after `from` whose label is `key`.
pub open spec fn index_by_label(states: Seq<SpecStateNode>, key: Seq<char>, from: int) -> Option<int>
    decreases states.len() - from,
{
    if from < 0 || from >= states.len() {
        None
    } else if states[from].label == key {
        Some(from)
    } else {
        index_by_label(states, key, from + 1)
    }
}

/// The state a transition end names: the first with that id, else the first with that label.
pub open spec fn state_index(states: Seq<SpecStateNode>, key: Seq<char>) -> Option<int> {
    match index_by_id(states, key, 0) {
        Some(i) => Some(i),
        None => index_by_label(states, key, 0),
    }
}

/// Finds the state that `key` names, by id first and then by label.
pub fn resolve_idx(d: &StateDiagram, key: &str) -> (r: Option<usize>)
    ensures
        match r {
            Some(i) => state_index(d@.states, key@) == Some(i as int),
            None => state_index(d@.states, key@) is None,
        },
{
    let ghost ss = d@.states;
    let mut i: usize = 0;
    while i < d.states.len()
        invariant
            i <= d.states@.len(),
            ss == d@.states,
            index_by_id(ss, key@, 0) == index_by_id(ss, key@, i as int),
        decreases d.states@.len() - i,
    {
        if opt_is(&d.states[i].id, key) {
            return Some(i);
        }
        i = i + 1;
    }
    let mut j: usize = 0;
    while j < d.states.len()
        invariant
            j <= d.states@.len(),
            ss == d@.states,
            index_by_id(ss, key@, 0) is None,
            index_by_label(ss, key@, 0) == index_by_label(ss, key@, j as int),
        decreases d.states@.len() - j,
    {
        if str_eq(d.states[j].label.as_str(), key) {
            return Some(j);
        }
        j = j + 1;
    }
    None
}

} // verus!
