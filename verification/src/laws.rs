//! What holds of the library as a whole: properties of every accepted declaration and
//! relations between the functions that read, convert and draw it.

use vstd::prelude::*;
use crate::convert::{label_for_id, parent_label, state_index, index_by_id, index_by_label};
use crate::doc::DocValue;
use crate::error::SpecError;
use crate::hierarchy::{count_roots, hierarchy_value, parent_check};
use crate::model::{HierarchyView, SpecDiagram, SpecHierarchyNode, SpecStateNode};
use crate::parse::declaration_value;
use crate::raw::{SpecRawHierarchyDiagram, SpecRawHierarchyNode};
use crate::rules::all_ok;
use crate::color::{byte_hex, hex_color, hex_digit, hex_pair, hex_text, hex_value, hex_body, theme_colors_value, Color};
use crate::error::error_message;
use crate::tree::{finite_below, leaves, leaves_from};
use crate::book::{blocks, find_from, rewritten};
use crate::markup::with_attr;
use crate::text::{decimal, digit_char};
use crate::state::{count_initial, has_name, names_state, state_node_value, state_value, transition_value};
use crate::model::{StateRole, SpecStateTransition};
use crate::raw::{SpecRawStateDiagram, SpecRawStateNode, SpecRawStateTransition};
use crate::comparison::{cell_key_check, column_labels, comparison_value, distinct, row_check, row_labels_of,
    row_model_cells};
use crate::raw::{SpecRawComparisonDiagram, SpecRawComparisonRow};
use crate::model::SpecComparisonCell;
use crate::matrix::{matrix_value, place_item, place_items, quadrant_item, quadrant_order};
use crate::model::SpecMatrixItem;
use crate::raw::{SpecRawMatrixDiagram, SpecRawMatrixItem, SpecRawQuadrant};
use crate::timeline::{event_key, insert_event, lex_le, normalized_date, sort_events, timeline_value};
use crate::model::SpecTimelineEvent;
use crate::raw::{SpecRawTimelineDiagram, SpecRawTimelineEvent};
use crate::timeline::{digits, julian_day, quot};
use crate::kinds::{flow_value, hub_spoke_value, tier_value, venn_value};
use crate::raw::{SpecRawHubSpokeDiagram, SpecRawVennDiagram};
use crate::model::FlowView;
use crate::raw::{SpecRawFlowDiagram, SpecRawFlowItem, SpecRawItem, SpecRawTierDiagram};
use crate::rules::{flow_item_value, item_value};
use crate::doc::{keys_within, DocEntry};
use crate::raw::{Decode, RawComparisonDiagram, RawFlowDiagram, RawHierarchyDiagram, RawHubSpokeDiagram,
    RawMatrixDiagram, RawStateDiagram, RawTierDiagram, RawTimelineDiagram, RawVennDiagram};
use crate::raw::{raw_comparison_diagram_keys, raw_flow_diagram_keys, raw_hierarchy_diagram_keys,
    raw_hub_spoke_diagram_keys, raw_matrix_diagram_keys, raw_state_diagram_keys, raw_tier_diagram_keys,
    raw_timeline_diagram_keys, raw_venn_diagram_keys};

verus! {

/// `all_ok` accepts a sequence only when `f` accepts every element, and then gives the
/// results in order.
pub proof fn lemma_all_ok_each<A, B>(s: Seq<A>, f: spec_fn(A) -> Result<B, SpecError>)
    requires
        all_ok(s, f) is Ok,
    ensures
        all_ok(s, f)->Ok_0.len() == s.len(),
        forall|i: int| 0 <= i < s.len() ==> #[trigger] f(s[i]) == Ok::<B, SpecError>(all_ok(s, f)->Ok_0[i]),
    decreases s.len(),
{
    if s.len() > 0 {
        lemma_all_ok_each(s.drop_first(), f);
        let bs = all_ok(s, f)->Ok_0;
        let rest = all_ok(s.drop_first(), f)->Ok_0;
        assert forall|i: int| 0 <= i < s.len() implies #[trigger] f(s[i]) == Ok::<B, SpecError>(bs[i]) by {
            if i > 0 {
                assert(s[i] == s.drop_first()[i - 1]);
                assert(bs[i] == rest[i - 1]);
            }
        }
    }
}

/// TOML and JSON are two spellings of one declaration: the same document is accepted in
/// either, as the same diagram, or refused in both.
pub proof fn lemma_formats_agree(doc: DocValue)
    ensures
        declaration_value(doc, false) is Ok <==> declaration_value(doc, true) is Ok,
        declaration_value(doc, false) is Ok ==> declaration_value(doc, false) == declaration_value(doc, true),
{
}

/// Every top-level field that some kind defines.
pub open spec fn known_fields() -> Seq<Seq<char>> {
    seq!["kind"@, "view"@, "title"@, "items"@, "x_axis"@, "y_axis"@, "quadrants"@, "center"@,
        "spokes"@, "sets"@, "intersections"@, "events"@, "effect"@, "nodes"@, "rows"@, "columns"@,
        "states"@, "transitions"@]
}

proof fn lemma_not_listed(key: Seq<char>)
    requires
        !known_fields().contains(key),
    ensures
        key != "kind"@,
        key != "view"@,
        key != "title"@,
        key != "items"@,
        key != "x_axis"@,
        key != "y_axis"@,
        key != "quadrants"@,
        key != "center"@,
        key != "spokes"@,
        key != "sets"@,
        key != "intersections"@,
        key != "events"@,
        key != "effect"@,
        key != "nodes"@,
        key != "rows"@,
        key != "columns"@,
        key != "states"@,
        key != "transitions"@,
{
    let kf = known_fields();
    assert(kf[0] == "kind"@);
    assert(kf[1] == "view"@);
    assert(kf[2] == "title"@);
    assert(kf[3] == "items"@);
    assert(kf[4] == "x_axis"@);
    assert(kf[5] == "y_axis"@);
    assert(kf[6] == "quadrants"@);
    assert(kf[7] == "center"@);
    assert(kf[8] == "spokes"@);
    assert(kf[9] == "sets"@);
    assert(kf[10] == "intersections"@);
    assert(kf[11] == "events"@);
    assert(kf[12] == "effect"@);
    assert(kf[13] == "nodes"@);
    assert(kf[14] == "rows"@);
    assert(kf[15] == "columns"@);
    assert(kf[16] == "states"@);
    assert(kf[17] == "transitions"@);
}

proof fn lemma_unknown_not_within(es: Seq<DocEntry>, i: int, allowed: Seq<Seq<char>>)
    requires
        0 <= i < es.len(),
        !allowed.contains(es[i].key@),
    ensures
        !keys_within(es, allowed),
{
}

proof fn lemma_flow_refuses(es: Vec<DocEntry>, i: int)
    requires
        0 <= i < es@.len(),
        !known_fields().contains(es@[i].key@),
    ensures
        <RawFlowDiagram as Decode>::spec_decode(DocValue::Table(es)) is None,
{
    lemma_not_listed(es@[i].key@);
    assert(!raw_flow_diagram_keys().contains(es@[i].key@));
    lemma_unknown_not_within(es@, i, raw_flow_diagram_keys());
}

proof fn lemma_tier_refuses(es: Vec<DocEntry>, i: int)
    requires
        0 <= i < es@.len(),
        !known_fields().contains(es@[i].key@),
    ensures
        <RawTierDiagram as Decode>::spec_decode(DocValue::Table(es)) is None,
{
    lemma_not_listed(es@[i].key@);
    assert(!raw_tier_diagram_keys().contains(es@[i].key@));
    lemma_unknown_not_within(es@, i, raw_tier_diagram_keys());
}

proof fn lemma_hierarchy_refuses(es: Vec<DocEntry>, i: int)
    requires
        0 <= i < es@.len(),
        !known_fields().contains(es@[i].key@),
    ensures
        <RawHierarchyDiagram as Decode>::spec_decode(DocValue::Table(es)) is None,
{
    lemma_not_listed(es@[i].key@);
    assert(!raw_hierarchy_diagram_keys().contains(es@[i].key@));
    lemma_unknown_not_within(es@, i, raw_hierarchy_diagram_keys());
}

proof fn lemma_matrix_refuses(es: Vec<DocEntry>, i: int)
    requires
        0 <= i < es@.len(),
        !known_fields().contains(es@[i].key@),
    ensures
        <RawMatrixDiagram as Decode>::spec_decode(DocValue::Table(es)) is None,
{
    lemma_not_listed(es@[i].key@);
    assert(!raw_matrix_diagram_keys().contains(es@[i].key@));
    lemma_unknown_not_within(es@, i, raw_matrix_diagram_keys());
}

proof fn lemma_hub_spoke_refuses(es: Vec<DocEntry>, i: int)
    requires
        0 <= i < es@.len(),
        !known_fields().contains(es@[i].key@),
    ensures
        <RawHubSpokeDiagram as Decode>::spec_decode(DocValue::Table(es)) is None,
{
    lemma_not_listed(es@[i].key@);
    assert(!raw_hub_spoke_diagram_keys().contains(es@[i].key@));
    lemma_unknown_not_within(es@, i, raw_hub_spoke_diagram_keys());
}

proof fn lemma_venn_refuses(es: Vec<DocEntry>, i: int)
    requires
        0 <= i < es@.len(),
        !known_fields().contains(es@[i].key@),
    ensures
        <RawVennDiagram as Decode>::spec_decode(DocValue::Table(es)) is None,
{
    lemma_not_listed(es@[i].key@);
    assert(!raw_venn_diagram_keys().contains(es@[i].key@));
    lemma_unknown_not_within(es@, i, raw_venn_diagram_keys());
}

proof fn lemma_timeline_refuses(es: Vec<DocEntry>, i: int)
    requires
        0 <= i < es@.len(),
        !known_fields().contains(es@[i].key@),
    ensures
        <RawTimelineDiagram as Decode>::spec_decode(DocValue::Table(es)) is None,
{
    lemma_not_listed(es@[i].key@);
    assert(!raw_timeline_diagram_keys().contains(es@[i].key@));
    lemma_unknown_not_within(es@, i, raw_timeline_diagram_keys());
}

proof fn lemma_comparison_refuses(es: Vec<DocEntry>, i: int)
    requires
        0 <= i < es@.len(),
        !known_fields().contains(es@[i].key@),
    ensures
        <RawComparisonDiagram as Decode>::spec_decode(DocValue::Table(es)) is None,
{
    lemma_not_listed(es@[i].key@);
    assert(!raw_comparison_diagram_keys().contains(es@[i].key@));
    lemma_unknown_not_within(es@, i, raw_comparison_diagram_keys());
}

proof fn lemma_state_refuses(es: Vec<DocEntry>, i: int)
    requires
        0 <= i < es@.len(),
        !known_fields().contains(es@[i].key@),
    ensures
        <RawStateDiagram as Decode>::spec_decode(DocValue::Table(es)) is None,
{
    lemma_not_listed(es@[i].key@);
    assert(!raw_state_diagram_keys().contains(es@[i].key@));
    lemma_unknown_not_within(es@, i, raw_state_diagram_keys());
}

/// A top-level field that no kind defines (`color`, `x`, `width`, `style`, ...) makes every
/// declaration that carries it fail, whatever its kind and format.
pub proof fn lemma_unknown_field_refused(es: Vec<DocEntry>, json: bool, i: int)
    requires
        0 <= i < es@.len(),
        !known_fields().contains(es@[i].key@),
    ensures
        declaration_value(DocValue::Table(es), json) is Err,
{
    lemma_flow_refuses(es, i);
    lemma_tier_refuses(es, i);
    lemma_hierarchy_refuses(es, i);
    lemma_matrix_refuses(es, i);
    lemma_hub_spoke_refuses(es, i);
    lemma_venn_refuses(es, i);
    lemma_timeline_refuses(es, i);
    lemma_comparison_refuses(es, i);
    lemma_state_refuses(es, i);
}

/// An accepted flow keeps the declared items, in the declared order, and at least one of
/// them; cycles and funnels have two or more, funnels at most ten; in a swimlane every item
/// has a non-empty actor and not all items share one.
pub proof fn lemma_accepted_flow(raw: SpecRawFlowDiagram)
    requires
        flow_value(raw) is Ok,
    ensures
        flow_value(raw)->Ok_0 matches SpecDiagram::Flow(d) && {
            &&& d.items.len() == raw.items.len() >= 1
            &&& forall|i: int| 0 <= i < d.items.len() ==> (#[trigger] d.items[i]).label == raw.items[i].label
                && d.items[i].actor == raw.items[i].actor
            &&& (d.view == FlowView::Cycle || d.view == FlowView::Funnel) ==> d.items.len() >= 2
            &&& d.view == FlowView::Funnel ==> d.items.len() <= 10
            &&& d.view == FlowView::Swimlane ==> {
                &&& forall|i: int| 0 <= i < d.items.len() ==> (#[trigger] d.items[i]).actor is Some && d.items[i].actor->Some_0.len() > 0
                &&& exists|i: int, j: int| 0 <= i < d.items.len() && 0 <= j < d.items.len()
                    && #[trigger] d.items[i].actor != #[trigger] d.items[j].actor
            }
        },
{
    let f = |x: SpecRawFlowItem| flow_item_value(x);
    lemma_all_ok_each(raw.items, f);
    let d = flow_value(raw)->Ok_0->Flow_0;
    assert forall|i: int| 0 <= i < d.items.len() implies (#[trigger] d.items[i]).label == raw.items[i].label
        && d.items[i].actor == raw.items[i].actor by {
        assert(f(raw.items[i]) == Ok::<crate::model::SpecFlowItem, SpecError>(d.items[i]));
    }
    if d.view == FlowView::Swimlane {
        assert forall|i: int| 0 <= i < d.items.len() implies (#[trigger] d.items[i]).actor is Some && d.items[i].actor->Some_0.len() > 0 by {
            assert(crate::kinds::has_actor(raw.items[i]));
        }
        assert(!crate::kinds::one_actor(raw.items));
        let (i, j) = choose|i: int, j: int| 0 <= i < raw.items.len() && 0 <= j < raw.items.len()
            && raw.items[i].actor != raw.items[j].actor;
        assert(d.items[i].actor != d.items[j].actor);
    }
}

/// An accepted tier keeps the declared layers, in the declared order, and at least one.
pub proof fn lemma_accepted_tier(raw: SpecRawTierDiagram)
    requires
        tier_value(raw) is Ok,
    ensures
        tier_value(raw)->Ok_0 matches SpecDiagram::Tier(d) && {
            &&& d.items.len() == raw.items.len() >= 1
            &&& forall|i: int| 0 <= i < d.items.len() ==> (#[trigger] d.items[i]).label == raw.items[i].label
        },
{
    let f = |x: SpecRawItem| item_value(x);
    lemma_all_ok_each(raw.items, f);
    let d = tier_value(raw)->Ok_0->Tier_0;
    assert forall|i: int| 0 <= i < d.items.len() implies (#[trigger] d.items[i]).label == raw.items[i].label by {
        assert(f(raw.items[i]) == Ok::<crate::model::SpecItem, SpecError>(d.items[i]));
    }
}

/// An accepted hub-and-spoke diagram has at least two spokes, the declared ones in order.
pub proof fn lemma_accepted_hub_spoke(raw: SpecRawHubSpokeDiagram)
    requires
        hub_spoke_value(raw) is Ok,
    ensures
        hub_spoke_value(raw)->Ok_0 matches SpecDiagram::HubSpoke(d) && {
            &&& d.spokes.len() == raw.spokes.len() >= 2
            &&& forall|i: int| 0 <= i < d.spokes.len() ==> (#[trigger] d.spokes[i]).label == raw.spokes[i].label
        },
{
    let f = |x: SpecRawItem| item_value(x);
    lemma_all_ok_each(raw.spokes, f);
    let d = hub_spoke_value(raw)->Ok_0->HubSpoke_0;
    assert forall|i: int| 0 <= i < d.spokes.len() implies (#[trigger] d.spokes[i]).label == raw.spokes[i].label by {
        assert(f(raw.spokes[i]) == Ok::<crate::model::SpecItem, SpecError>(d.spokes[i]));
    }
}

/// An accepted Venn diagram has two or three sets.
pub proof fn lemma_accepted_venn(raw: SpecRawVennDiagram)
    requires
        venn_value(raw) is Ok,
    ensures
        venn_value(raw)->Ok_0 matches SpecDiagram::Venn(d) && 2 <= d.sets.len() <= 3,
{
}

/// Whether a hierarchy node names `p` as its id or its label.
pub open spec fn node_named(n: SpecHierarchyNode, p: Seq<char>) -> bool {
    n.id == Some(p) || n.label == p
}

/// The number of nodes of an accepted hierarchy without a parent.
pub open spec fn roots_of(nodes: Seq<SpecHierarchyNode>) -> nat
    decreases nodes.len(),
{
    if nodes.len() == 0 {
        0
    } else {
        roots_of(nodes.drop_last()) + if nodes.last().parent is None { 1nat } else { 0nat }
    }
}

proof fn lemma_roots_of(raw: Seq<SpecRawHierarchyNode>, nodes: Seq<SpecHierarchyNode>)
    requires
        nodes.len() == raw.len(),
        forall|i: int| 0 <= i < raw.len() ==> (#[trigger] nodes[i]).parent == raw[i].parent,
    ensures
        roots_of(nodes) == count_roots(raw),
    decreases raw.len(),
{
    if raw.len() > 0 {
        lemma_roots_of(raw.drop_last(), nodes.drop_last());
        assert(nodes.last().parent == raw.last().parent);
    }
}

/// An accepted hierarchy is a well-formed set of nodes: there is at least one; no two share
/// a label or an id; each parent names another node, by id or by label; some node is a
/// root; org charts and mind maps have exactly one root, and fishbones two to twenty.
pub proof fn lemma_accepted_hierarchy(raw: SpecRawHierarchyDiagram)
    requires
        hierarchy_value(raw) is Ok,
    ensures
        hierarchy_value(raw)->Ok_0 matches SpecDiagram::Hierarchy(d) && {
            let n = d.nodes;
            &&& n.len() > 0
            &&& forall|i: int, j: int| 0 <= i < j < n.len() ==> #[trigger] n[i].label != #[trigger] n[j].label
            &&& forall|i: int, j: int| 0 <= i < j < n.len() && (#[trigger] n[i]).id is Some
                && (#[trigger] n[j]).id is Some ==> n[i].id != n[j].id
            &&& forall|i: int| 0 <= i < n.len() && (#[trigger] n[i]).parent is Some ==> {
                let p = n[i].parent->Some_0;
                &&& exists|j: int| 0 <= j < n.len() && #[trigger] node_named(n[j], p)
                &&& !node_named(n[i], p)
            }
            &&& roots_of(n) >= 1
            &&& (d.view == HierarchyView::OrgChart || d.view == HierarchyView::MindMap) ==> roots_of(n) == 1
            &&& d.view == HierarchyView::Fishbone ==> 2 <= roots_of(n) <= 20
        },
{
    let nodes = raw.nodes;
    let f = |x: SpecRawHierarchyNode| parent_check(nodes, x);
    lemma_all_ok_each(nodes, f);
    let d = hierarchy_value(raw)->Ok_0->Hierarchy_0;
    let n = d.nodes;
    assert forall|i: int| 0 <= i < n.len() implies #[trigger] n[i] == crate::hierarchy::node_value(nodes[i]) by {}
    assert forall|i: int| 0 <= i < n.len() && (#[trigger] n[i]).parent is Some implies {
        let p = n[i].parent->Some_0;
        &&& exists|j: int| 0 <= j < n.len() && #[trigger] node_named(n[j], p)
        &&& !node_named(n[i], p)
    } by {
        let p = n[i].parent->Some_0;
        assert(f(nodes[i]) is Ok);
        assert(crate::hierarchy::names_node(nodes, p));
        let j = choose|j: int| 0 <= j < nodes.len() && (#[trigger] nodes[j].id == Some(p) || nodes[j].label == p);
        assert(n[j] == crate::hierarchy::node_value(nodes[j]));
        assert(node_named(n[j], p));
    }
    lemma_roots_of(nodes, n);
}

/// Drawing an accepted hierarchy as a chart, each node's parent becomes the label of a
/// node of the hierarchy: every connector finds the node it hangs from.
pub proof fn lemma_chart_parents_found(raw: SpecRawHierarchyDiagram, i: int)
    requires
        hierarchy_value(raw) is Ok,
        hierarchy_value(raw)->Ok_0 matches SpecDiagram::Hierarchy(d) && 0 <= i < d.nodes.len()
            && d.nodes[i].parent is Some,
    ensures
        hierarchy_value(raw)->Ok_0 matches SpecDiagram::Hierarchy(d) && exists|j: int|
            0 <= j < d.nodes.len() && #[trigger] d.nodes[j].label
                == parent_label(d.nodes, d.nodes[i].parent->Some_0),
{
    lemma_accepted_hierarchy(raw);
    let d = hierarchy_value(raw)->Ok_0->Hierarchy_0;
    let n = d.nodes;
    let p = n[i].parent->Some_0;
    lemma_label_for_id(n, p, 0);
    match label_for_id(n, p, 0) {
        Some(l) => {
            let j = choose|j: int| 0 <= j < n.len() && n[j].id == Some(p) && n[j].label == l;
            assert(n[j].label == parent_label(n, p));
        },
        None => {
            let j = choose|j: int| 0 <= j < n.len() && #[trigger] node_named(n[j], p);
            assert(n[j].id != Some(p));
            assert(n[j].label == p);
            assert(n[j].label == parent_label(n, p));
        },
    }
}

proof fn lemma_label_for_id(n: Seq<SpecHierarchyNode>, p: Seq<char>, from: int)
    requires
        0 <= from,
    ensures
        match label_for_id(n, p, from) {
            Some(l) => exists|j: int| from <= j < n.len() && n[j].id == Some(p) && n[j].label == l,
            None => forall|j: int| from <= j < n.len() ==> n[j].id != Some(p),
        },
    decreases n.len() - from,
{
    if from < n.len() && n[from].id != Some(p) {
        lemma_label_for_id(n, p, from + 1);
    }
}

/// The number of states whose role is initial.
pub open spec fn initial_states(states: Seq<SpecStateNode>) -> nat
    decreases states.len(),
{
    if states.len() == 0 {
        0
    } else {
        initial_states(states.drop_last()) + if states.last().role == Some(StateRole::Initial) { 1nat } else { 0nat }
    }
}

proof fn lemma_initial_states(raw: Seq<SpecRawStateNode>, nodes: Seq<SpecStateNode>)
    requires
        nodes.len() == raw.len(),
        forall|i: int| 0 <= i < raw.len() ==> state_node_value(raw[i]) == Ok::<SpecStateNode, SpecError>(#[trigger] nodes[i]),
    ensures
        initial_states(nodes) == count_initial(raw),
    decreases raw.len(),
{
    if raw.len() > 0 {
        let k = raw.len() - 1;
        assert(state_node_value(raw[k]) == Ok::<SpecStateNode, SpecError>(nodes[k]));
        assert forall|i: int| 0 <= i < raw.drop_last().len() implies state_node_value(raw.drop_last()[i])
            == Ok::<SpecStateNode, SpecError>(#[trigger] nodes.drop_last()[i]) by {
            assert(state_node_value(raw[i]) == Ok::<SpecStateNode, SpecError>(nodes[i]));
        }
        lemma_initial_states(raw.drop_last(), nodes.drop_last());
    }
}

proof fn lemma_index_by_id(states: Seq<SpecStateNode>, key: Seq<char>, from: int)
    requires
        0 <= from,
    ensures
        index_by_id(states, key, from) is None ==> forall|j: int| from <= j < states.len() ==> states[j].id != Some(key),
    decreases states.len() - from,
{
    if from < states.len() && states[from].id != Some(key) {
        lemma_index_by_id(states, key, from + 1);
    }
}

proof fn lemma_index_by_label(states: Seq<SpecStateNode>, key: Seq<char>, from: int)
    requires
        0 <= from,
    ensures
        index_by_label(states, key, from) is None ==> forall|j: int| from <= j < states.len() ==> states[j].label != key,
    decreases states.len() - from,
{
    if from < states.len() && states[from].label != key {
        lemma_index_by_label(states, key, from + 1);
    }
}

/// A name that some state carries as its label or id finds a state.
proof fn lemma_named_state_found(states: Seq<SpecStateNode>, key: Seq<char>, j: int)
    requires
        0 <= j < states.len(),
        states[j].label == key || states[j].id == Some(key),
    ensures
        state_index(states, key) is Some,
{
    lemma_index_by_id(states, key, 0);
    lemma_index_by_label(states, key, 0);
}

/// An accepted state diagram has at least two states, no two with the same id, no state
/// without an id sharing its label with another state, at most one initial state, and each transition's ends find their states when drawn.
pub proof fn lemma_accepted_state(raw: SpecRawStateDiagram)
    requires
        state_value(raw) is Ok,
    ensures
        state_value(raw)->Ok_0 matches SpecDiagram::State(d) && {
            &&& d.states.len() >= 2
            &&& forall|i: int, j: int| 0 <= i < j < d.states.len()
                && ((#[trigger] d.states[i]).id is None || (#[trigger] d.states[j]).id is None)
                ==> d.states[i].label != d.states[j].label
            &&& forall|i: int, j: int| 0 <= i < j < d.states.len() && (#[trigger] d.states[i]).id is Some
                && (#[trigger] d.states[j]).id is Some ==> d.states[i].id != d.states[j].id
            &&& initial_states(d.states) <= 1
            &&& forall|t: int| 0 <= t < d.transitions.len() ==> state_index(d.states, (#[trigger] d.transitions[t]).from) is Some
                && state_index(d.states, d.transitions[t].to) is Some
        },
{
    let states = raw.states;
    let fs = |s: SpecRawStateNode| state_node_value(s);
    let ft = |t: SpecRawStateTransition| transition_value(states, t);
    lemma_all_ok_each(states, fs);
    lemma_all_ok_each(raw.transitions, ft);
    let d = state_value(raw)->Ok_0->State_0;
    assert forall|i: int| 0 <= i < states.len() implies state_node_value(states[i])
        == Ok::<SpecStateNode, SpecError>(#[trigger] d.states[i]) by {
        assert(fs(states[i]) == Ok::<SpecStateNode, SpecError>(d.states[i]));
    }
    lemma_initial_states(states, d.states);
    assert forall|t: int| 0 <= t < d.transitions.len() implies state_index(d.states, (#[trigger] d.transitions[t]).from) is Some
        && state_index(d.states, d.transitions[t].to) is Some by {
        let tr = raw.transitions[t];
        assert(ft(tr) == Ok::<SpecStateTransition, SpecError>(d.transitions[t]));
        assert(names_state(states, tr.from));
        assert(names_state(states, tr.to));
        let a = choose|j: int| 0 <= j < states.len() && #[trigger] has_name(states[j], tr.from);
        let b = choose|j: int| 0 <= j < states.len() && #[trigger] has_name(states[j], tr.to);
        assert(state_node_value(states[a]) == Ok::<SpecStateNode, SpecError>(d.states[a]));
        assert(state_node_value(states[b]) == Ok::<SpecStateNode, SpecError>(d.states[b]));
        lemma_named_state_found(d.states, tr.from, a);
        lemma_named_state_found(d.states, tr.to, b);
    }
}

/// The cells of all rows, row by row.
pub open spec fn table_cells(rows: Seq<SpecRawComparisonRow>) -> Seq<SpecComparisonCell> {
    rows.map_values(|r: SpecRawComparisonRow| row_model_cells(r)).flatten()
}

proof fn lemma_flatten_cells(rows: Seq<SpecRawComparisonRow>, labels: Seq<Seq<char>>)
    requires
        forall|i: int| 0 <= i < rows.len() ==> (#[trigger] row_check(labels, rows[i])) is Ok,
    ensures
        forall|c: int| 0 <= c < table_cells(rows).len() ==> labels.contains((#[trigger] table_cells(rows)[c]).column)
            && row_labels_of(rows).contains(table_cells(rows)[c].row),
    decreases rows.len(),
{
    if rows.len() > 0 {
        let first = rows[0];
        let rest = rows.drop_first();
        assert forall|i: int| 0 <= i < rest.len() implies (#[trigger] row_check(labels, rest[i])) is Ok by {
            assert(row_check(labels, rows[i + 1]) is Ok);
        }
        lemma_flatten_cells(rest, labels);
        let m = rows.map_values(|r: SpecRawComparisonRow| row_model_cells(r));
        let mr = rest.map_values(|r: SpecRawComparisonRow| row_model_cells(r));
        assert(m =~= seq![row_model_cells(first)] + mr);
        assert(m.drop_first() =~= mr);
        assert(m.flatten() == m[0] + m.drop_first().flatten());
        let g = |c: (Seq<char>, Seq<char>)| cell_key_check(labels, c);
        assert(row_check(labels, rows[0]) is Ok);
        lemma_all_ok_each(first.cells, g);
        let labs = rows.map_values(|r: SpecRawComparisonRow| r.label);
        let rlabs = rest.map_values(|r: SpecRawComparisonRow| r.label);
        assert(table_cells(rest) == mr.flatten());
        assert(row_labels_of(rest) == rlabs);
        assert forall|c: int| 0 <= c < m.flatten().len() implies labels.contains((#[trigger] m.flatten()[c]).column)
            && labs.contains(m.flatten()[c].row) by {
            let cell = m.flatten()[c];
            if c < m[0].len() {
                assert(cell == row_model_cells(first)[c]);
                assert(g(first.cells[c]) is Ok);
                assert(labs[0] == first.label);
            } else {
                assert(cell == mr.flatten()[c - m[0].len()]);
                assert(cell == table_cells(rest)[c - m[0].len()]);
                let k = choose|k: int| 0 <= k < rlabs.len() && rlabs[k] == cell.row;
                assert(labs[k + 1] == rlabs[k]);
            }
        }
    }
}

/// An accepted comparison has one to ten rows and one to eight columns, none of them
/// called `label`, no two rows and no two columns of the same label, and each cell belongs to
/// a declared row and a declared column. The model keeps the title, the row labels and the
/// column labels in declared order, and the cells of each row in declared order, row by row.
pub proof fn lemma_accepted_comparison(raw: SpecRawComparisonDiagram)
    requires
        comparison_value(raw) is Ok,
    ensures
        comparison_value(raw)->Ok_0 matches SpecDiagram::Comparison(d) && {
            &&& 1 <= d.rows.len() <= 10
            &&& 1 <= d.columns.len() <= 8
            &&& !d.columns.contains("label"@)
            &&& distinct(d.rows) && distinct(d.columns)
            &&& forall|c: int| 0 <= c < d.cells.len() ==> d.columns.contains((#[trigger] d.cells[c]).column)
                && d.rows.contains(d.cells[c].row)
            &&& d.title == raw.title
            &&& d.rows == row_labels_of(raw.rows)
            &&& d.columns == column_labels(raw.columns)
            &&& d.cells == table_cells(raw.rows)
        },
{
    let labels = column_labels(raw.columns);
    let f = |r: SpecRawComparisonRow| row_check(labels, r);
    lemma_all_ok_each(raw.rows, f);
    assert forall|i: int| 0 <= i < raw.rows.len() implies (#[trigger] row_check(labels, raw.rows[i])) is Ok by {
        assert(f(raw.rows[i]) is Ok);
    }
    lemma_flatten_cells(raw.rows, labels);
    assert(table_cells(raw.rows) == raw.rows.map_values(|r: SpecRawComparisonRow| row_model_cells(r)).flatten());
}

/// How many of the items sit in quadrant `q`.
pub open spec fn in_quadrant(items: Seq<SpecMatrixItem>, q: nat) -> nat
    decreases items.len(),
{
    if items.len() == 0 {
        0
    } else {
        (if items[0].quadrant == q { 1nat } else { 0nat }) + in_quadrant(items.drop_first(), q)
    }
}

proof fn lemma_place_items(items: Seq<SpecRawMatrixItem>, counts: Seq<nat>)
    requires
        counts.len() == 4,
        forall|q: int| 0 <= q < 4 ==> #[trigger] counts[q] <= 6,
        place_items(items, counts) is Ok,
    ensures
        place_items(items, counts)->Ok_0.len() == items.len(),
        forall|k: int| 0 <= k < items.len() ==> (#[trigger] place_items(items, counts)->Ok_0[k]).quadrant < 4,
        forall|q: nat| q < 4 ==> counts[q as int] + #[trigger] in_quadrant(place_items(items, counts)->Ok_0, q) <= 6,
    decreases items.len(),
{
    if items.len() > 0 {
        let (next, mi) = place_item(counts, items[0])->Ok_0;
        let s = mi.quadrant;
        assert(s < 4);
        assert forall|q: int| 0 <= q < 4 implies #[trigger] next[q] <= 6 by {
            if q == s as int {
            } else {
                assert(next[q] == counts[q]);
            }
        }
        lemma_place_items(items.drop_first(), next);
        let rest = place_items(items.drop_first(), next)->Ok_0;
        let out = place_items(items, counts)->Ok_0;
        assert(out == seq![mi] + rest);
        assert(out.drop_first() =~= rest);
        assert forall|k: int| 0 <= k < items.len() implies (#[trigger] out[k]).quadrant < 4 by {
            if k > 0 {
                assert(out[k] == rest[k - 1]);
            }
        }
        assert forall|q: nat| q < 4 implies counts[q as int] + #[trigger] in_quadrant(out, q) <= 6 by {
            assert(in_quadrant(out, q) == (if mi.quadrant == q { 1nat } else { 0nat }) + in_quadrant(rest, q));
            assert(next[q as int] + in_quadrant(rest, q) <= 6);
            if q != s {
                assert(next[q as int] == counts[q as int]);
            }
        }
    }
}

/// An accepted matrix has exactly four quadrants; each item sits in one of them, and no
/// quadrant holds more than six items.
pub proof fn lemma_accepted_matrix(raw: SpecRawMatrixDiagram)
    requires
        matrix_value(raw) is Ok,
    ensures
        matrix_value(raw)->Ok_0 matches SpecDiagram::Matrix(d) && {
            &&& d.quadrants.len() == 4
            &&& forall|k: int| 0 <= k < d.items.len() ==> (#[trigger] d.items[k]).quadrant < 4
            &&& forall|q: nat| q < 4 ==> #[trigger] in_quadrant(d.items, q) <= 6
        },
{
    if !crate::matrix::has_positions(raw.quadrants) {
        lemma_all_ok_each(raw.quadrants, |q: SpecRawQuadrant| quadrant_item(q));
    }
    let zeros = seq![0nat, 0nat, 0nat, 0nat];
    lemma_place_items(raw.items, zeros);
    let d = matrix_value(raw)->Ok_0->Matrix_0;
    assert forall|q: nat| q < 4 implies #[trigger] in_quadrant(d.items, q) <= 6 by {
        assert(zeros[q as int] + in_quadrant(d.items, q) <= 6);
    }
}

proof fn lemma_lex_refl(a: Seq<char>)
    ensures
        lex_le(a, a),
    decreases a.len(),
{
    if a.len() > 0 {
        lemma_lex_refl(a.drop_first());
    }
}

proof fn lemma_lex_total(a: Seq<char>, b: Seq<char>)
    ensures
        lex_le(a, b) || lex_le(b, a),
    decreases a.len(),
{
    if a.len() > 0 && b.len() > 0 {
        if a[0] == b[0] {
            lemma_lex_total(a.drop_first(), b.drop_first());
        }
    }
}

proof fn lemma_lex_trans(a: Seq<char>, b: Seq<char>, c: Seq<char>)
    requires
        lex_le(a, b),
        lex_le(b, c),
    ensures
        lex_le(a, c),
    decreases a.len(),
{
    if a.len() > 0 && b.len() > 0 && c.len() > 0 && a[0] == b[0] && b[0] == c[0] {
        lemma_lex_trans(a.drop_first(), b.drop_first(), c.drop_first());
    }
}

/// The events are in date order.
pub open spec fn date_sorted(evs: Seq<SpecTimelineEvent>) -> bool {
    forall|i: int, j: int| 0 <= i < j < evs.len()
        ==> lex_le(event_key(#[trigger] evs[i]), event_key(#[trigger] evs[j]))
}

proof fn lemma_insert_event(s: Seq<SpecTimelineEvent>, e: SpecTimelineEvent)
    requires
        date_sorted(s),
    ensures
        date_sorted(insert_event(s, e)),
        insert_event(s, e).to_multiset() =~= s.to_multiset().insert(e),
    decreases s.len(),
{
    broadcast use vstd::seq_lib::group_to_multiset_ensures;

    if s.len() == 0 || lex_le(event_key(s.last()), event_key(e)) {
        let r = s.push(e);
        assert forall|i: int, j: int| 0 <= i < j < r.len()
            implies lex_le(event_key(#[trigger] r[i]), event_key(#[trigger] r[j])) by {
            if j == s.len() {
                if i < s.len() - 1 {
                    assert(lex_le(event_key(s[i]), event_key(s[s.len() - 1])));
                } else {
                    lemma_lex_refl(event_key(s[i]));
                }
                lemma_lex_trans(event_key(s[i]), event_key(s.last()), event_key(e));
            } else {
                assert(r[i] == s[i] && r[j] == s[j]);
            }
        }
    } else {
        let p = s.drop_last();
        let last = s.last();
        assert(date_sorted(p)) by {
            assert forall|i: int, j: int| 0 <= i < j < p.len()
                implies lex_le(event_key(#[trigger] p[i]), event_key(#[trigger] p[j])) by {
                assert(p[i] == s[i] && p[j] == s[j]);
            }
        }
        lemma_insert_event(p, e);
        let q = insert_event(p, e);
        lemma_lex_total(event_key(last), event_key(e));
        assert forall|k: int| 0 <= k < q.len() implies lex_le(event_key(#[trigger] q[k]), event_key(last)) by {
            let x = q[k];
            assert(q.to_multiset().count(x) > 0);
            assert(p.to_multiset().insert(e).count(x) > 0);
            if x != e {
                assert(p.to_multiset().count(x) > 0);
                assert(p.contains(x));
                let m = choose|m: int| 0 <= m < p.len() && p[m] == x;
                assert(s[m] == x);
                assert(lex_le(event_key(s[m]), event_key(s[s.len() - 1])));
            }
        }
        let r = q.push(last);
        assert forall|i: int, j: int| 0 <= i < j < r.len()
            implies lex_le(event_key(#[trigger] r[i]), event_key(#[trigger] r[j])) by {
            if j == q.len() {
                assert(r[i] == q[i]);
            } else {
                assert(r[i] == q[i] && r[j] == q[j]);
            }
        }
        assert(p.push(last) =~= s);
    }
}

proof fn lemma_sort_events(evs: Seq<SpecTimelineEvent>)
    ensures
        date_sorted(sort_events(evs)),
        sort_events(evs).to_multiset() =~= evs.to_multiset(),
    decreases evs.len(),
{
    broadcast use vstd::seq_lib::group_to_multiset_ensures;

    if evs.len() > 0 {
        lemma_sort_events(evs.drop_last());
        lemma_insert_event(sort_events(evs.drop_last()), evs.last());
        assert(evs.drop_last().push(evs.last()) =~= evs);
    }
}

/// The events whose date completes to `k`, in the order they come.
pub open spec fn with_key(s: Seq<SpecTimelineEvent>, k: Seq<char>) -> Seq<SpecTimelineEvent>
    decreases s.len(),
{
    if s.len() == 0 {
        Seq::empty()
    } else if event_key(s.last()) == k {
        with_key(s.drop_last(), k).push(s.last())
    } else {
        with_key(s.drop_last(), k)
    }
}

proof fn lemma_insert_keeps_ties(s: Seq<SpecTimelineEvent>, e: SpecTimelineEvent, k: Seq<char>)
    ensures
        with_key(insert_event(s, e), k) == if event_key(e) == k { with_key(s, k).push(e) } else { with_key(s, k) },
    decreases s.len(),
{
    if s.len() == 0 || lex_le(event_key(s.last()), event_key(e)) {
        assert(s.push(e).drop_last() =~= s);
    } else {
        let p = s.drop_last();
        let last = s.last();
        lemma_insert_keeps_ties(p, e, k);
        lemma_lex_refl(event_key(e));
        assert(event_key(last) != event_key(e));
        let q = insert_event(p, e);
        assert(q.push(last).drop_last() =~= q);
        assert(with_key(insert_event(s, e), k) == if event_key(last) == k { with_key(q, k).push(last) } else { with_key(q, k) });
    }
}

proof fn lemma_sort_keeps_ties(evs: Seq<SpecTimelineEvent>, k: Seq<char>)
    ensures
        with_key(sort_events(evs), k) == with_key(evs, k),
    decreases evs.len(),
{
    if evs.len() > 0 {
        lemma_sort_keeps_ties(evs.drop_last(), k);
        lemma_insert_keeps_ties(sort_events(evs.drop_last()), evs.last(), k);
    }
}

proof fn lemma_event_dates(raw: Seq<SpecRawTimelineEvent>, evs: Seq<SpecTimelineEvent>, out: Seq<SpecTimelineEvent>)
    requires
        crate::timeline::dates_valid(raw),
        evs.len() == raw.len(),
        forall|m: int| 0 <= m < raw.len() ==> (#[trigger] evs[m]).date == raw[m].date,
        out.to_multiset() =~= evs.to_multiset(),
    ensures
        forall|k: int| 0 <= k < out.len() ==> (#[trigger] normalized_date(out[k].date)) is Some,
{
    broadcast use vstd::seq_lib::group_to_multiset_ensures;

    assert forall|k: int| 0 <= k < out.len() implies (#[trigger] normalized_date(out[k].date)) is Some by {
        let x = out[k];
        assert(out.to_multiset().count(x) > 0);
        assert(evs.contains(x));
        let m = choose|m: int| 0 <= m < evs.len() && evs[m] == x;
        assert(normalized_date(raw[m].date) is Some);
    }
}

/// The declared events of a timeline as model events.
pub open spec fn declared_events(raw: SpecRawTimelineDiagram) -> Seq<SpecTimelineEvent> {
    raw.events.map_values(|e: SpecRawTimelineEvent| SpecTimelineEvent { date: e.date, label: e.label })
}

/// An accepted timeline holds its events in date order (by each date completed to
/// `YYYY-MM-DD`), the same events that were declared, each with a valid date; events of the
/// same date keep the order they were declared in.
pub proof fn lemma_accepted_timeline(raw: SpecRawTimelineDiagram)
    requires
        timeline_value(raw) is Ok,
    ensures
        timeline_value(raw)->Ok_0 matches SpecDiagram::Timeline(d) && {
            &&& d.events.len() >= 2
            &&& date_sorted(d.events)
            &&& d.events.to_multiset() =~= declared_events(raw).to_multiset()
            &&& forall|k: int| 0 <= k < d.events.len() ==> (#[trigger] normalized_date(d.events[k].date)) is Some
            &&& forall|key: Seq<char>| #[trigger] with_key(d.events, key) == with_key(declared_events(raw), key)
        },
{
    let evs = declared_events(raw);
    assert forall|key: Seq<char>| #[trigger] with_key(sort_events(evs), key) == with_key(evs, key) by {
        lemma_sort_keeps_ties(evs, key);
    }
    assert(crate::timeline::dates_valid(raw.events));
    assert(timeline_value(raw)->Ok_0 == SpecDiagram::Timeline(crate::model::SpecTimelineDiagram {
        title: raw.title,
        events: sort_events(evs),
    }));
    lemma_sort_events(evs);
    lemma_event_dates(raw.events, evs, sort_events(evs));
    broadcast use vstd::seq_lib::group_to_multiset_ensures;
    assert(sort_events(evs).to_multiset().len() == evs.to_multiset().len());
}

/// The value of the first `prefix` attribute: the text after `prefix` up to the next `"`.
pub open spec fn attr_value(svg: Seq<char>, prefix: Seq<char>) -> Option<Seq<char>> {
    match find_from(svg, prefix, 0) {
        None => None,
        Some(s) => {
            let a = s + prefix.len();
            match find_from(svg.skip(a), seq!['"'], 0) {
                None => None,
                Some(e) => Some(svg.subrange(a, a + e)),
            }
        },
    }
}

/// The `len` characters of `h` from position `j`.
pub open spec fn window(h: Seq<char>, j: int, len: int) -> Seq<char> {
    h.subrange(j, j + len)
}

proof fn lemma_find_from_facts(h: Seq<char>, n: Seq<char>, from: int)
    requires
        0 <= from,
    ensures
        match find_from(h, n, from) {
            Some(i) => from <= i && i + n.len() <= h.len() && h.subrange(i, i + n.len()) == n
                && forall|j: int| from <= j < i ==> #[trigger] window(h, j, n.len() as int) != n,
            None => forall|j: int| from <= j && j + n.len() <= h.len() ==> #[trigger] window(h, j, n.len() as int) != n,
        },
    decreases h.len() + 1 - from,
{
    if from + n.len() <= h.len() && h.subrange(from, from + n.len()) != n {
        lemma_find_from_facts(h, n, from + 1);
        assert(window(h, from, n.len() as int) != n);
    }
}

/// Where a sequence begins with the first match of `n` in `h`, and agrees with `h` up to
/// its end, `n` is first found at the same place.
proof fn lemma_find_same_prefix(h: Seq<char>, g: Seq<char>, n: Seq<char>, i: int, from: int)
    requires
        0 <= from <= i,
        find_from(h, n, from) == Some(i),
        i + n.len() <= g.len(),
        g.take(i + n.len()) == h.take(i + n.len()),
    ensures
        find_from(g, n, from) == Some(i),
    decreases i - from,
{
    lemma_find_from_facts(h, n, from);
    assert(window(g, from, n.len() as int) =~= window(h, from, n.len() as int)) by {
        assert forall|k: int| 0 <= k < n.len() implies #[trigger] window(g, from, n.len() as int)[k]
            == window(h, from, n.len() as int)[k] by {
            assert(i + n.len() <= h.len());
            assert(g.take(i + n.len())[from + k] == h.take(i + n.len())[from + k]);
            assert(g[from + k] == g.take(i + n.len())[from + k]);
            assert(h[from + k] == h.take(i + n.len())[from + k]);
        }
    }
    if from < i {
        lemma_find_same_prefix(h, g, n, i, from + 1);
    }
}

proof fn lemma_decimal_digits(v: nat)
    ensures
        forall|k: int| 0 <= k < decimal(v).len() ==> #[trigger] decimal(v)[k] != '"',
        decimal(v).len() >= 1,
    decreases v,
{
    if v >= 10 {
        lemma_decimal_digits(v / 10);
        assert forall|k: int| 0 <= k < decimal(v).len() implies #[trigger] decimal(v)[k] != '"' by {
            if k < decimal(v / 10).len() {
                assert(decimal(v)[k] == decimal(v / 10)[k]);
            } else {
                assert(decimal(v)[k] == digit_char(v % 10));
            }
        }
    }
}

/// Setting an attribute and reading it back gives the value set: after the width or height of
/// a drawing is replaced, the drawing's first such attribute holds the new number.
pub proof fn lemma_attr_read_after_write(svg: Seq<char>, prefix: Seq<char>, v: nat)
    requires
        attr_value(svg, prefix) is Some,
    ensures
        attr_value(with_attr(svg, prefix, v), prefix) == Some(decimal(v)),
{
    let s = find_from(svg, prefix, 0)->Some_0;
    lemma_find_from_facts(svg, prefix, 0);
    let a = s + prefix.len();
    let q = seq!['"'];
    let e = find_from(svg.skip(a), q, 0)->Some_0;
    lemma_find_from_facts(svg.skip(a), q, 0);
    let dv = decimal(v);
    lemma_decimal_digits(v);
    let r = with_attr(svg, prefix, v);
    assert(r == svg.take(a) + dv + svg.skip(a + e));
    assert(r.take(a) =~= svg.take(a));
    lemma_find_same_prefix(svg, r, prefix, s, 0);
    let rest = dv + svg.skip(a + e);
    assert(r.skip(a) =~= rest);
    assert(svg.skip(a).subrange(e, e + 1) == q);
    assert(rest[dv.len() as int] == '"') by {
        assert(svg.skip(a).subrange(e, e + 1)[0] == svg.skip(a)[e]);
        assert(q[0] == '"');
        assert(svg.skip(a)[e] == '"');
        assert(rest[dv.len() as int] == svg.skip(a + e)[0]);
        assert(svg.skip(a + e)[0] == svg.skip(a)[e]);
    }
    assert(rest.subrange(dv.len() as int, dv.len() as int + 1) =~= q);
    assert forall|j: int| 0 <= j < dv.len() implies #[trigger] window(rest, j, 1) != q by {
        assert(window(rest, j, 1)[0] == dv[j]);
    }
    lemma_first_quote(rest, dv.len() as int, 0);
    assert(r.subrange(a, a + dv.len() as int) =~= dv);
}

proof fn lemma_first_quote(h: Seq<char>, e: int, from: int)
    requires
        0 <= from <= e < h.len(),
        h.subrange(e, e + 1) == seq!['"'],
        forall|j: int| from <= j < e ==> #[trigger] window(h, j, 1) != seq!['"'],
    ensures
        find_from(h, seq!['"'], from) == Some(e),
    decreases e - from,
{
    if from < e {
        assert(window(h, from, 1) != seq!['"']);
        lemma_first_quote(h, e, from + 1);
    }
}

/// A completed date is complete: completing it again changes nothing.
pub proof fn lemma_normalized_date_stable(s: Seq<char>)
    requires
        normalized_date(s) is Some,
    ensures
        normalized_date(normalized_date(s)->Some_0) == normalized_date(s),
{
    reveal_strlit("-01-01");
    reveal_strlit("-01");
    let d = normalized_date(s)->Some_0;
    assert(d.len() == 10);
    assert(d[4] == '-' && d[7] == '-');
    assert(digits(d, 0, 4)) by {
        assert forall|i: int| 0 <= i < 4 implies #[trigger] crate::timeline::is_digit(d[i]) by {
            assert(d[i] == s[i]);
        }
    }
    assert(digits(d, 5, 7)) by {
        assert forall|i: int| 5 <= i < 7 implies #[trigger] crate::timeline::is_digit(d[i]) by {
            if s.len() > 4 {
                assert(d[i] == s[i]);
            }
        }
    }
    assert(digits(d, 8, 10)) by {
        assert forall|i: int| 8 <= i < 10 implies #[trigger] crate::timeline::is_digit(d[i]) by {
            if s.len() > 7 {
                assert(d[i] == s[i]);
            }
        }
    }
}

/// Gregorian leap years.
pub open spec fn is_leap(y: int) -> bool {
    (y % 4 == 0 && y % 100 != 0) || y % 400 == 0
}

/// The number of days of month `m` of year `y`.
pub open spec fn days_in_month(y: int, m: int) -> int {
    if m == 2 {
        if is_leap(y) { 29 } else { 28 }
    } else if m == 4 || m == 6 || m == 9 || m == 11 {
        30
    } else {
        31
    }
}

/// A day of the calendar, from year zero on.
pub open spec fn calendar_date(y: int, m: int, d: int) -> bool {
    0 <= y && 1 <= m <= 12 && 1 <= d <= days_in_month(y, m)
}

/// `(y1, m1, d1)` is an earlier date than `(y2, m2, d2)`.
pub open spec fn earlier(y1: int, m1: int, d1: int, y2: int, m2: int, d2: int) -> bool {
    y1 < y2 || (y1 == y2 && (m1 < m2 || (m1 == m2 && d1 < d2)))
}

/// The days from a fixed origin to the start of a March-based year `yy`.
pub open spec fn year_days(yy: int) -> int {
    365 * yy + yy / 4 - yy / 100 + yy / 400
}

proof fn lemma_quotient_step(x: int)
    requires
        x >= 0,
    ensures
        (x + 1) / 4 - x / 4 == if (x + 1) % 4 == 0 { 1int } else { 0int },
        (x + 1) / 100 - x / 100 == if (x + 1) % 100 == 0 { 1int } else { 0int },
        (x + 1) / 400 - x / 400 == if (x + 1) % 400 == 0 { 1int } else { 0int },
        (x + 1) % 400 == 0 ==> (x + 1) % 100 == 0,
        (x + 1) % 100 == 0 ==> (x + 1) % 4 == 0,
{
}

#[verifier::spinoff_prover]
proof fn lemma_year_step(yy: int)
    requires
        yy >= 0,
    ensures
        year_days(yy + 1) == year_days(yy) + 365 + if is_leap(yy + 1) { 1int } else { 0int },
{
    lemma_quotient_step(yy);
}

proof fn lemma_year_days_grow(a: int, b: int)
    requires
        0 <= a <= b,
    ensures
        year_days(a) + 365 * (b - a) <= year_days(b),
    decreases b - a,
{
    if a < b {
        lemma_year_days_grow(a, b - 1);
        lemma_year_step(b - 1);
    }
}

/// The days of year `y` before month `m`, and the start of the year, as the day-number
/// formula computes them.
#[verifier::spinoff_prover]
proof fn lemma_day_of_year(y: int, m: int, d: int)
    requires
        calendar_date(y, m, d),
    ensures
        julian_day(y, m, d) == year_days(y + 4799) - 31739 + day_of_year(y, m, d),
        1 <= day_of_year(y, m, d) <= 365 + if is_leap(y) { 1int } else { 0int },
{
    lemma_year_step(y + 4799);
    assert(is_leap(y + 4800) == is_leap(y));
    assert(quot(14 - m, 12) == if m <= 2 { 1int } else { 0int });
    let yy = y + 4800 - quot(14 - m, 12);
    assert(quot(yy, 4) == yy / 4 && quot(yy, 100) == yy / 100 && quot(yy, 400) == yy / 400);
    let mo = m + 12 * quot(14 - m, 12) - 3;
    assert(0 <= mo <= 11);
    assert(quot(153 * mo + 2, 5) == (153 * mo + 2) / 5);
}

/// The day of the year, counting from one on the first of January.
pub open spec fn day_of_year(y: int, m: int, d: int) -> int {
    let leap = if is_leap(y) { 1int } else { 0int };
    if m == 1 {
        d
    } else if m == 2 {
        31 + d
    } else {
        (153 * (m - 3) + 2) / 5 + 59 + leap + d
    }
}

proof fn lemma_day_of_year_order(y: int, m1: int, d1: int, m2: int, d2: int)
    requires
        calendar_date(y, m1, d1),
        calendar_date(y, m2, d2),
        m1 < m2 || (m1 == m2 && d1 < d2),
    ensures
        day_of_year(y, m1, d1) < day_of_year(y, m2, d2),
{
    if m1 < m2 {
        assert(day_of_year(y, m1, d1) <= day_of_year(y, m1, days_in_month(y, m1)));
        assert(day_of_year(y, m1, days_in_month(y, m1)) + 1 == day_of_year(y, m1 + 1, 1));
        if m1 + 1 < m2 {
            lemma_month_starts_grow(y, m1 + 1, m2);
        }
    }
}

proof fn lemma_month_starts_grow(y: int, a: int, b: int)
    requires
        0 <= y,
        1 <= a < b <= 12,
    ensures
        day_of_year(y, a, 1) < day_of_year(y, b, 1),
    decreases b - a,
{
    if a + 1 < b {
        lemma_month_starts_grow(y, a + 1, b);
    }
    assert(day_of_year(y, a, 1) < day_of_year(y, a + 1, 1));
}

proof fn lemma_later_year(y1: int, doy1: int, y2: int, doy2: int)
    requires
        0 <= y1 < y2,
        1 <= doy1 <= 365 + if is_leap(y1) { 1int } else { 0int },
        1 <= doy2,
    ensures
        year_days(y1 + 4799) + doy1 < year_days(y2 + 4799) + doy2,
{
    lemma_year_step(y1 + 4799);
    assert(is_leap(y1 + 4800) == is_leap(y1));
    lemma_year_days_grow(y1 + 4800, y2 + 4799);
}

/// A later calendar date has a larger day number, so events placed by day number keep
/// their calendar order.
#[verifier::spinoff_prover]
pub proof fn lemma_day_numbers_follow_dates(y1: int, m1: int, d1: int, y2: int, m2: int, d2: int)
    requires
        calendar_date(y1, m1, d1),
        calendar_date(y2, m2, d2),
        earlier(y1, m1, d1, y2, m2, d2),
    ensures
        julian_day(y1, m1, d1) < julian_day(y2, m2, d2),
{
    lemma_day_of_year(y1, m1, d1);
    lemma_day_of_year(y2, m2, d2);
    if y1 == y2 {
        lemma_day_of_year_order(y1, m1, d1, m2, d2);
    } else {
        lemma_later_year(y1, day_of_year(y1, m1, d1), y2, day_of_year(y2, m2, d2));
    }
}

proof fn lemma_hex_digit(n: nat)
    requires
        n < 16,
    ensures
        hex_value(hex_digit(n)) == Some(n),
{
}

proof fn lemma_byte_hex(x: u8)
    ensures
        hex_pair(byte_hex(x)[0], byte_hex(x)[1]) == Some(x as nat),
{
    lemma_hex_digit(x as nat / 16);
    lemma_hex_digit(x as nat % 16);
}

/// Writing a color as `#RRGGBB` and reading it back gives the same color.
pub proof fn lemma_hex_round_trip(c: Color)
    ensures
        hex_color(hex_text(c)) == Some(c),
{
    let t = hex_text(c);
    assert(t[0] == '#');
    assert(hex_body(t) == t.drop_first());
    let s = t.drop_first();
    assert(s =~= byte_hex(c.r) + byte_hex(c.g) + byte_hex(c.b));
    lemma_byte_hex(c.r);
    lemma_byte_hex(c.g);
    lemma_byte_hex(c.b);
    assert(s[0] == byte_hex(c.r)[0] && s[1] == byte_hex(c.r)[1]);
    assert(s[2] == byte_hex(c.g)[0] && s[3] == byte_hex(c.g)[1]);
    assert(s[4] == byte_hex(c.b)[0] && s[5] == byte_hex(c.b)[1]);
}

/// A chapter without a closed diagram block comes out as it went in.
pub proof fn lemma_plain_chapter_unchanged(text: Seq<char>, outcomes: Seq<Result<Seq<char>, SpecError>>)
    requires
        blocks(text).len() == 0,
    ensures
        rewritten(text, outcomes) == text,
{
}

/// `p` begins `p + q`.
proof fn lemma_prefix_of_concat(p: Seq<char>, q: Seq<char>)
    ensures
        p.is_prefix_of(p + q),
{
    assert((p + q).subrange(0, p.len() as int) =~= p);
}

/// A refused theme is reported either as an invalid theme (text that is not TOML, or whose
/// tables do not fit the theme schema) or as an invalid hex color (a color that is not
/// `#RRGGBB`), and its message begins with `invalid theme: ` or `invalid hex color`.
pub proof fn lemma_theme_refusal(text: Seq<char>)
    ensures
        theme_colors_value(text) matches Err(e) ==> {
            ||| e is InvalidTheme && "invalid theme: "@.is_prefix_of(error_message(e))
            ||| e is InvalidThemeColor && "invalid hex color `"@.is_prefix_of(error_message(e))
        },
{
    if theme_colors_value(text) is Err {
        let e = theme_colors_value(text)->Err_0;
        match e {
            SpecError::InvalidTheme(m) => {
                lemma_prefix_of_concat("invalid theme: "@, m);
            },
            SpecError::InvalidThemeColor { field, hex } => {
                let p = "invalid hex color `"@;
                let rest = hex + "` for `"@ + field + "` (expected #RRGGBB)"@;
                assert(error_message(e) =~= p + rest);
                lemma_prefix_of_concat(p, rest);
            },
            _ => {},
        }
    }
}

/// Below a node with a finite tree hangs at least one leaf: the node itself, or a leaf
/// below its first child.
pub proof fn lemma_leaves_positive(c: Seq<Seq<usize>>, i: int, fuel: nat)
    requires
        finite_below(c, i, fuel),
    ensures
        leaves(c, i, fuel) >= 1,
    decreases fuel,
{
    if c[i].len() > 0 {
        let child = c[i][0] as int;
        assert(finite_below(c, child, (fuel - 1) as nat));
        lemma_leaves_positive(c, child, (fuel - 1) as nat);
        assert(leaves_from(c, i, fuel, 0) == leaves(c, child, (fuel - 1) as nat) + leaves_from(c, i, fuel, 1));
    }
}

} // verus!
