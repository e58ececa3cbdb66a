//! The rules of each diagram kind: from a declaration as written to the
//! validated model, or the first rule it breaks.

use vstd::prelude::*;
use crate::error::{DeclartError, SpecError};
use crate::model::{Diagram, FlowDiagram, FlowView, HubSpokeDiagram, SpecDiagram, SpecFlowDiagram, SpecHubSpokeDiagram, SpecTierDiagram, SpecVennDiagram, SpecVennIntersection, TierDiagram, TierView, VennDiagram, VennIntersection, VennSet, opt_str, strs};
use crate::raw::{RawFlowDiagram, RawHubSpokeDiagram, RawTierDiagram, RawVennDiagram, SpecRawFlowDiagram, SpecRawFlowItem, SpecRawHubSpokeDiagram, SpecRawItem, SpecRawTierDiagram, SpecRawVennDiagram, SpecRawVennIntersection, SpecRawVennSet};
use crate::rules::{all_ok, flow_item_value, invalid, invalid_value, item_value, parse_flow_items, parse_items, res};
use crate::text::{decimal, decimal_string, owned, str_eq};

verus! {

pub open spec fn pyramid_moved_hint() -> Seq<char> {
    "pyramid is now a separate kind: use `kind = \"tier\"` with `view = \"pyramid\"` (or omit `view`)"@
}

/// The flow view a `view` value names; absent means process.
pub open spec fn flow_view_value(v: Option<Seq<char>>) -> Result<FlowView, SpecError> {
    match v {
        None => Ok(FlowView::Process),
        Some(x) => if x == "process"@ {
            Ok(FlowView::Process)
        } else if x == "cycle"@ {
            Ok(FlowView::Cycle)
        } else if x == "funnel"@ {
            Ok(FlowView::Funnel)
        } else if x == "swimlane"@ {
            Ok(FlowView::Swimlane)
        } else if x == "pyramid"@ {
            Err(invalid("view"@, "pyramid"@, pyramid_moved_hint()))
        } else {
            Err(invalid("view"@, x, "Valid view values for flow: process, cycle, funnel, swimlane"@))
        },
    }
}

/// The item names a non-empty actor.
pub open spec fn has_actor(item: SpecRawFlowItem) -> bool {
    item.actor matches Some(a) && a.len() > 0
}

/// Every item names a non-empty actor.
pub open spec fn actors_present(items: Seq<SpecRawFlowItem>) -> bool {
    forall|i: int| 0 <= i < items.len() ==> #[trigger] has_actor(items[i])
}

/// All items name the same actor.
pub open spec fn one_actor(items: Seq<SpecRawFlowItem>) -> bool {
    forall|i: int, j: int| 0 <= i < items.len() && 0 <= j < items.len()
        ==> #[trigger] items[i].actor == #[trigger] items[j].actor
}

/// The rules of the `flow` kind.
pub open spec fn flow_value(raw: SpecRawFlowDiagram) -> Result<SpecDiagram, SpecError> {
    let n = raw.items.len();
    if n == 0 {
        Err(SpecError::EmptyItems)
    } else {
        match flow_view_value(raw.view) {
            Err(e) => Err(e),
            Ok(view) => if view == FlowView::Cycle && n < 2 {
                Err(SpecError::TooFewItems { kind: "flow/cycle"@, min: 2, got: n })
            } else if view == FlowView::Funnel && n < 2 {
                Err(SpecError::TooFewItems { kind: "flow/funnel"@, min: 2, got: n })
            } else if view == FlowView::Funnel && n > 10 {
                Err(invalid("items"@, decimal(n) + " items"@, "Funnel view supports at most 10 stages."@))
            } else if view == FlowView::Swimlane && !actors_present(raw.items) {
                Err(invalid("actor"@, "(missing)"@,
                    "Every item must have a non-empty `actor` field when view = \"swimlane\""@))
            } else if view == FlowView::Swimlane && one_actor(raw.items) {
                Err(invalid("actor"@, "1 distinct actor(s)"@,
                    "Swimlane view requires at least 2 distinct actor values"@))
            } else {
                match all_ok(raw.items, |x: SpecRawFlowItem| flow_item_value(x)) {
                    Err(e) => Err(e),
                    Ok(items) => Ok(SpecDiagram::Flow(SpecFlowDiagram { title: raw.title, view, items })),
                }
            },
        }
    }
}

fn parse_flow_view(v: &Option<String>) -> (r: Result<FlowView, DeclartError>)
    ensures
        match r {
            Ok(x) => flow_view_value(opt_str(*v)) == Ok::<FlowView, SpecError>(x),
            Err(e) => flow_view_value(opt_str(*v)) == Err::<FlowView, SpecError>(e@),
        },
{
    match v {
        None => Ok(FlowView::Process),
        Some(x) => if str_eq(x.as_str(), "process") {
            Ok(FlowView::Process)
        } else if str_eq(x.as_str(), "cycle") {
            Ok(FlowView::Cycle)
        } else if str_eq(x.as_str(), "funnel") {
            Ok(FlowView::Funnel)
        } else if str_eq(x.as_str(), "swimlane") {
            Ok(FlowView::Swimlane)
        } else if str_eq(x.as_str(), "pyramid") {
            Err(invalid_value("view", owned("pyramid"),
                "pyramid is now a separate kind: use `kind = \"tier\"` with `view = \"pyramid\"` (or omit `view`)"))
        } else {
            Err(invalid_value("view", x.clone(), "Valid view values for flow: process, cycle, funnel, swimlane"))
        },
    }
}

/// Checks a `flow` declaration and builds its model.
#[verifier::loop_isolation(false)]
pub fn validate_flow(raw: RawFlowDiagram) -> (r: Result<Diagram, DeclartError>)
    ensures
        res(r) == flow_value(raw@),
{
    let n = raw.items.len();
    let ghost items = raw@.items;
    if n == 0 {
        return Err(DeclartError::EmptyItems);
    }
    let view = match parse_flow_view(&raw.view) {
        Ok(v) => v,
        Err(e) => return Err(e),
    };
    if view == FlowView::Cycle && n < 2 {
        return Err(DeclartError::TooFewItems { kind: owned("flow/cycle"), min: 2, got: n });
    }
    if view == FlowView::Funnel && n < 2 {
        return Err(DeclartError::TooFewItems { kind: owned("flow/funnel"), min: 2, got: n });
    }
    if view == FlowView::Funnel && n > 10 {
        let mut value = decimal_string(n);
        value.append(" items");
        return Err(invalid_value("items", value, "Funnel view supports at most 10 stages."));
    }
    if view == FlowView::Swimlane {
        let mut i: usize = 0;
        while i < n
            invariant
                i <= n,
                n == raw.items@.len(),
                items == raw@.items,
                forall|k: int| 0 <= k < i ==> #[trigger] has_actor(items[k]),
            decreases n - i,
        {
            let present = match &raw.items[i].actor {
                Some(a) => !a.as_str().is_empty(),
                None => false,
            };
            assert(items[i as int] == raw.items@[i as int]@);
            assert(present == has_actor(items[i as int]));
            if !present {
                assert(!has_actor(items[i as int]));

                return Err(invalid_value("actor", owned("(missing)"),
                    "Every item must have a non-empty `actor` field when view = \"swimlane\""));
            }
            i = i + 1;
        }
        let mut j: usize = 1;
        let mut same = true;
        while j < n
            invariant
                1 <= j <= n,
                n == raw.items@.len(),
                items == raw@.items,
                same == forall|k: int| 0 <= k < j ==> (#[trigger] items[k].actor) == items[0].actor,
            decreases n - j,
        {
            let eq = match (&raw.items[j].actor, &raw.items[0].actor) {
                (Some(a), Some(b)) => str_eq(a.as_str(), b.as_str()),
                (None, None) => true,
                _ => false,
            };
            assert(items[j as int] == raw.items@[j as int]@);
            assert(items[0] == raw.items@[0]@);
            assert(eq == (items[j as int].actor == items[0].actor));
            if !eq {
                same = false;
            }
            j = j + 1;
        }
        assert(same == one_actor(items)) by {
            if same {
                assert forall|a: int, b: int| 0 <= a < items.len() && 0 <= b < items.len()
                    implies #[trigger] items[a].actor == #[trigger] items[b].actor by {
                    assert(items[a].actor == items[0].actor);
                    assert(items[b].actor == items[0].actor);
                }
            } else {
                let k = choose|k: int| 0 <= k < n && !((#[trigger] items[k].actor) == items[0].actor);
                assert(!(items[k].actor == items[0].actor));
            }
        }
        if same {
            return Err(invalid_value("actor", owned("1 distinct actor(s)"),
                "Swimlane view requires at least 2 distinct actor values"));
        }
    }
    let parsed = match parse_flow_items(&raw.items) {
        Ok(v) => v,
        Err(e) => return Err(e),
    };
    let d = FlowDiagram { title: raw.title, view, items: parsed };
    Ok(Diagram::Flow(d))
}

/// The tier view a `view` value names; absent means pyramid.
pub open spec fn tier_view_value(v: Option<Seq<char>>) -> Result<TierView, SpecError> {
    match v {
        None => Ok(TierView::Pyramid),
        Some(x) => if x == "pyramid"@ {
            Ok(TierView::Pyramid)
        } else if x == "concentric"@ {
            Ok(TierView::Concentric)
        } else {
            Err(invalid("view"@, x, "Valid view values for tier: pyramid, concentric"@))
        },
    }
}

/// The rules of the `tier` kind.
pub open spec fn tier_value(raw: SpecRawTierDiagram) -> Result<SpecDiagram, SpecError> {
    if raw.items.len() == 0 {
        Err(SpecError::EmptyItems)
    } else {
        match tier_view_value(raw.view) {
            Err(e) => Err(e),
            Ok(view) => match all_ok(raw.items, |x: SpecRawItem| item_value(x)) {
                Err(e) => Err(e),
                Ok(items) => Ok(SpecDiagram::Tier(SpecTierDiagram { title: raw.title, view, items })),
            },
        }
    }
}

/// Checks a `tier` declaration and builds its model.
pub fn validate_tier(raw: RawTierDiagram) -> (r: Result<Diagram, DeclartError>)
    ensures
        res(r) == tier_value(raw@),
{
    if raw.items.len() == 0 {
        return Err(DeclartError::EmptyItems);
    }
    let view = match &raw.view {
        None => TierView::Pyramid,
        Some(x) => if str_eq(x.as_str(), "pyramid") {
            TierView::Pyramid
        } else if str_eq(x.as_str(), "concentric") {
            TierView::Concentric
        } else {
            return Err(invalid_value("view", x.clone(), "Valid view values for tier: pyramid, concentric"));
        },
    };
    let items = match parse_items(&raw.items) {
        Ok(v) => v,
        Err(e) => return Err(e),
    };
    Ok(Diagram::Tier(TierDiagram { title: raw.title, view, items }))
}

/// The rules of the `hub_spoke` kind.
pub open spec fn hub_spoke_value(raw: SpecRawHubSpokeDiagram) -> Result<SpecDiagram, SpecError> {
    if raw.spokes.len() < 2 {
        Err(SpecError::TooFewItems { kind: "hub_spoke"@, min: 2, got: raw.spokes.len() })
    } else {
        match all_ok(raw.spokes, |x: SpecRawItem| item_value(x)) {
            Err(e) => Err(e),
            Ok(spokes) => Ok(SpecDiagram::HubSpoke(SpecHubSpokeDiagram {
                title: raw.title,
                center: raw.center,
                spokes,
            })),
        }
    }
}

/// Checks a `hub_spoke` declaration and builds its model.
pub fn validate_hub_spoke(raw: RawHubSpokeDiagram) -> (r: Result<Diagram, DeclartError>)
    ensures
        res(r) == hub_spoke_value(raw@),
{
    if raw.spokes.len() < 2 {
        return Err(DeclartError::TooFewItems { kind: owned("hub_spoke"), min: 2, got: raw.spokes.len() });
    }
    let spokes = match parse_items(&raw.spokes) {
        Ok(v) => v,
        Err(e) => return Err(e),
    };
    Ok(Diagram::HubSpoke(HubSpokeDiagram { title: raw.title, center: raw.center, spokes }))
}

/// The rules of the `venn` kind.
pub open spec fn venn_value(raw: SpecRawVennDiagram) -> Result<SpecDiagram, SpecError> {
    let n = raw.sets.len();
    if n < 2 || n > 3 {
        Err(invalid("sets"@, decimal(n) + " sets"@, "Venn diagrams require exactly 2 or 3 sets"@))
    } else {
        Ok(SpecDiagram::Venn(SpecVennDiagram {
            title: raw.title,
            sets: raw.sets.map_values(|s: SpecRawVennSet| s.label),
            intersections: raw.intersections.map_values(
                |i: SpecRawVennIntersection| SpecVennIntersection { sets: i.sets, label: i.label },
            ),
        }))
    }
}

/// Checks a `venn` declaration and builds its model.
pub fn validate_venn(raw: RawVennDiagram) -> (r: Result<Diagram, DeclartError>)
    ensures
        res(r) == venn_value(raw@),
{
    let n = raw.sets.len();
    if n < 2 || n > 3 {
        let mut value = decimal_string(n);
        value.append(" sets");
        return Err(invalid_value("sets", value, "Venn diagrams require exactly 2 or 3 sets"));
    }
    let mut sets: Vec<VennSet> = Vec::new();
    let mut i: usize = 0;
    while i < n
        invariant
            i <= n,
            n == raw.sets@.len(),
            sets@.len() == i,
            forall|k: int| 0 <= k < i ==> (#[trigger] sets@[k]).label@ == raw.sets@[k].label@,
        decreases n - i,
    {
        sets.push(VennSet { label: raw.sets[i].label.clone() });
        i = i + 1;
    }
    let mut intersections: Vec<VennIntersection> = Vec::new();
    let mut j: usize = 0;
    while j < raw.intersections.len()
        invariant
            j <= raw.intersections@.len(),
            intersections@.len() == j,
            forall|k: int| 0 <= k < j ==> (#[trigger] intersections@[k])@ == (SpecVennIntersection {
                sets: raw.intersections@[k]@.sets,
                label: raw.intersections@[k]@.label,
            }),
        decreases raw.intersections@.len() - j,
    {
        let src = &raw.intersections[j];
        let mut names: Vec<String> = Vec::new();
        let mut k: usize = 0;
        while k < src.sets.len()
            invariant
                k <= src.sets@.len(),
                names@.len() == k,
                forall|m: int| 0 <= m < k ==> (#[trigger] names@[m]) == src.sets@[m],
            decreases src.sets@.len() - k,
        {
            names.push(src.sets[k].clone());
            k = k + 1;
        }
        assert(strs(names) =~= strs(src.sets));
        intersections.push(VennIntersection { sets: names, label: src.label.clone() });
        j = j + 1;
    }
    let d = VennDiagram { title: raw.title, sets, intersections };
    assert(d@.sets =~= raw@.sets.map_values(|s: SpecRawVennSet| s.label));
    assert(d@.intersections =~= raw@.intersections.map_values(
        |i: SpecRawVennIntersection| SpecVennIntersection { sets: i.sets, label: i.label },
    ));
    Ok(Diagram::Venn(d))
}

} // verus!
