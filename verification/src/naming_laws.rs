//! What the declared names and values become in an accepted declaration, stated against the
//! names themselves: the emphasis, status and view a name selects, the order of dates, the
//! overlaps of a Venn diagram and the colors of a theme.

use vstd::prelude::*;
use crate::color::{colors_seq, hex_color, theme_colors_value, Color, ThemeColors};
use crate::doc::{lookup, str_field, toml_document, DocValue};
use crate::error::SpecError;
use crate::hierarchy::{count_roots, hierarchy_value};
use crate::kinds::{flow_value, hub_spoke_value, tier_value, venn_value};
use crate::laws::{date_sorted, lemma_accepted_timeline, lemma_all_ok_each};
use crate::model::{Emphasis, HierarchyView, SpecDiagram, SpecFlowItem, SpecItem, Status};
use crate::raw::{SpecRawFlowDiagram, SpecRawFlowItem, SpecRawHierarchyDiagram, SpecRawHubSpokeDiagram,
    SpecRawItem, SpecRawTierDiagram, SpecRawTimelineDiagram, SpecRawVennDiagram};
use crate::rules::{emphasis_value, flow_item_value, item_value, status_value};
use crate::timeline::{event_key, lex_le, normalized_date, timeline_value};

verus! {

// ---------------------------------------------------------------------------
// Emphasis and status
// ---------------------------------------------------------------------------

/// `e` is the emphasis the declared value `s` names: none for none, `Primary` for
/// `"primary"`, `Secondary` for `"secondary"`.
pub open spec fn emphasis_named(s: Option<Seq<char>>, e: Option<Emphasis>) -> bool {
    ||| s is None && e is None
    ||| s == Some("primary"@) && e == Some(Emphasis::Primary)
    ||| s == Some("secondary"@) && e == Some(Emphasis::Secondary)
}

/// `t` is the status the declared value `s` names: none for none, and `"success"`,
/// `"normal"`, `"warning"`, `"critical"` for the status of that name.
pub open spec fn status_named(s: Option<Seq<char>>, t: Option<Status>) -> bool {
    ||| s is None && t is None
    ||| s == Some("success"@) && t == Some(Status::Success)
    ||| s == Some("normal"@) && t == Some(Status::Normal)
    ||| s == Some("warning"@) && t == Some(Status::Warning)
    ||| s == Some("critical"@) && t == Some(Status::Critical)
}

/// An emphasis value is accepted exactly when it is absent, `"primary"` or `"secondary"`, and
/// then gives the emphasis of that name; so distinct names give distinct emphases.
pub proof fn lemma_emphasis_names(s: Option<Seq<char>>)
    ensures
        emphasis_value(s) is Ok <==> (s is None || s == Some("primary"@) || s == Some("secondary"@)),
        emphasis_value(s) matches Ok(e) ==> emphasis_named(s, e),
{
    reveal_strlit("primary");
    reveal_strlit("secondary");
}

/// A status value is accepted exactly when it is absent or one of `"success"`, `"normal"`,
/// `"warning"`, `"critical"`, and then gives the status of that name.
pub proof fn lemma_status_names(s: Option<Seq<char>>)
    ensures
        status_value(s) is Ok <==> (s is None || s == Some("success"@) || s == Some("normal"@)
            || s == Some("warning"@) || s == Some("critical"@)),
        status_value(s) matches Ok(t) ==> status_named(s, t),
{
    reveal_strlit("success");
    reveal_strlit("normal");
    reveal_strlit("warning");
    reveal_strlit("critical");
}

/// An accepted item keeps its label and gets the emphasis and status its values name.
pub proof fn lemma_item_named(r: SpecRawItem)
    ensures
        item_value(r) matches Ok(it) ==> it.label == r.label && emphasis_named(r.emphasis, it.emphasis)
            && status_named(r.status, it.status),
{
    lemma_emphasis_names(r.emphasis);
    lemma_status_names(r.status);
}

/// An accepted flow item keeps its label and actor and gets the emphasis and status its
/// values name.
pub proof fn lemma_flow_item_named(r: SpecRawFlowItem)
    ensures
        flow_item_value(r) matches Ok(it) ==> it.label == r.label && it.actor == r.actor
            && emphasis_named(r.emphasis, it.emphasis) && status_named(r.status, it.status),
{
    lemma_emphasis_names(r.emphasis);
    lemma_status_names(r.status);
}

/// In an accepted tier each layer gets the emphasis and status its declared values name.
pub proof fn lemma_tier_items_named(raw: SpecRawTierDiagram)
    requires
        tier_value(raw) is Ok,
    ensures
        tier_value(raw)->Ok_0 matches SpecDiagram::Tier(d) && d.items.len() == raw.items.len()
            && forall|i: int| 0 <= i < d.items.len() ==> emphasis_named(raw.items[i].emphasis, (#[trigger] d.items[i]).emphasis)
                && status_named(raw.items[i].status, d.items[i].status) && d.items[i].label == raw.items[i].label,
{
    let f = |x: SpecRawItem| item_value(x);
    lemma_all_ok_each(raw.items, f);
    let d = tier_value(raw)->Ok_0->Tier_0;
    assert forall|i: int| 0 <= i < d.items.len() implies emphasis_named(raw.items[i].emphasis, (#[trigger] d.items[i]).emphasis)
        && status_named(raw.items[i].status, d.items[i].status) && d.items[i].label == raw.items[i].label by {
        assert(f(raw.items[i]) == Ok::<SpecItem, SpecError>(d.items[i]));
        lemma_item_named(raw.items[i]);
    }
}

/// In an accepted hub-and-spoke diagram each spoke gets the emphasis and status its declared
/// values name.
pub proof fn lemma_hub_spoke_items_named(raw: SpecRawHubSpokeDiagram)
    requires
        hub_spoke_value(raw) is Ok,
    ensures
        hub_spoke_value(raw)->Ok_0 matches SpecDiagram::HubSpoke(d) && d.spokes.len() == raw.spokes.len()
            && forall|i: int| 0 <= i < d.spokes.len() ==> emphasis_named(raw.spokes[i].emphasis, (#[trigger] d.spokes[i]).emphasis)
                && status_named(raw.spokes[i].status, d.spokes[i].status) && d.spokes[i].label == raw.spokes[i].label,
{
    let f = |x: SpecRawItem| item_value(x);
    lemma_all_ok_each(raw.spokes, f);
    let d = hub_spoke_value(raw)->Ok_0->HubSpoke_0;
    assert forall|i: int| 0 <= i < d.spokes.len() implies emphasis_named(raw.spokes[i].emphasis, (#[trigger] d.spokes[i]).emphasis)
        && status_named(raw.spokes[i].status, d.spokes[i].status) && d.spokes[i].label == raw.spokes[i].label by {
        assert(f(raw.spokes[i]) == Ok::<SpecItem, SpecError>(d.spokes[i]));
        lemma_item_named(raw.spokes[i]);
    }
}

/// In an accepted flow each item gets the emphasis and status its declared values name.
pub proof fn lemma_flow_items_named(raw: SpecRawFlowDiagram)
    requires
        flow_value(raw) is Ok,
    ensures
        flow_value(raw)->Ok_0 matches SpecDiagram::Flow(d) && d.items.len() == raw.items.len()
            && forall|i: int| 0 <= i < d.items.len() ==> emphasis_named(raw.items[i].emphasis, (#[trigger] d.items[i]).emphasis)
                && status_named(raw.items[i].status, d.items[i].status),
{
    let f = |x: SpecRawFlowItem| flow_item_value(x);
    lemma_all_ok_each(raw.items, f);
    let d = flow_value(raw)->Ok_0->Flow_0;
    assert forall|i: int| 0 <= i < d.items.len() implies emphasis_named(raw.items[i].emphasis, (#[trigger] d.items[i]).emphasis)
        && status_named(raw.items[i].status, d.items[i].status) by {
        assert(f(raw.items[i]) == Ok::<SpecFlowItem, SpecError>(d.items[i]));
        lemma_flow_item_named(raw.items[i]);
    }
}

// ---------------------------------------------------------------------------
// Hierarchy views
// ---------------------------------------------------------------------------

/// An accepted hierarchy is drawn in the view its `view` names: `"org_chart"` gives an org
/// chart, `"mind_map"` a mind map, `"fishbone"` a fishbone; with no `view`, one root gives an
/// org chart and several a fishbone.
pub proof fn lemma_hierarchy_view_named(raw: SpecRawHierarchyDiagram)
    requires
        hierarchy_value(raw) is Ok,
    ensures
        hierarchy_value(raw)->Ok_0 matches SpecDiagram::Hierarchy(d) && {
            &&& raw.view == Some("org_chart"@) ==> d.view == HierarchyView::OrgChart
            &&& raw.view == Some("mind_map"@) ==> d.view == HierarchyView::MindMap
            &&& raw.view == Some("fishbone"@) ==> d.view == HierarchyView::Fishbone
            &&& raw.view is None ==> d.view == (if count_roots(raw.nodes) == 1 { HierarchyView::OrgChart } else { HierarchyView::Fishbone })
            &&& d.title == raw.title && d.effect == raw.effect && d.nodes.len() == raw.nodes.len()
        },
{
    reveal_strlit("org_chart");
    reveal_strlit("mind_map");
    reveal_strlit("fishbone");
    let d = hierarchy_value(raw)->Ok_0->Hierarchy_0;
    let roots = count_roots(raw.nodes);
    assert(crate::hierarchy::hierarchy_view_value(raw.view, roots) == Ok::<HierarchyView, SpecError>(d.view));
    assert("mind_map"@ != "org_chart"@ && "mind_map"@ != "fishbone"@ && "fishbone"@ != "org_chart"@) by {
        assert("mind_map"@[0] != "org_chart"@[0]);
        assert("mind_map"@[0] != "fishbone"@[0]);
        assert("fishbone"@[0] != "org_chart"@[0]);
    }
}

// ---------------------------------------------------------------------------
// Venn diagrams
// ---------------------------------------------------------------------------

/// An accepted Venn diagram keeps the declared sets and, one for one and in order, the
/// declared intersections with their sets and labels.
pub proof fn lemma_venn_model(raw: SpecRawVennDiagram)
    requires
        venn_value(raw) is Ok,
    ensures
        venn_value(raw)->Ok_0 matches SpecDiagram::Venn(d) && {
            &&& d.title == raw.title
            &&& d.sets.len() == raw.sets.len()
            &&& forall|k: int| 0 <= k < d.sets.len() ==> #[trigger] d.sets[k] == raw.sets[k].label
            &&& d.intersections.len() == raw.intersections.len()
            &&& forall|k: int| 0 <= k < d.intersections.len() ==> (#[trigger] d.intersections[k]).sets == raw.intersections[k].sets
                && d.intersections[k].label == raw.intersections[k].label
        },
{
}

// ---------------------------------------------------------------------------
// Dates in order
// ---------------------------------------------------------------------------

/// `a` is `b`, or `a` comes first in plain character order: at the first position where they
/// differ `a` has the smaller character, or `a` is a proper prefix of `b`.
pub open spec fn char_order_le(a: Seq<char>, b: Seq<char>) -> bool {
    ||| a == b
    ||| exists|k: int| 0 <= k < a.len() && k < b.len() && #[trigger] a.take(k) == b.take(k) && a[k] < b[k]
    ||| a.len() < b.len() && a == b.take(a.len() as int)
}

/// The order the events are sorted by is plain character order.
pub proof fn lemma_lex_le_is_char_order(a: Seq<char>, b: Seq<char>)
    requires
        lex_le(a, b),
    ensures
        char_order_le(a, b),
    decreases a.len(),
{
    if a.len() == 0 {
        if b.len() == 0 {
            assert(a =~= b);
        } else {
            assert(a =~= b.take(0));
        }
    } else if a[0] != b[0] {
        assert(a.take(0) =~= b.take(0));
    } else {
        let (a1, b1) = (a.drop_first(), b.drop_first());
        lemma_lex_le_is_char_order(a1, b1);
        if a1 == b1 {
            assert forall|i: int| 0 <= i < a.len() implies a[i] == b[i] by {
                if i > 0 {
                    assert(a[i] == a1[i - 1] && b[i] == b1[i - 1]);
                }
            }
            assert(a =~= b);
        } else if a1.len() < b1.len() && a1 == b1.take(a1.len() as int) {
            assert forall|i: int| 0 <= i < a.len() implies a[i] == b[i] by {
                if i > 0 {
                    assert(a[i] == a1[i - 1] && b[i] == b1[i - 1]);
                    assert(a1[i - 1] == b1.take(a1.len() as int)[i - 1]);
                }
            }
            assert(a =~= b.take(a.len() as int));
        } else {
            let k = choose|k: int| 0 <= k < a1.len() && k < b1.len() && #[trigger] a1.take(k) == b1.take(k) && a1[k] < b1[k];
            assert(a.take(k + 1) =~= seq![a[0]] + a1.take(k));
            assert(b.take(k + 1) =~= seq![b[0]] + b1.take(k));
            assert(a[k + 1] == a1[k] && b[k + 1] == b1[k]);
        }
    }
}

/// In an accepted timeline each event's date is valid, and along the events the dates,
/// completed to `YYYY-MM-DD`, never go back in plain character order.
pub proof fn lemma_timeline_in_date_order(raw: SpecRawTimelineDiagram)
    requires
        timeline_value(raw) is Ok,
    ensures
        timeline_value(raw)->Ok_0 matches SpecDiagram::Timeline(d) && forall|i: int, j: int| 0 <= i < j < d.events.len()
            ==> normalized_date((#[trigger] d.events[i]).date) is Some && normalized_date((#[trigger] d.events[j]).date) is Some
                && char_order_le(normalized_date(d.events[i].date)->Some_0, normalized_date(d.events[j].date)->Some_0),
{
    lemma_accepted_timeline(raw);
    let d = timeline_value(raw)->Ok_0->Timeline_0;
    assert(date_sorted(d.events));
    assert forall|i: int, j: int| 0 <= i < j < d.events.len() implies
        normalized_date((#[trigger] d.events[i]).date) is Some && normalized_date((#[trigger] d.events[j]).date) is Some
        && char_order_le(normalized_date(d.events[i].date)->Some_0, normalized_date(d.events[j].date)->Some_0) by {
        assert(lex_le(event_key(d.events[i]), event_key(d.events[j])));
        assert(normalized_date(d.events[i].date) is Some);
        assert(normalized_date(d.events[j].date) is Some);
        lemma_lex_le_is_char_order(event_key(d.events[i]), event_key(d.events[j]));
    }
}

// ---------------------------------------------------------------------------
// Theme colors
// ---------------------------------------------------------------------------

/// The text of the string field `key` of the `[colors]` table of a theme's TOML text.
pub open spec fn theme_color_text(text: Seq<char>, key: Seq<char>) -> Option<Seq<char>> {
    match toml_document(text) {
        Ok(DocValue::Table(es)) => match lookup(es@, "colors"@) {
            Some(DocValue::Table(c)) => str_field(c@, key),
            _ => None,
        },
        _ => None,
    }
}

/// `c` is the color written in the `[colors]` field `key` of the theme text.
pub open spec fn color_field_is(text: Seq<char>, key: Seq<char>, c: Color) -> bool {
    theme_color_text(text, key) matches Some(t) && hex_color(t) == Some(c)
}

/// The colors of an accepted theme are, field by field, those written in the same-named
/// fields of its `[colors]` table.
pub proof fn lemma_theme_fields(text: Seq<char>, c: ThemeColors)
    requires
        theme_colors_value(text) == Ok::<Seq<Color>, SpecError>(colors_seq(c)),
    ensures
        color_field_is(text, "background"@, c.background),
        color_field_is(text, "apex"@, c.apex),
        color_field_is(text, "base"@, c.base),
        color_field_is(text, "on_dark"@, c.on_dark),
        color_field_is(text, "on_light"@, c.on_light),
        color_field_is(text, "title"@, c.title),
{
    let doc = toml_document(text)->Ok_0;
    let t = crate::color::theme_color_texts(doc)->Some_0;
    let ctab = lookup(doc->Table_0@, "colors"@)->Some_0->Table_0;
    let keys = seq!["background"@, "apex"@, "base"@, "on_dark"@, "on_light"@, "title"@];
    let cs = colors_seq(c);
    assert(forall|i: int| 0 <= i < 6 ==> (#[trigger] hex_color(t[i])) is Some);
    assert(cs =~= t.map_values(|x: Seq<char>| hex_color(x).unwrap()));
    assert forall|i: int| 0 <= i < 6 implies color_field_is(text, #[trigger] keys[i], cs[i]) by {
        assert(t[i] == str_field(ctab@, keys[i]).unwrap());
        assert(hex_color(t[i]) is Some);
        assert(cs[i] == hex_color(t[i]).unwrap());
    }
    assert(color_field_is(text, keys[0], cs[0]));
    assert(color_field_is(text, keys[1], cs[1]));
    assert(color_field_is(text, keys[2], cs[2]));
    assert(color_field_is(text, keys[3], cs[3]));
    assert(color_field_is(text, keys[4], cs[4]));
    assert(color_field_is(text, keys[5], cs[5]));
}

} // verus!
