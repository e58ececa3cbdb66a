//! The rules of the `matrix` kind.

use vstd::prelude::*;
use crate::error::{DeclartError, SpecError};
use crate::model::{Diagram, Item, MatrixDiagram, MatrixItem, SpecDiagram, SpecItem,
    SpecMatrixDiagram, SpecMatrixItem};
use crate::raw::{RawMatrixDiagram, RawMatrixItem, RawQuadrant, SpecRawItem, SpecRawMatrixDiagram, SpecRawMatrixItem,
    SpecRawQuadrant};
use crate::rules::{all_ok, all_ok_resume, emphasis_value, invalid, invalid_value, item_value,
    lemma_all_ok_ends, lemma_all_ok_step, parse_emphasis, parse_status, res, status_value,
    vec_res};
use crate::text::{decimal, decimal_string, owned, str_eq};

verus! {

/// The most items one quadrant holds.
pub const MAX_ITEMS_PER_QUADRANT: usize = 6;

/// The slot a position names: 0 top-left, 1 top-right, 2 bottom-left, 3 bottom-right.
pub open spec fn slot_of(pos: Seq<char>) -> Option<nat> {
    if pos == "top-left"@ {
        Some(0)
    } else if pos == "top-right"@ {
        Some(1)
    } else if pos == "bottom-left"@ {
        Some(2)
    } else if pos == "bottom-right"@ {
        Some(3)
    } else {
        None
    }
}

pub open spec fn positions_hint() -> Seq<char> {
    "Valid values: top-left, top-right, bottom-left, bottom-right"@
}

/// Maps a quadrant position name to its slot index 0–3 ([TL, TR, BL, BR]).
pub fn position_slot(pos: &str) -> (r: Result<usize, DeclartError>)
    ensures
        match r {
            Ok(s) => slot_of(pos@) == Some(s as nat),
            Err(e) => slot_of(pos@) is None && e@ == invalid("quadrant"@, pos@, positions_hint()),
        },
{
    if str_eq(pos, "top-left") {
        Ok(0)
    } else if str_eq(pos, "top-right") {
        Ok(1)
    } else if str_eq(pos, "bottom-left") {
        Ok(2)
    } else if str_eq(pos, "bottom-right") {
        Ok(3)
    } else {
        Err(invalid_value("quadrant", owned(pos), "Valid values: top-left, top-right, bottom-left, bottom-right"))
    }
}

/// The item a quadrant shows.
pub open spec fn quadrant_item(q: SpecRawQuadrant) -> Result<SpecItem, SpecError> {
    item_value(SpecRawItem { label: q.label, emphasis: q.emphasis, status: q.status })
}

/// Some quadrant declares a position.
pub open spec fn has_positions(qs: Seq<SpecRawQuadrant>) -> bool {
    exists|i: int| 0 <= i < qs.len() && (#[trigger] qs[i]).position is Some
}

/// Places one quadrant into the slot its position names.
pub open spec fn place_quadrant(slots: Seq<Option<SpecItem>>, q: SpecRawQuadrant) -> Result<Seq<Option<SpecItem>>, SpecError> {
    match q.position {
        None => Err(invalid("position"@, "(missing)"@,
            "When any quadrant has position, all must specify it. Valid: top-left, top-right, bottom-left, bottom-right"@)),
        Some(p) => match slot_of(p) {
            None => Err(invalid("position"@, p, positions_hint())),
            Some(s) => if slots[s as int] is Some {
                Err(invalid("position"@, p, "Duplicate quadrant position"@))
            } else {
                match quadrant_item(q) {
                    Err(e) => Err(e),
                    Ok(it) => Ok(slots.update(s as int, Some(it))),
                }
            },
        },
    }
}

/// Places the quadrants in order; the first refusal is the result.
pub open spec fn place_quadrants(qs: Seq<SpecRawQuadrant>, slots: Seq<Option<SpecItem>>) -> Result<Seq<Option<SpecItem>>, SpecError>
    decreases qs.len(),
{
    if qs.len() == 0 {
        Ok(slots)
    } else {
        match place_quadrant(slots, qs[0]) {
            Err(e) => Err(e),
            Ok(next) => place_quadrants(qs.drop_first(), next),
        }
    }
}

pub open spec fn empty_slots() -> Seq<Option<SpecItem>> {
    seq![None, None, None, None]
}

/// The quadrants in slot order: by position when any declares one, else as declared.
pub open spec fn quadrant_order(qs: Seq<SpecRawQuadrant>) -> Result<Seq<SpecItem>, SpecError> {
    if has_positions(qs) {
        match place_quadrants(qs, empty_slots()) {
            Err(e) => Err(e),
            Ok(s) => Ok(seq![s[0]->Some_0, s[1]->Some_0, s[2]->Some_0, s[3]->Some_0]),
        }
    } else {
        all_ok(qs, |q: SpecRawQuadrant| quadrant_item(q))
    }
}

/// Places one item into its quadrant, counting the items of each quadrant.
pub open spec fn place_item(counts: Seq<nat>, it: SpecRawMatrixItem) -> Result<(Seq<nat>, SpecMatrixItem), SpecError> {
    match slot_of(it.quadrant) {
        None => Err(invalid("quadrant"@, it.quadrant, positions_hint())),
        Some(s) => {
            let c = counts[s as int] + 1;
            if c > 6 {
                Err(invalid("items"@, decimal(c) + " items in one quadrant"@,
                    "A matrix quadrant supports at most 6 items for legibility"@))
            } else {
                match emphasis_value(it.emphasis) {
                    Err(e) => Err(e),
                    Ok(em) => match status_value(it.status) {
                        Err(e) => Err(e),
                        Ok(st) => Ok((counts.update(s as int, c),
                            SpecMatrixItem { label: it.label, emphasis: em, status: st, quadrant: s })),
                    },
                }
            }
        },
    }
}

/// Places the items in order; the first refusal is the result.
pub open spec fn place_items(items: Seq<SpecRawMatrixItem>, counts: Seq<nat>) -> Result<Seq<SpecMatrixItem>, SpecError>
    decreases items.len(),
{
    if items.len() == 0 {
        Ok(Seq::empty())
    } else {
        match place_item(counts, items[0]) {
            Err(e) => Err(e),
            Ok((next, mi)) => match place_items(items.drop_first(), next) {
                Err(e) => Err(e),
                Ok(rest) => Ok(seq![mi] + rest),
            },
        }
    }
}

/// The rules of the `matrix` kind.
pub open spec fn matrix_value(raw: SpecRawMatrixDiagram) -> Result<SpecDiagram, SpecError> {
    if raw.quadrants.len() != 4 {
        Err(SpecError::InvalidQuadrantCount(raw.quadrants.len()))
    } else {
        match quadrant_order(raw.quadrants) {
            Err(e) => Err(e),
            Ok(quadrants) => match place_items(raw.items, seq![0nat, 0nat, 0nat, 0nat]) {
                Err(e) => Err(e),
                Ok(items) => Ok(SpecDiagram::Matrix(SpecMatrixDiagram {
                    title: raw.title,
                    x_axis: raw.x_axis,
                    y_axis: raw.y_axis,
                    quadrants,
                    items,
                })),
            },
        }
    }
}

pub open spec fn slots_view(v: Vec<Option<Item>>) -> Seq<Option<SpecItem>> {
    v@.map_values(|o: Option<Item>| match o {
        Some(it) => Some(it@),
        None => None,
    })
}

/// How many of the four slots are taken.
pub open spec fn filled(s: Seq<Option<SpecItem>>) -> int {
    (if s[0] is Some { 1int } else { 0 }) + (if s[1] is Some { 1int } else { 0 })
        + (if s[2] is Some { 1int } else { 0 }) + (if s[3] is Some { 1int } else { 0 })
}

pub open spec fn counts_view(v: Vec<usize>) -> Seq<nat> {
    v@.map_values(|c: usize| c as nat)
}

/// The quadrants in slot order.
#[verifier::loop_isolation(false)]
fn order_quadrants(raw: &Vec<RawQuadrant>) -> (r: Result<Vec<Item>, DeclartError>)
    requires
        raw@.len() == 4,
    ensures
        vec_res(r) == quadrant_order(raw@.map_values(|q: RawQuadrant| q@)),
{
    let ghost qs = raw@.map_values(|q: RawQuadrant| q@);
    let nq = raw.len();
    let mut any_position = false;
    let mut i: usize = 0;
    while i < nq
        invariant
            i <= nq,
            any_position == exists|k: int| 0 <= k < i && (#[trigger] qs[k]).position is Some,
        decreases nq - i,
    {
        assert(qs[i as int] == raw@[i as int]@);
        if raw[i].position.is_some() {
            any_position = true;
        }
        i = i + 1;
    }
    if any_position {
        let mut slots: Vec<Option<Item>> = Vec::new();
        slots.push(None);
        slots.push(None);
        slots.push(None);
        slots.push(None);
        assert(slots_view(slots) =~= empty_slots());
        assert(qs.skip(0) =~= qs);
        let mut i: usize = 0;
        while i < nq
            invariant
                i <= nq,
                slots@.len() == 4,
                filled(slots_view(slots)) == i,
                place_quadrants(qs, empty_slots()) == place_quadrants(qs.skip(i as int), slots_view(slots)),
            decreases nq - i,
        {
            let ghost sv = slots_view(slots);
            assert(qs.skip(i as int).drop_first() =~= qs.skip(i as int + 1));
            assert(qs.skip(i as int)[0] == qs[i as int]);
            let q = &raw[i];
            assert(qs[i as int] == q@);
            let pos = match &q.position {
                Some(p) => p,
                None => {
                    return Err(invalid_value("position", owned("(missing)"),
                        "When any quadrant has position, all must specify it. Valid: top-left, top-right, bottom-left, bottom-right"));
                },
            };
            let slot = match position_slot(pos.as_str()) {
                Ok(s) => s,
                Err(_) => {
                    return Err(invalid_value("position", pos.clone(), "Valid values: top-left, top-right, bottom-left, bottom-right"));
                },
            };
            if slots[slot].is_some() {
                return Err(invalid_value("position", pos.clone(), "Duplicate quadrant position"));
            }
            let emphasis = match parse_emphasis(&q.emphasis) {
                Ok(v) => v,
                Err(e) => return Err(e),
            };
            let status = match parse_status(&q.status) {
                Ok(v) => v,
                Err(e) => return Err(e),
            };
            let it = Item { label: q.label.clone(), emphasis, status };
            slots.set(slot, Some(it));
            assert(slots_view(slots) =~= sv.update(slot as int, Some(it@)));
            i = i + 1;
        }
        assert(qs.skip(4) =~= Seq::<SpecRawQuadrant>::empty());
        let ghost sv = slots_view(slots);
        assert(sv[0] is Some && sv[1] is Some && sv[2] is Some && sv[3] is Some);
        let d = slots.pop().unwrap().unwrap();
        let c = slots.pop().unwrap().unwrap();
        let b = slots.pop().unwrap().unwrap();
        let a = slots.pop().unwrap().unwrap();
        let mut v: Vec<Item> = Vec::new();
        v.push(a);
        v.push(b);
        v.push(c);
        v.push(d);
        assert(v@.map_values(|x: Item| x@) =~= seq![sv[0]->Some_0, sv[1]->Some_0, sv[2]->Some_0, sv[3]->Some_0]);
        Ok(v)
    } else {
        assert(!has_positions(qs));
        let ghost f = |q: SpecRawQuadrant| quadrant_item(q);
        let mut out: Vec<Item> = Vec::new();
        proof { lemma_all_ok_ends(qs, f, Seq::empty()); }
        assert(out@.map_values(|x: Item| x@) =~= Seq::<SpecItem>::empty());
        let mut i: usize = 0;
        while i < nq
            invariant
                i <= nq,
                f == (|q: SpecRawQuadrant| quadrant_item(q)),
                all_ok_resume(qs, f, i as int, out@.map_values(|x: Item| x@)),
            decreases nq - i,
        {
            let ghost done = out@.map_values(|x: Item| x@);
            proof { lemma_all_ok_step(qs, f, i as int, done); }
            let q = &raw[i];
            assert(qs[i as int] == q@);
            let emphasis = match parse_emphasis(&q.emphasis) {
                Ok(v) => v,
                Err(e) => return Err(e),
            };
            let status = match parse_status(&q.status) {
                Ok(v) => v,
                Err(e) => return Err(e),
            };
            out.push(Item { label: q.label.clone(), emphasis, status });
            assert(out@.map_values(|x: Item| x@) =~= done.push(f(qs[i as int])->Ok_0));
            i = i + 1;
        }
        proof { lemma_all_ok_ends(qs, f, out@.map_values(|x: Item| x@)); }
        Ok(out)
    }
}

/// The items placed into their quadrants.
#[verifier::loop_isolation(false)]
fn place_matrix_items(raw: &Vec<RawMatrixItem>) -> (r: Result<Vec<MatrixItem>, DeclartError>)
    ensures
        vec_res(r) == place_items(raw@.map_values(|x: RawMatrixItem| x@), seq![0nat, 0nat, 0nat, 0nat]),
{
    // Items classified into quadrants.
    let ghost its = raw@.map_values(|x: RawMatrixItem| x@);
    let mut counts: Vec<usize> = Vec::new();
    counts.push(0);
    counts.push(0);
    counts.push(0);
    counts.push(0);
    let mut items: Vec<MatrixItem> = Vec::new();
    assert(counts_view(counts) =~= seq![0nat, 0nat, 0nat, 0nat]);
    assert(its.skip(0) =~= its);
    assert(items@.map_values(|x: MatrixItem| x@) + place_items(its, counts_view(counts))->Ok_0
        =~= place_items(its, counts_view(counts))->Ok_0);
    let mut i: usize = 0;
    while i < raw.len()
        invariant
            i <= raw@.len(),
            its == raw@.map_values(|x: RawMatrixItem| x@),
            counts@.len() == 4,
            forall|k: int| 0 <= k < 4 ==> #[trigger] counts@[k] <= 6,
            place_items(its, seq![0nat, 0nat, 0nat, 0nat]) == match place_items(its.skip(i as int), counts_view(counts)) {
                Ok(rest) => Ok(items@.map_values(|x: MatrixItem| x@) + rest),
                Err(e) => Err::<Seq<SpecMatrixItem>, SpecError>(e),
            },
        decreases raw@.len() - i,
    {
        let ghost cv = counts_view(counts);
        let ghost done = items@.map_values(|x: MatrixItem| x@);
        assert(its.skip(i as int).drop_first() =~= its.skip(i as int + 1));
        assert(its.skip(i as int)[0] == its[i as int]);
        let it = &raw[i];
        assert(its[i as int] == it@);
        let slot = match position_slot(it.quadrant.as_str()) {
            Ok(s) => s,
            Err(e) => return Err(e),
        };
        let c = counts[slot] + 1;
        if c > MAX_ITEMS_PER_QUADRANT {
            let mut value = decimal_string(c);
            value.append(" items in one quadrant");
            return Err(invalid_value("items", value, "A matrix quadrant supports at most 6 items for legibility"));
        }
        let emphasis = match parse_emphasis(&it.emphasis) {
            Ok(v) => v,
            Err(e) => return Err(e),
        };
        let status = match parse_status(&it.status) {
            Ok(v) => v,
            Err(e) => return Err(e),
        };
        counts.set(slot, c);
        assert(counts_view(counts) =~= cv.update(slot as int, c as nat));
        let mi = MatrixItem { label: it.label.clone(), emphasis, status, quadrant: slot };
        items.push(mi);
        assert(items@.map_values(|x: MatrixItem| x@) =~= done.push(mi@));
        assert forall|rest: Seq<SpecMatrixItem>| done + (seq![mi@] + rest) == #[trigger] (done.push(mi@) + rest) by {
            assert(done + (seq![mi@] + rest) =~= done.push(mi@) + rest);
        }
        i = i + 1;
    }
    assert(its.skip(raw@.len() as int) =~= Seq::<SpecRawMatrixItem>::empty());
    assert(items@.map_values(|x: MatrixItem| x@) + Seq::<SpecMatrixItem>::empty()
        =~= items@.map_values(|x: MatrixItem| x@));
    Ok(items)
}

/// Checks a `matrix` declaration and builds its model.
pub fn validate_matrix(raw: RawMatrixDiagram) -> (r: Result<Diagram, DeclartError>)
    ensures
        res(r) == matrix_value(raw@),
{
    let nq = raw.quadrants.len();
    if nq != 4 {
        return Err(DeclartError::InvalidQuadrantCount(nq));
    }
    let quadrants = match order_quadrants(&raw.quadrants) {
        Ok(q) => q,
        Err(e) => return Err(e),
    };
    let items = match place_matrix_items(&raw.items) {
        Ok(v) => v,
        Err(e) => return Err(e),
    };
    Ok(Diagram::Matrix(MatrixDiagram {
        title: raw.title,
        x_axis: raw.x_axis,
        y_axis: raw.y_axis,
        quadrants,
        items,
    }))
}

} // verus!
