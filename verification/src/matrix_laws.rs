//! Where the quadrants and items of a matrix land, and what a matrix declaration refuses.

use vstd::prelude::*;
use crate::error::SpecError;
use crate::laws::lemma_all_ok_each;
use crate::matrix::{has_positions, matrix_value, place_item, place_items, place_quadrant, place_quadrants,
    quadrant_item, slot_of, empty_slots};
use crate::model::{SpecDiagram, SpecItem, SpecMatrixItem};
use crate::raw::{SpecRawMatrixDiagram, SpecRawMatrixItem, SpecRawQuadrant};

verus! {

/// The slot a quadrant's `position` names, if it has one and the name is known.
pub open spec fn quadrant_slot(q: SpecRawQuadrant) -> Option<nat> {
    match q.position {
        None => None,
        Some(p) => slot_of(p),
    }
}

/// How many of the items name slot `q` as their quadrant.
pub open spec fn items_naming(items: Seq<SpecRawMatrixItem>, q: nat) -> nat
    decreases items.len(),
{
    if items.len() == 0 {
        0
    } else {
        (if slot_of(items[0].quadrant) == Some(q) { 1nat } else { 0nat }) + items_naming(items.drop_first(), q)
    }
}

proof fn lemma_slot_below_four(p: Seq<char>)
    ensures
        slot_of(p) matches Some(s) ==> s < 4,
{
}

/// Placing quadrants by position fills one empty slot per quadrant, no two in the same slot,
/// and leaves every other slot as it was.
proof fn lemma_quadrants_placed(qs: Seq<SpecRawQuadrant>, slots: Seq<Option<SpecItem>>)
    requires
        slots.len() == 4,
        place_quadrants(qs, slots) is Ok,
    ensures
        place_quadrants(qs, slots)->Ok_0.len() == 4,
        forall|i: int| 0 <= i < qs.len() ==> {
            let s = (#[trigger] quadrant_slot(qs[i]))->Some_0 as int;
            &&& quadrant_slot(qs[i]) is Some
            &&& s < 4
            &&& slots[s] is None
            &&& quadrant_item(qs[i]) is Ok
            &&& place_quadrants(qs, slots)->Ok_0[s] == Some(quadrant_item(qs[i])->Ok_0)
        },
        forall|i: int, j: int| 0 <= i < j < qs.len() ==> #[trigger] quadrant_slot(qs[i]) != #[trigger] quadrant_slot(qs[j]),
        forall|t: nat| t < 4 && (forall|i: int| 0 <= i < qs.len() ==> #[trigger] quadrant_slot(qs[i]) != Some(t))
            ==> place_quadrants(qs, slots)->Ok_0[t as int] == slots[t as int],
    decreases qs.len(),
{
    if qs.len() > 0 {
        let q0 = qs[0];
        let rest = qs.drop_first();
        let next = place_quadrant(slots, q0)->Ok_0;
        let s0 = quadrant_slot(q0)->Some_0;
        lemma_slot_below_four(q0.position->Some_0);
        assert(quadrant_slot(q0) is Some && s0 < 4);
        assert(next == slots.update(s0 as int, Some(quadrant_item(q0)->Ok_0)));
        lemma_quadrants_placed(rest, next);
        let res = place_quadrants(qs, slots)->Ok_0;
        assert(res == place_quadrants(rest, next)->Ok_0);
        assert forall|i: int| 0 <= i < rest.len() implies #[trigger] quadrant_slot(rest[i]) != Some(s0) by {
            assert(next[s0 as int] is Some);
        }
        assert(res[s0 as int] == next[s0 as int]);
        assert forall|i: int| 0 <= i < qs.len() implies {
            let s = (#[trigger] quadrant_slot(qs[i]))->Some_0 as int;
            &&& quadrant_slot(qs[i]) is Some
            &&& s < 4
            &&& slots[s] is None
            &&& quadrant_item(qs[i]) is Ok
            &&& res[s] == Some(quadrant_item(qs[i])->Ok_0)
        } by {
            if i > 0 {
                assert(qs[i] == rest[i - 1]);
                assert(quadrant_slot(rest[i - 1]) != Some(s0));
            }
        }
        assert forall|i: int, j: int| 0 <= i < j < qs.len() implies #[trigger] quadrant_slot(qs[i]) != #[trigger] quadrant_slot(qs[j]) by {
            assert(qs[j] == rest[j - 1]);
            if i > 0 {
                assert(qs[i] == rest[i - 1]);
            } else {
                assert(quadrant_slot(rest[j - 1]) != Some(s0));
            }
        }
        assert forall|t: nat| t < 4 && (forall|i: int| 0 <= i < qs.len() ==> #[trigger] quadrant_slot(qs[i]) != Some(t))
            implies res[t as int] == slots[t as int] by {
            assert forall|i: int| 0 <= i < rest.len() implies #[trigger] quadrant_slot(rest[i]) != Some(t) by {
                assert(rest[i] == qs[i + 1]);
            }
            assert(quadrant_slot(qs[0]) != Some(t));
            assert(s0 != t);
            assert(res[t as int] == place_quadrants(rest, next)->Ok_0[t as int]);
            assert(next[t as int] == slots[t as int]);
        }
    }
}

/// Placing items counts them per slot: each item keeps its label and lands in the slot its
/// `quadrant` names, and no slot goes past six.
proof fn lemma_items_placed(items: Seq<SpecRawMatrixItem>, counts: Seq<nat>)
    requires
        counts.len() == 4,
        forall|q: int| 0 <= q < 4 ==> #[trigger] counts[q] <= 6,
        place_items(items, counts) is Ok,
    ensures
        place_items(items, counts)->Ok_0.len() == items.len(),
        forall|k: int| 0 <= k < items.len() ==> {
            let m = #[trigger] place_items(items, counts)->Ok_0[k];
            &&& slot_of(items[k].quadrant) == Some(m.quadrant)
            &&& m.label == items[k].label
        },
        forall|q: nat| q < 4 ==> counts[q as int] + #[trigger] items_naming(items, q) <= 6,
    decreases items.len(),
{
    if items.len() > 0 {
        let (next, mi) = place_item(counts, items[0])->Ok_0;
        let s = mi.quadrant;
        lemma_slot_below_four(items[0].quadrant);
        assert(slot_of(items[0].quadrant) == Some(s) && s < 4);
        assert(next == counts.update(s as int, counts[s as int] + 1));
        assert forall|q: int| 0 <= q < 4 implies #[trigger] next[q] <= 6 by {
            if q != s as int {
                assert(next[q] == counts[q]);
            }
        }
        lemma_items_placed(items.drop_first(), next);
        let rest = place_items(items.drop_first(), next)->Ok_0;
        let out = place_items(items, counts)->Ok_0;
        assert(out == seq![mi] + rest);
        assert forall|k: int| 0 <= k < items.len() implies {
            let m = #[trigger] out[k];
            &&& slot_of(items[k].quadrant) == Some(m.quadrant)
            &&& m.label == items[k].label
        } by {
            if k > 0 {
                assert(out[k] == rest[k - 1]);
                assert(items[k] == items.drop_first()[k - 1]);
            }
        }
        assert forall|q: nat| q < 4 implies counts[q as int] + #[trigger] items_naming(items, q) <= 6 by {
            assert(items_naming(items, q) == (if slot_of(items[0].quadrant) == Some(q) { 1nat } else { 0nat })
                + items_naming(items.drop_first(), q));
            assert(next[q as int] + items_naming(items.drop_first(), q) <= 6);
            if q != s {
                assert(next[q as int] == counts[q as int]);
            }
        }
    }
}

/// What an accepted matrix holds. Its title and axes are those declared. It has four
/// quadrants: when no quadrant declares a position they stand in declared order, otherwise
/// every quadrant declares a known position, no two the same, and stands in the slot its
/// position names (0 top-left, 1 top-right, 2 bottom-left, 3 bottom-right). Each item keeps
/// its label and sits in the slot its `quadrant` names; no slot is named by more than six items.
pub proof fn lemma_matrix_model(raw: SpecRawMatrixDiagram)
    requires
        matrix_value(raw) is Ok,
    ensures
        matrix_value(raw)->Ok_0 matches SpecDiagram::Matrix(d) && {
            &&& d.title == raw.title && d.x_axis == raw.x_axis && d.y_axis == raw.y_axis
            &&& d.quadrants.len() == 4
            &&& !has_positions(raw.quadrants) ==> forall|i: int| 0 <= i < 4 ==>
                quadrant_item(raw.quadrants[i]) == Ok::<SpecItem, SpecError>(#[trigger] d.quadrants[i])
                && d.quadrants[i].label == raw.quadrants[i].label
            &&& has_positions(raw.quadrants) ==> forall|i: int| 0 <= i < 4 ==> {
                let s = (#[trigger] quadrant_slot(raw.quadrants[i]))->Some_0 as int;
                &&& quadrant_slot(raw.quadrants[i]) is Some
                &&& quadrant_item(raw.quadrants[i]) == Ok::<SpecItem, SpecError>(d.quadrants[s])
                &&& d.quadrants[s].label == raw.quadrants[i].label
            }
            &&& has_positions(raw.quadrants) ==> forall|i: int, j: int| 0 <= i < j < 4
                ==> #[trigger] quadrant_slot(raw.quadrants[i]) != #[trigger] quadrant_slot(raw.quadrants[j])
            &&& d.items.len() == raw.items.len()
            &&& forall|k: int| 0 <= k < d.items.len() ==> slot_of(raw.items[k].quadrant) == Some((#[trigger] d.items[k]).quadrant)
                && d.items[k].label == raw.items[k].label
            &&& forall|q: nat| q < 4 ==> #[trigger] items_naming(raw.items, q) <= 6
        },
{
    let qs = raw.quadrants;
    let d = matrix_value(raw)->Ok_0->Matrix_0;
    if !has_positions(qs) {
        let f = |q: SpecRawQuadrant| quadrant_item(q);
        lemma_all_ok_each(qs, f);
        assert(d.quadrants == crate::rules::all_ok(qs, f)->Ok_0);
        assert forall|i: int| 0 <= i < 4 implies
            quadrant_item(qs[i]) == Ok::<SpecItem, SpecError>(#[trigger] d.quadrants[i])
            && d.quadrants[i].label == qs[i].label by {
            assert(f(qs[i]) == Ok::<SpecItem, SpecError>(d.quadrants[i]));
        }
    } else {
        lemma_quadrants_placed(qs, empty_slots());
        let res = place_quadrants(qs, empty_slots())->Ok_0;
        assert(d.quadrants == seq![res[0]->Some_0, res[1]->Some_0, res[2]->Some_0, res[3]->Some_0]);
        assert forall|i: int| 0 <= i < 4 implies {
            let s = (#[trigger] quadrant_slot(qs[i]))->Some_0 as int;
            &&& quadrant_slot(qs[i]) is Some
            &&& quadrant_item(qs[i]) == Ok::<SpecItem, SpecError>(d.quadrants[s])
            &&& d.quadrants[s].label == qs[i].label
        } by {
            let s = quadrant_slot(qs[i])->Some_0 as int;
            assert(res[s] == Some(quadrant_item(qs[i])->Ok_0));
            assert(d.quadrants[s] == res[s]->Some_0);
        }
    }
    let zeros = seq![0nat, 0nat, 0nat, 0nat];
    lemma_items_placed(raw.items, zeros);
    assert forall|q: nat| q < 4 implies #[trigger] items_naming(raw.items, q) <= 6 by {
        assert(zeros[q as int] + items_naming(raw.items, q) <= 6);
    }
}

/// What a matrix declaration refuses: other than four quadrants (with the count as the
/// error); a quadrant without a known position when some quadrant declares one; two quadrants
/// declaring the same position; an item naming no known quadrant; more than six items naming
/// one quadrant.
pub proof fn lemma_matrix_refusals(raw: SpecRawMatrixDiagram)
    ensures
        raw.quadrants.len() != 4 ==> matrix_value(raw) == Err::<SpecDiagram, SpecError>(
            SpecError::InvalidQuadrantCount(raw.quadrants.len())),
        has_positions(raw.quadrants) && (exists|i: int| 0 <= i < raw.quadrants.len()
            && (#[trigger] quadrant_slot(raw.quadrants[i])) is None) ==> matrix_value(raw) is Err,
        (exists|i: int, j: int| 0 <= i < j < raw.quadrants.len() && (#[trigger] raw.quadrants[i]).position is Some
            && raw.quadrants[i].position == (#[trigger] raw.quadrants[j]).position) ==> matrix_value(raw) is Err,
        (exists|k: int| 0 <= k < raw.items.len() && slot_of((#[trigger] raw.items[k]).quadrant) is None)
            ==> matrix_value(raw) is Err,
        (exists|q: nat| q < 4 && #[trigger] items_naming(raw.items, q) > 6) ==> matrix_value(raw) is Err,
{
    let qs = raw.quadrants;
    if matrix_value(raw) is Ok {
        lemma_matrix_model(raw);
        let d = matrix_value(raw)->Ok_0->Matrix_0;
        if exists|i: int, j: int| 0 <= i < j < qs.len() && (#[trigger] qs[i]).position is Some
            && qs[i].position == (#[trigger] qs[j]).position {
            let (i, j) = choose|i: int, j: int| 0 <= i < j < qs.len() && (#[trigger] qs[i]).position is Some
                && qs[i].position == (#[trigger] qs[j]).position;
            assert(has_positions(qs));
            assert(quadrant_slot(qs[i]) is Some);
            assert(quadrant_slot(qs[i]) == quadrant_slot(qs[j]));
        }
        if exists|k: int| 0 <= k < raw.items.len() && slot_of((#[trigger] raw.items[k]).quadrant) is None {
            let k = choose|k: int| 0 <= k < raw.items.len() && slot_of((#[trigger] raw.items[k]).quadrant) is None;
            assert(slot_of(raw.items[k].quadrant) == Some(d.items[k].quadrant));
        }
    }
}

} // verus!
