//! What each kind refuses and what an accepted declaration becomes, stated field by field.

use vstd::prelude::*;
use crate::comparison::{cell_key_check, column_labels, comparison_value, distinct, row_check, row_labels_of};
use crate::error::SpecError;
use crate::laws::lemma_all_ok_each;
use crate::model::{SpecDiagram, SpecStateNode, SpecStateTransition, StateRole, TransitionKind};
use crate::raw::{SpecRawComparisonDiagram, SpecRawComparisonRow, SpecRawStateDiagram, SpecRawStateNode,
    SpecRawStateTransition, SpecRawTimelineDiagram, SpecRawTimelineEvent};
use crate::rules::{all_ok, invalid};
use crate::timeline::{dates_valid, first_bad_date, normalized_date, timeline_value};
use crate::state::{count_initial, names_state, state_node_value, state_value, transition_kind_value,
    transition_value};

verus! {

/// `all_ok` refuses a sequence in which `f` refuses some element.
pub proof fn lemma_all_ok_refuses<A, B>(s: Seq<A>, f: spec_fn(A) -> Result<B, SpecError>, i: int)
    requires
        0 <= i < s.len(),
        f(s[i]) is Err,
    ensures
        all_ok(s, f) is Err,
{
    if all_ok(s, f) is Ok {
        lemma_all_ok_each(s, f);
    }
}

/// `all_ok` accepts a sequence in which `f` accepts every element.
pub proof fn lemma_all_ok_accepts<A, B>(s: Seq<A>, f: spec_fn(A) -> Result<B, SpecError>)
    requires
        forall|i: int| 0 <= i < s.len() ==> (#[trigger] f(s[i])) is Ok,
    ensures
        all_ok(s, f) is Ok,
    decreases s.len(),
{
    if s.len() > 0 {
        assert(f(s[0]) is Ok);
        assert forall|i: int| 0 <= i < s.drop_first().len() implies (#[trigger] f(s.drop_first()[i])) is Ok by {
            assert(s.drop_first()[i] == s[i + 1]);
            assert(f(s[i + 1]) is Ok);
        }
        lemma_all_ok_accepts(s.drop_first(), f);
    }
}

/// A `role` value the state kind knows.
pub open spec fn known_role(r: Option<Seq<char>>) -> bool {
    r is None || r == Some("initial"@) || r == Some("terminal"@)
}

/// A transition `type` value the state kind knows.
pub open spec fn known_transition_type(k: Option<Seq<char>>) -> bool {
    k is None || k == Some("normal"@) || k == Some("exception"@)
}

/// The role a known `role` value names.
pub open spec fn role_named(r: Option<Seq<char>>) -> Option<StateRole> {
    if r == Some("initial"@) {
        Some(StateRole::Initial)
    } else if r == Some("terminal"@) {
        Some(StateRole::Terminal)
    } else {
        None
    }
}

/// A state declaration is refused when it has fewer than two states, when a state without
/// an id shares its label with another state, when a role is neither `initial` nor `terminal` or more than
/// one state is initial, or when a transition names no state or has an unknown type.
pub proof fn lemma_state_refusals(raw: SpecRawStateDiagram)
    ensures
        raw.states.len() < 2 ==> state_value(raw) == Err::<SpecDiagram, SpecError>(
            SpecError::TooFewItems { kind: "state"@, min: 2, got: raw.states.len() }),
        (exists|i: int, j: int| 0 <= i < j < raw.states.len()
            && ((#[trigger] raw.states[i]).id is None || (#[trigger] raw.states[j]).id is None)
            && raw.states[i].label == raw.states[j].label)
            ==> state_value(raw) is Err,
        (exists|i: int| 0 <= i < raw.states.len() && !known_role((#[trigger] raw.states[i]).role))
            ==> state_value(raw) is Err,
        count_initial(raw.states) > 1 ==> state_value(raw) is Err,
        (exists|t: int| 0 <= t < raw.transitions.len() && {
            let tr = #[trigger] raw.transitions[t];
            !names_state(raw.states, tr.from) || !names_state(raw.states, tr.to)
                || !known_transition_type(tr.kind)
        }) ==> state_value(raw) is Err,
{
    let states = raw.states;
    let fs = |s: SpecRawStateNode| state_node_value(s);
    let ft = |t: SpecRawStateTransition| transition_value(states, t);
    if exists|i: int| 0 <= i < states.len() && !known_role((#[trigger] states[i]).role) {
        let i = choose|i: int| 0 <= i < states.len() && !known_role((#[trigger] states[i]).role);
        assert(fs(states[i]) is Err);
        lemma_all_ok_refuses(states, fs, i);
    }
    if exists|t: int| 0 <= t < raw.transitions.len() && {
        let tr = #[trigger] raw.transitions[t];
        !names_state(raw.states, tr.from) || !names_state(raw.states, tr.to) || !known_transition_type(tr.kind)
    } {
        let t = choose|t: int| 0 <= t < raw.transitions.len() && {
            let tr = #[trigger] raw.transitions[t];
            !names_state(raw.states, tr.from) || !names_state(raw.states, tr.to) || !known_transition_type(tr.kind)
        };
        assert(ft(raw.transitions[t]) is Err);
        lemma_all_ok_refuses(raw.transitions, ft, t);
    }
}

/// An accepted state diagram keeps the title; each state keeps its label and id in order and
/// gets the role its `role` names, which is `initial`, `terminal` or absent; each transition
/// keeps its ends and trigger in order, its ends name states, its `type` is `normal`,
/// `exception` or absent, and `exception` marks an exception transition, anything else a
/// normal one.
pub proof fn lemma_state_model(raw: SpecRawStateDiagram)
    requires
        state_value(raw) is Ok,
    ensures
        state_value(raw)->Ok_0 matches SpecDiagram::State(d) && {
            &&& d.title == raw.title
            &&& d.states.len() == raw.states.len()
            &&& forall|i: int| 0 <= i < d.states.len() ==> {
                let (s, r) = (#[trigger] d.states[i], raw.states[i]);
                s.label == r.label && s.id == r.id && known_role(r.role) && s.role == role_named(r.role)
            }
            &&& d.transitions.len() == raw.transitions.len()
            &&& forall|t: int| 0 <= t < d.transitions.len() ==> {
                let (m, r) = (#[trigger] d.transitions[t], raw.transitions[t]);
                &&& m.from == r.from && m.to == r.to && m.trigger == r.trigger
                &&& known_transition_type(r.kind)
                &&& m.kind == if r.kind == Some("exception"@) { TransitionKind::Exception } else { TransitionKind::Normal }
                &&& names_state(raw.states, r.from) && names_state(raw.states, r.to)
            }
        },
{
    let states = raw.states;
    let fs = |s: SpecRawStateNode| state_node_value(s);
    let ft = |t: SpecRawStateTransition| transition_value(states, t);
    lemma_all_ok_each(states, fs);
    lemma_all_ok_each(raw.transitions, ft);
    let d = state_value(raw)->Ok_0->State_0;
    assert forall|i: int| 0 <= i < d.states.len() implies {
        let (s, r) = (#[trigger] d.states[i], raw.states[i]);
        s.label == r.label && s.id == r.id && known_role(r.role) && s.role == role_named(r.role)
    } by {
        reveal_strlit("initial");
        reveal_strlit("terminal");
        assert(fs(states[i]) == Ok::<SpecStateNode, SpecError>(d.states[i]));
    }
    assert forall|t: int| 0 <= t < d.transitions.len() implies {
        let (m, r) = (#[trigger] d.transitions[t], raw.transitions[t]);
        &&& m.from == r.from && m.to == r.to && m.trigger == r.trigger
        &&& known_transition_type(r.kind)
        &&& m.kind == if r.kind == Some("exception"@) { TransitionKind::Exception } else { TransitionKind::Normal }
        &&& names_state(raw.states, r.from) && names_state(raw.states, r.to)
    } by {
        reveal_strlit("normal");
        reveal_strlit("exception");
        let r = raw.transitions[t];
        assert(ft(r) == Ok::<SpecStateTransition, SpecError>(d.transitions[t]));
        assert(ft(r) == transition_value(states, r));
        assert(names_state(states, r.from) && names_state(states, r.to));
        assert(transition_kind_value(r.kind) == Ok::<TransitionKind, SpecError>(d.transitions[t].kind));
        if r.kind == Some("exception"@) {
            assert("exception"@.len() != "normal"@.len());
            assert(transition_kind_value(r.kind) == Ok::<TransitionKind, SpecError>(TransitionKind::Exception));
            assert(d.transitions[t].kind == TransitionKind::Exception);
        } else {
            assert(r.kind is None || r.kind == Some("normal"@));
            assert(d.transitions[t].kind == TransitionKind::Normal);
        }
    }
}

/// Every cell key of every row names a declared column.
pub open spec fn cells_name_columns(raw: SpecRawComparisonDiagram) -> bool {
    forall|i: int, k: int| 0 <= i < raw.rows.len() && 0 <= k < (#[trigger] raw.rows[i]).cells.len()
        ==> column_labels(raw.columns).contains(#[trigger] raw.rows[i].cells[k].0)
}

/// A comparison declaration is accepted exactly when it has one to ten rows and one to eight
/// columns, no column is called `label`, no two columns and no two rows share a label, and
/// every cell key names a declared column.
pub proof fn lemma_comparison_accepted_iff(raw: SpecRawComparisonDiagram)
    ensures
        comparison_value(raw) is Ok <==> {
            &&& 1 <= raw.rows.len() <= 10
            &&& 1 <= raw.columns.len() <= 8
            &&& !column_labels(raw.columns).contains("label"@)
            &&& distinct(column_labels(raw.columns))
            &&& distinct(row_labels_of(raw.rows))
            &&& cells_name_columns(raw)
        },
{
    let labels = column_labels(raw.columns);
    let f = |r: SpecRawComparisonRow| row_check(labels, r);
    let g = |c: (Seq<char>, Seq<char>)| cell_key_check(labels, c);
    if comparison_value(raw) is Ok {
        lemma_all_ok_each(raw.rows, f);
        assert forall|i: int, k: int| 0 <= i < raw.rows.len() && 0 <= k < (#[trigger] raw.rows[i]).cells.len()
            implies labels.contains(#[trigger] raw.rows[i].cells[k].0) by {
            assert(f(raw.rows[i]) is Ok);
            lemma_all_ok_each(raw.rows[i].cells, g);
            assert(g(raw.rows[i].cells[k]) is Ok);
        }
    } else if {
        &&& 1 <= raw.rows.len() <= 10
        &&& 1 <= raw.columns.len() <= 8
        &&& !labels.contains("label"@)
        &&& distinct(labels)
        &&& distinct(row_labels_of(raw.rows))
        &&& cells_name_columns(raw)
    } {
        assert forall|i: int| 0 <= i < raw.rows.len() implies (#[trigger] f(raw.rows[i])) is Ok by {
            let row = raw.rows[i];
            assert forall|k: int| 0 <= k < row.cells.len() implies (#[trigger] g(row.cells[k])) is Ok by {
                assert(labels.contains(raw.rows[i].cells[k].0));
            }
            lemma_all_ok_accepts(row.cells, g);
        }
        lemma_all_ok_accepts(raw.rows, f);
        assert(false);
    }
}

/// Some event at or before `i` has an invalid date while every event before it has a valid one.
proof fn lemma_first_bad_exists(evs: Seq<SpecRawTimelineEvent>, i: int)
    requires
        0 <= i < evs.len(),
        normalized_date(evs[i].date) is None,
    ensures
        exists|j: int| 0 <= j <= i && normalized_date(#[trigger] evs[j].date) is None
            && forall|k: int| 0 <= k < j ==> (#[trigger] normalized_date(evs[k].date)) is Some,
    decreases i,
{
    if exists|k: int| 0 <= k < i && (#[trigger] normalized_date(evs[k].date)) is None {
        let k = choose|k: int| 0 <= k < i && (#[trigger] normalized_date(evs[k].date)) is None;
        lemma_first_bad_exists(evs, k);
    } else {
        assert(normalized_date(evs[i].date) is None);
    }
}

/// A timeline with fewer than two events is refused as too short; otherwise the first event
/// whose date is not `YYYY`, `YYYY-MM` or `YYYY-MM-DD` is refused by its date; a timeline
/// with at least two events, all of valid dates, is accepted.
pub proof fn lemma_timeline_refusals(raw: SpecRawTimelineDiagram)
    ensures
        raw.events.len() < 2 ==> timeline_value(raw) == Err::<SpecDiagram, SpecError>(
            SpecError::TooFewItems { kind: "timeline"@, min: 2, got: raw.events.len() }),
        raw.events.len() >= 2 && !dates_valid(raw.events) ==> exists|j: int| {
            &&& 0 <= j < raw.events.len()
            &&& normalized_date(#[trigger] raw.events[j].date) is None
            &&& forall|k: int| 0 <= k < j ==> (#[trigger] normalized_date(raw.events[k].date)) is Some
            &&& timeline_value(raw) == Err::<SpecDiagram, SpecError>(invalid("date"@, raw.events[j].date,
                "Date must be YYYY, YYYY-MM, or YYYY-MM-DD"@))
        },
        raw.events.len() >= 2 && dates_valid(raw.events) ==> timeline_value(raw) is Ok,
{
    let evs = raw.events;
    if evs.len() >= 2 && !dates_valid(evs) {
        let i = choose|i: int| 0 <= i < evs.len() && (#[trigger] normalized_date(evs[i].date)) is None;
        lemma_first_bad_exists(evs, i);
        let j = first_bad_date(evs);
        assert(0 <= j < evs.len() && normalized_date(evs[j].date) is None);
    }
}

} // verus!
