//! The rules of the `state` kind.

use vstd::prelude::*;
use crate::error::{DeclartError, SpecError};
use crate::model::{Diagram, SpecDiagram, SpecStateDiagram, SpecStateNode, SpecStateTransition,
    StateDiagram, StateNode, StateRole, StateTransition, TransitionKind, opt_str};
use crate::raw::{RawStateDiagram, RawStateNode, SpecRawStateDiagram, SpecRawStateNode,
    SpecRawStateTransition};
use crate::rules::{all_ok, all_ok_resume, invalid, invalid_value, lemma_all_ok_ends,
    lemma_all_ok_step, opt_is, opt_str_eq, res};
use crate::text::{decimal, decimal_string, owned, str_eq};

verus! {

/// The label of a state without an id is the label of no other state; states that each
/// have an id may share a label, since they are referred to by their ids.
pub open spec fn state_labels_unique(states: Seq<SpecRawStateNode>) -> bool {
    forall|i: int, j: int| 0 <= i < j < states.len()
        && ((#[trigger] states[i]).id is None || (#[trigger] states[j]).id is None)
        ==> states[i].label != states[j].label
}

/// No two states share an id.
pub open spec fn state_ids_unique(states: Seq<SpecRawStateNode>) -> bool {
    forall|i: int, j: int| 0 <= i < j < states.len() && (#[trigger] states[i]).id is Some
        && (#[trigger] states[j]).id is Some ==> states[i].id != states[j].id
}

/// The role a `role` value names.
pub open spec fn role_value(r: Option<Seq<char>>) -> Result<Option<StateRole>, SpecError> {
    match r {
        None => Ok(None),
        Some(x) => if x == "initial"@ {
            Ok(Some(StateRole::Initial))
        } else if x == "terminal"@ {
            Ok(Some(StateRole::Terminal))
        } else {
            Err(invalid("role"@, x, "Valid values: initial, terminal"@))
        },
    }
}

pub open spec fn state_node_value(s: SpecRawStateNode) -> Result<SpecStateNode, SpecError> {
    match role_value(s.role) {
        Err(e) => Err(e),
        Ok(role) => Ok(SpecStateNode { label: s.label, id: s.id, role }),
    }
}

/// The number of states whose role is `initial`.
pub open spec fn count_initial(states: Seq<SpecRawStateNode>) -> nat
    decreases states.len(),
{
    if states.len() == 0 {
        0
    } else {
        count_initial(states.drop_last()) + if states.last().role == Some("initial"@) { 1nat } else { 0nat }
    }
}

/// The state has `k` as its label or its id.
pub open spec fn has_name(s: SpecRawStateNode, k: Seq<char>) -> bool {
    s.label == k || s.id == Some(k)
}

/// Some state has `k` as its label or its id.
pub open spec fn names_state(states: Seq<SpecRawStateNode>, k: Seq<char>) -> bool {
    exists|j: int| 0 <= j < states.len() && #[trigger] has_name(states[j], k)
}

/// The transition kind a `type` value names; absent means normal.
pub open spec fn transition_kind_value(k: Option<Seq<char>>) -> Result<TransitionKind, SpecError> {
    match k {
        None => Ok(TransitionKind::Normal),
        Some(x) => if x == "normal"@ {
            Ok(TransitionKind::Normal)
        } else if x == "exception"@ {
            Ok(TransitionKind::Exception)
        } else {
            Err(invalid("type"@, x, "Valid values: normal, exception"@))
        },
    }
}

pub open spec fn transition_value(states: Seq<SpecRawStateNode>, t: SpecRawStateTransition) -> Result<SpecStateTransition, SpecError> {
    if !names_state(states, t.from) {
        Err(invalid("from"@, t.from, "from must reference an existing state id or label"@))
    } else if !names_state(states, t.to) {
        Err(invalid("to"@, t.to, "to must reference an existing state id or label"@))
    } else {
        match transition_kind_value(t.kind) {
            Err(e) => Err(e),
            Ok(kind) => Ok(SpecStateTransition { from: t.from, to: t.to, trigger: t.trigger, kind }),
        }
    }
}

/// The rules of the `state` kind.
pub open spec fn state_value(raw: SpecRawStateDiagram) -> Result<SpecDiagram, SpecError> {
    let states = raw.states;
    if states.len() < 2 {
        Err(SpecError::TooFewItems { kind: "state"@, min: 2, got: states.len() })
    } else if !state_labels_unique(states) {
        Err(invalid("label"@, "(duplicate)"@,
            "Each state label must be unique; use `id` to disambiguate if labels collide"@))
    } else if !state_ids_unique(states) {
        Err(invalid("id"@, "(duplicate)"@, "Each state id must be unique within the diagram"@))
    } else {
        match all_ok(states, |s: SpecRawStateNode| state_node_value(s)) {
            Err(e) => Err(e),
            Ok(nodes) => if count_initial(states) > 1 {
                Err(invalid("role"@, decimal(count_initial(states)) + " initial states"@,
                    "At most one state may have role = \"initial\""@))
            } else {
                match all_ok(raw.transitions, |t: SpecRawStateTransition| transition_value(states, t)) {
                    Err(e) => Err(e),
                    Ok(transitions) => Ok(SpecDiagram::State(SpecStateDiagram {
                        title: raw.title,
                        states: nodes,
                        transitions,
                    })),
                }
            },
        }
    }
}

fn state_named(states: &Vec<RawStateNode>, k: &String) -> (r: bool)
    ensures
        r == names_state(states@.map_values(|x: RawStateNode| x@), k@),
{
    let ghost s = states@.map_values(|x: RawStateNode| x@);
    let mut j: usize = 0;
    while j < states.len()
        invariant
            j <= states@.len(),
            s == states@.map_values(|x: RawStateNode| x@),
            forall|m: int| 0 <= m < j ==> !#[trigger] has_name(s[m], k@),
        decreases states@.len() - j,
    {
        let hit = str_eq(states[j].label.as_str(), k.as_str()) || opt_is(&states[j].id, k.as_str());
        assert(s[j as int] == states@[j as int]@);
        assert(hit == has_name(s[j as int], k@));
        if hit {
            return true;
        }
        j = j + 1;
    }
    false
}

/// Checks a `state` declaration and builds its model.
#[verifier::loop_isolation(false)]
pub fn validate_state(raw: RawStateDiagram) -> (r: Result<Diagram, DeclartError>)
    ensures
        res(r) == state_value(raw@),
{
    let ghost states = raw@.states;
    let n = raw.states.len();
    assert(states.len() == n);
    if n < 2 {
        return Err(DeclartError::TooFewItems { kind: owned("state"), min: 2, got: n });
    }
    let mut i: usize = 0;
    while i < n
        invariant
            i <= n,
            forall|a: int, b: int| 0 <= a < b < i
                && ((#[trigger] states[a]).id is None || (#[trigger] states[b]).id is None)
                ==> states[a].label != states[b].label,
        decreases n - i,
    {
        let mut j: usize = 0;
        while j < i
            invariant
                j <= i,
                forall|a: int| 0 <= a < j && ((#[trigger] states[a]).id is None || states[i as int].id is None)
                    ==> states[a].label != states[i as int].label,
            decreases i - j,
        {
            let same = (raw.states[j].id.is_none() || raw.states[i].id.is_none())
                && str_eq(raw.states[j].label.as_str(), raw.states[i].label.as_str());
            assert(states[j as int] == raw.states@[j as int]@ && states[i as int] == raw.states@[i as int]@);
            if same {
                assert((states[j as int].id is None || states[i as int].id is None)
                    && states[j as int].label == states[i as int].label);
                return Err(invalid_value("label", owned("(duplicate)"),
                    "Each state label must be unique; use `id` to disambiguate if labels collide"));
            }
            j = j + 1;
        }
        i = i + 1;
    }
    let mut i: usize = 0;
    while i < n
        invariant
            i <= n,
            state_labels_unique(states),
            forall|a: int, b: int| 0 <= a < b < i && (#[trigger] states[a]).id is Some
                && (#[trigger] states[b]).id is Some ==> states[a].id != states[b].id,
        decreases n - i,
    {
        let mut j: usize = 0;
        while j < i
            invariant
                j <= i,
                forall|a: int| 0 <= a < j && (#[trigger] states[a]).id is Some && states[i as int].id is Some
                    ==> states[a].id != states[i as int].id,
            decreases i - j,
        {
            let same = raw.states[j].id.is_some() && opt_str_eq(&raw.states[j].id, &raw.states[i].id);
            assert(states[j as int] == raw.states@[j as int]@ && states[i as int] == raw.states@[i as int]@);
            if same {
                assert(states[j as int].id is Some && states[i as int].id is Some
                    && states[j as int].id == states[i as int].id);
                return Err(invalid_value("id", owned("(duplicate)"), "Each state id must be unique within the diagram"));
            }
            j = j + 1;
        }
        i = i + 1;
    }
    // Roles, counting initial states.
    let ghost f = |s: SpecRawStateNode| state_node_value(s);
    let mut nodes: Vec<StateNode> = Vec::new();
    let mut initial: usize = 0;
    proof { lemma_all_ok_ends(states, f, Seq::empty()); }
    assert(nodes@.map_values(|x: StateNode| x@) =~= Seq::<SpecStateNode>::empty());
    let mut i: usize = 0;
    while i < n
        invariant
            i <= n,
            state_labels_unique(states),
            state_ids_unique(states),
            f == (|s: SpecRawStateNode| state_node_value(s)),
            all_ok_resume(states, f, i as int, nodes@.map_values(|x: StateNode| x@)),
            initial == count_initial(states.take(i as int)),
            initial <= i,
        decreases n - i,
    {
        let ghost done = nodes@.map_values(|x: StateNode| x@);
        proof { lemma_all_ok_step(states, f, i as int, done); }
        assert(states.take(i as int + 1).drop_last() =~= states.take(i as int));
        let s = &raw.states[i];
        assert(states[i as int] == s@);
        let role = match &s.role {
            None => None,
            Some(x) => if str_eq(x.as_str(), "initial") {
                initial = initial + 1;
                Some(StateRole::Initial)
            } else if str_eq(x.as_str(), "terminal") {
                Some(StateRole::Terminal)
            } else {
                return Err(invalid_value("role", x.clone(), "Valid values: initial, terminal"));
            },
        };
        nodes.push(StateNode { label: s.label.clone(), id: s.id.clone(), role });
        assert(nodes@.map_values(|x: StateNode| x@) =~= done.push(f(states[i as int])->Ok_0));
        i = i + 1;
    }
    proof { lemma_all_ok_ends(states, f, nodes@.map_values(|x: StateNode| x@)); }
    assert(states.take(n as int) =~= states);
    if initial > 1 {
        let mut value = decimal_string(initial);
        value.append(" initial states");
        return Err(invalid_value("role", value, "At most one state may have role = \"initial\""));
    }
    // Transitions.
    let ghost ts = raw@.transitions;
    let ghost g = |t: SpecRawStateTransition| transition_value(states, t);
    let mut transitions: Vec<StateTransition> = Vec::new();
    proof { lemma_all_ok_ends(ts, g, Seq::empty()); }
    assert(transitions@.map_values(|x: StateTransition| x@) =~= Seq::<SpecStateTransition>::empty());
    let mut i: usize = 0;
    while i < raw.transitions.len()
        invariant
            i <= raw.transitions@.len(),
            ts == raw@.transitions,
            g == (|t: SpecRawStateTransition| transition_value(states, t)),
            all_ok_resume(ts, g, i as int, transitions@.map_values(|x: StateTransition| x@)),
        decreases raw.transitions@.len() - i,
    {
        let ghost done = transitions@.map_values(|x: StateTransition| x@);
        proof { lemma_all_ok_step(ts, g, i as int, done); }
        let t = &raw.transitions[i];
        assert(ts[i as int] == t@);
        if !state_named(&raw.states, &t.from) {
            return Err(invalid_value("from", t.from.clone(), "from must reference an existing state id or label"));
        }
        if !state_named(&raw.states, &t.to) {
            return Err(invalid_value("to", t.to.clone(), "to must reference an existing state id or label"));
        }
        let kind = match &t.kind {
            None => TransitionKind::Normal,
            Some(x) => if str_eq(x.as_str(), "normal") {
                TransitionKind::Normal
            } else if str_eq(x.as_str(), "exception") {
                TransitionKind::Exception
            } else {
                return Err(invalid_value("type", x.clone(), "Valid values: normal, exception"));
            },
        };
        transitions.push(StateTransition {
            from: t.from.clone(),
            to: t.to.clone(),
            trigger: t.trigger.clone(),
            kind,
        });
        assert(transitions@.map_values(|x: StateTransition| x@) =~= done.push(g(ts[i as int])->Ok_0));
        i = i + 1;
    }
    proof { lemma_all_ok_ends(ts, g, transitions@.map_values(|x: StateTransition| x@)); }
    Ok(Diagram::State(StateDiagram { title: raw.title, states: nodes, transitions }))
}

} // verus!
