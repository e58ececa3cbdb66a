//! The rules of the `hierarchy` kind.

use vstd::prelude::*;
use crate::error::{DeclartError, SpecError};
use crate::model::{Diagram, HierarchyDiagram, HierarchyNode, HierarchyView, SpecDiagram,
    SpecHierarchyDiagram, SpecHierarchyNode, opt_str};
use crate::raw::{RawHierarchyDiagram, RawHierarchyNode, SpecRawHierarchyDiagram, SpecRawHierarchyNode};
use crate::rules::{all_ok, all_ok_resume, invalid, invalid_value, lemma_all_ok_ends,
    lemma_all_ok_step, opt_is, opt_str_eq, res};
use crate::text::{decimal, decimal_string, owned, str_eq};

verus! {

/// No two nodes share a label.
pub open spec fn labels_unique(nodes: Seq<SpecRawHierarchyNode>) -> bool {
    forall|i: int, j: int| 0 <= i < j < nodes.len() ==> #[trigger] nodes[i].label != #[trigger] nodes[j].label
}

/// No two nodes share an id.
pub open spec fn ids_unique(nodes: Seq<SpecRawHierarchyNode>) -> bool {
    forall|i: int, j: int| 0 <= i < j < nodes.len() && (#[trigger] nodes[i]).id is Some
        && (#[trigger] nodes[j]).id is Some ==> nodes[i].id != nodes[j].id
}

/// Some node has `p` as its id or its label.
pub open spec fn names_node(nodes: Seq<SpecRawHierarchyNode>, p: Seq<char>) -> bool {
    exists|j: int| 0 <= j < nodes.len() && (#[trigger] nodes[j].id == Some(p) || nodes[j].label == p)
}

/// The parent reference of `n` is refused when it names no node, or names `n` itself.
pub open spec fn parent_check(nodes: Seq<SpecRawHierarchyNode>, n: SpecRawHierarchyNode) -> Result<(), SpecError> {
    match n.parent {
        None => Ok(()),
        Some(p) => if !names_node(nodes, p) {
            Err(invalid("parent"@, p, "parent must reference an existing node id or label"@))
        } else if n.id == Some(p) || n.label == p {
            Err(invalid("parent"@, p, "A node cannot be its own parent"@))
        } else {
            Ok(())
        },
    }
}

/// The number of nodes without a parent.
pub open spec fn count_roots(nodes: Seq<SpecRawHierarchyNode>) -> nat
    decreases nodes.len(),
{
    if nodes.len() == 0 {
        0
    } else {
        count_roots(nodes.drop_last()) + if nodes.last().parent is None { 1nat } else { 0nat }
    }
}

/// The hierarchy view a `view` value names; absent means org chart for one root and
/// fishbone otherwise.
pub open spec fn hierarchy_view_value(v: Option<Seq<char>>, roots: nat) -> Result<HierarchyView, SpecError> {
    match v {
        None => if roots == 1 { Ok(HierarchyView::OrgChart) } else { Ok(HierarchyView::Fishbone) },
        Some(x) => if x == "org_chart"@ {
            Ok(HierarchyView::OrgChart)
        } else if x == "fishbone"@ {
            Ok(HierarchyView::Fishbone)
        } else if x == "mind_map"@ {
            Ok(HierarchyView::MindMap)
        } else {
            Err(invalid("view"@, x, "Valid view values for hierarchy: org_chart, fishbone, mind_map"@))
        },
    }
}

pub open spec fn node_value(n: SpecRawHierarchyNode) -> SpecHierarchyNode {
    SpecHierarchyNode { label: n.label, id: n.id, parent: n.parent }
}

/// The rules of the `hierarchy` kind.
pub open spec fn hierarchy_value(raw: SpecRawHierarchyDiagram) -> Result<SpecDiagram, SpecError> {
    let nodes = raw.nodes;
    if nodes.len() == 0 {
        Err(SpecError::EmptyItems)
    } else if !labels_unique(nodes) {
        Err(invalid("label"@, "(duplicate)"@, "Each node label must be unique within the diagram"@))
    } else if !ids_unique(nodes) {
        Err(invalid("id"@, "(duplicate)"@, "Each node id must be unique within the diagram"@))
    } else {
        match all_ok(nodes, |x: SpecRawHierarchyNode| parent_check(nodes, x)) {
            Err(e) => Err(e),
            Ok(_) => {
                let roots = count_roots(nodes);
                if roots == 0 {
                    Err(invalid("parent"@, "(all nodes have parents)"@,
                        "At least one root node (with no parent) is required"@))
                } else {
                    match hierarchy_view_value(raw.view, roots) {
                        Err(e) => Err(e),
                        Ok(view) => if (view == HierarchyView::OrgChart || view == HierarchyView::MindMap)
                            && roots != 1 {
                            Err(invalid("parent"@, decimal(roots) + " root nodes"@,
                                "org_chart and mind_map views require exactly one root node"@))
                        } else if view == HierarchyView::Fishbone && roots < 2 {
                            Err(SpecError::TooFewItems { kind: "hierarchy/fishbone"@, min: 2, got: roots })
                        } else if view == HierarchyView::Fishbone && roots > 20 {
                            Err(invalid("nodes"@, decimal(roots) + " root nodes"@,
                                "fishbone view supports at most 20 cause categories"@))
                        } else {
                            Ok(SpecDiagram::Hierarchy(SpecHierarchyDiagram {
                                title: raw.title,
                                effect: raw.effect,
                                view,
                                nodes: nodes.map_values(|n: SpecRawHierarchyNode| node_value(n)),
                            }))
                        },
                    }
                }
            },
        }
    }
}

fn node_names(nodes: &Vec<RawHierarchyNode>, p: &String) -> (r: bool)
    ensures
        r == names_node(nodes@.map_values(|x: RawHierarchyNode| x@), p@),
{
    let ghost s = nodes@.map_values(|x: RawHierarchyNode| x@);
    let mut j: usize = 0;
    while j < nodes.len()
        invariant
            j <= nodes@.len(),
            s == nodes@.map_values(|x: RawHierarchyNode| x@),
            forall|k: int| 0 <= k < j ==> !(#[trigger] s[k].id == Some(p@) || s[k].label == p@),
        decreases nodes@.len() - j,
    {
        let hit = opt_is(&nodes[j].id, p.as_str()) || str_eq(nodes[j].label.as_str(), p.as_str());
        assert(s[j as int] == nodes@[j as int]@);
        if hit {
            assert(s[j as int].id == Some(p@) || s[j as int].label == p@);
            return true;
        }
        j = j + 1;
    }
    false
}

/// Checks a `hierarchy` declaration and builds its model.
#[verifier::loop_isolation(false)]
pub fn validate_hierarchy(raw: RawHierarchyDiagram) -> (r: Result<Diagram, DeclartError>)
    ensures
        res(r) == hierarchy_value(raw@),
{
    let ghost nodes = raw@.nodes;
    let n = raw.nodes.len();
    assert(nodes.len() == n);
    if n == 0 {
        return Err(DeclartError::EmptyItems);
    }
    // Labels are unique.
    let mut i: usize = 0;
    while i < n
        invariant
            i <= n,
            forall|a: int, b: int| 0 <= a < b < i ==> #[trigger] nodes[a].label != #[trigger] nodes[b].label,
        decreases n - i,
    {
        let mut j: usize = 0;
        while j < i
            invariant
                j <= i,
                forall|a: int| 0 <= a < j ==> #[trigger] nodes[a].label != nodes[i as int].label,
            decreases i - j,
        {
            let same = str_eq(raw.nodes[j].label.as_str(), raw.nodes[i].label.as_str());
            assert(nodes[j as int] == raw.nodes@[j as int]@ && nodes[i as int] == raw.nodes@[i as int]@);
            if same {
                assert(nodes[j as int].label == nodes[i as int].label);
                return Err(invalid_value("label", owned("(duplicate)"), "Each node label must be unique within the diagram"));
            }
            j = j + 1;
        }
        i = i + 1;
    }
    // Ids are unique.
    let mut i: usize = 0;
    while i < n
        invariant
            i <= n,
            labels_unique(nodes),
            forall|a: int, b: int| 0 <= a < b < i && (#[trigger] nodes[a]).id is Some
                && (#[trigger] nodes[b]).id is Some ==> nodes[a].id != nodes[b].id,
        decreases n - i,
    {
        let mut j: usize = 0;
        while j < i
            invariant
                j <= i,
                forall|a: int| 0 <= a < j && (#[trigger] nodes[a]).id is Some && nodes[i as int].id is Some
                    ==> nodes[a].id != nodes[i as int].id,
            decreases i - j,
        {
            let same = raw.nodes[j].id.is_some() && opt_str_eq(&raw.nodes[j].id, &raw.nodes[i].id);
            assert(nodes[j as int] == raw.nodes@[j as int]@ && nodes[i as int] == raw.nodes@[i as int]@);
            if same {
                assert(nodes[j as int].id is Some && nodes[i as int].id is Some
                    && nodes[j as int].id == nodes[i as int].id);
                return Err(invalid_value("id", owned("(duplicate)"), "Each node id must be unique within the diagram"));
            }
            j = j + 1;
        }
        i = i + 1;
    }
    // Parent references.
    let ghost f = |x: SpecRawHierarchyNode| parent_check(nodes, x);
    let ghost mut done: Seq<()> = Seq::empty();
    proof { lemma_all_ok_ends(nodes, f, done); }
    let mut i: usize = 0;
    while i < n
        invariant
            i <= n,
            labels_unique(nodes),
            ids_unique(nodes),
            f == (|x: SpecRawHierarchyNode| parent_check(nodes, x)),
            all_ok_resume(nodes, f, i as int, done),
        decreases n - i,
    {
        proof { lemma_all_ok_step(nodes, f, i as int, done); }
        let node = &raw.nodes[i];
        assert(nodes[i as int] == node@);
        if let Some(p) = &node.parent {
            if !node_names(&raw.nodes, p) {
                return Err(invalid_value("parent", p.clone(), "parent must reference an existing node id or label"));
            }
            if opt_is(&node.id, p.as_str()) || str_eq(node.label.as_str(), p.as_str()) {
                return Err(invalid_value("parent", p.clone(), "A node cannot be its own parent"));
            }
        }
        proof { done = done.push(()); }
        i = i + 1;
    }
    proof { lemma_all_ok_ends(nodes, f, done); }
    // Roots.
    let mut roots: usize = 0;
    let mut i: usize = 0;
    while i < n
        invariant
            i <= n,
            roots == count_roots(nodes.take(i as int)),
            roots <= i,
        decreases n - i,
    {
        assert(nodes.take(i as int + 1).drop_last() =~= nodes.take(i as int));
        assert(nodes[i as int] == raw.nodes@[i as int]@);
        if raw.nodes[i].parent.is_none() {
            roots = roots + 1;
        }
        i = i + 1;
    }
    assert(nodes.take(n as int) =~= nodes);
    if roots == 0 {
        return Err(invalid_value("parent", owned("(all nodes have parents)"),
            "At least one root node (with no parent) is required"));
    }
    let view = match &raw.view {
        None => if roots == 1 { HierarchyView::OrgChart } else { HierarchyView::Fishbone },
        Some(x) => if str_eq(x.as_str(), "org_chart") {
            HierarchyView::OrgChart
        } else if str_eq(x.as_str(), "fishbone") {
            HierarchyView::Fishbone
        } else if str_eq(x.as_str(), "mind_map") {
            HierarchyView::MindMap
        } else {
            return Err(invalid_value("view", x.clone(), "Valid view values for hierarchy: org_chart, fishbone, mind_map"));
        },
    };
    if (view == HierarchyView::OrgChart || view == HierarchyView::MindMap) && roots != 1 {
        let mut value = decimal_string(roots);
        value.append(" root nodes");
        return Err(invalid_value("parent", value, "org_chart and mind_map views require exactly one root node"));
    }
    if view == HierarchyView::Fishbone && roots < 2 {
        return Err(DeclartError::TooFewItems { kind: owned("hierarchy/fishbone"), min: 2, got: roots });
    }
    if view == HierarchyView::Fishbone && roots > 20 {
        let mut value = decimal_string(roots);
        value.append(" root nodes");
        return Err(invalid_value("nodes", value, "fishbone view supports at most 20 cause categories"));
    }
    let mut out: Vec<HierarchyNode> = Vec::new();
    let mut i: usize = 0;
    while i < n
        invariant
            i <= n,
            out@.len() == i,
            forall|k: int| 0 <= k < i ==> (#[trigger] out@[k])@ == node_value(nodes[k]),
        decreases n - i,
    {
        let src = &raw.nodes[i];
        assert(nodes[i as int] == src@);
        out.push(HierarchyNode { label: src.label.clone(), id: src.id.clone(), parent: src.parent.clone() });
        i = i + 1;
    }
    let d = HierarchyDiagram { title: raw.title, effect: raw.effect, view, nodes: out };
    assert(d@.nodes =~= nodes.map_values(|x: SpecRawHierarchyNode| node_value(x)));
    Ok(Diagram::Hierarchy(d))
}

} // verus!
