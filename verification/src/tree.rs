//! The shape of a chart as a tree: each node's children, and how many leaves and how many
//! levels hang below a node.

use vstd::prelude::*;
use crate::model::{OrgChartDiagram, OrgChartNode, SpecOrgChartNode};
use crate::text::str_eq;

verus! {

/// Node `j` names node `i`'s label as its parent.
pub open spec fn is_child(nodes: Seq<SpecOrgChartNode>, i: int, j: int) -> bool {
    nodes[j].parent == Some(nodes[i].label)
}

/// The positions, among the first `upto` nodes, of the nodes whose parent is node `i`'s label.
pub open spec fn children_upto(nodes: Seq<SpecOrgChartNode>, i: int, upto: int) -> Seq<usize>
    decreases upto,
{
    if upto <= 0 {
        Seq::empty()
    } else if is_child(nodes, i, upto - 1) {
        children_upto(nodes, i, upto - 1).push((upto - 1) as usize)
    } else {
        children_upto(nodes, i, upto - 1)
    }
}

/// Each node's children, in order: the nodes whose parent is its label.
pub open spec fn children_spec(nodes: Seq<SpecOrgChartNode>) -> Seq<Seq<usize>> {
    Seq::new(nodes.len(), |i: int| children_upto(nodes, i, nodes.len() as int))
}

/// The children of each node of the chart, by position.
pub fn child_lists(d: &OrgChartDiagram) -> (r: Vec<Vec<usize>>)
    ensures
        r@.map_values(|v: Vec<usize>| v@) == children_spec(d@.nodes),
{
    let ghost ns = d@.nodes;
    let n = d.nodes.len();
    let mut r: Vec<Vec<usize>> = Vec::new();
    let mut i: usize = 0;
    while i < n
        invariant
            n == d.nodes@.len(),
            ns == d@.nodes,
            i <= n,
            r@.len() == i,
            forall|k: int| 0 <= k < i ==> (#[trigger] r@[k])@ == children_upto(ns, k, n as int),
        decreases n - i,
    {
        let mut kids: Vec<usize> = Vec::new();
        let mut j: usize = 0;
        while j < n
            invariant
                n == d.nodes@.len(),
                ns == d@.nodes,
                i < n,
                j <= n,
                kids@ == children_upto(ns, i as int, j as int),
            decreases n - j,
        {
            let is_kid = match &d.nodes[j].parent {
                Some(p) => str_eq(p.as_str(), d.nodes[i].label.as_str()),
                None => false,
            };
            assert(is_kid == is_child(ns, i as int, j as int));
            if is_kid {
                kids.push(j);
            }
            j = j + 1;
        }
        r.push(kids);
        i = i + 1;
    }
    assert(r@.map_values(|v: Vec<usize>| v@) =~= children_spec(ns));
    r
}

/// Every chain of children from node `i` has fewer than `fuel` nodes, and each child named
/// is a node: below `i` hangs a finite tree.
pub open spec fn finite_below(c: Seq<Seq<usize>>, i: int, fuel: nat) -> bool
    decreases fuel,
{
    &&& 0 <= i < c.len()
    &&& fuel > 0
    &&& forall|k: int| 0 <= k < c[i].len() ==> finite_below(c, #[trigger] c[i][k] as int, (fuel - 1) as nat)
}

/// The number of leaves in the subtree of node `i` (one for a leaf, else the sum over its
/// children), looking at most `fuel` levels down.
pub open spec fn leaves(c: Seq<Seq<usize>>, i: int, fuel: nat) -> nat
    decreases fuel, 1int, 0int,
{
    if fuel == 0 || i < 0 || i >= c.len() {
        0
    } else if c[i].len() == 0 {
        1
    } else {
        leaves_from(c, i, fuel, 0)
    }
}

/// The leaves below the children of node `i` from the `k`-th on.
pub open spec fn leaves_from(c: Seq<Seq<usize>>, i: int, fuel: nat, k: int) -> nat
    decreases fuel, 0int, c[i].len() - k,
{
    if fuel == 0 || i < 0 || i >= c.len() || k < 0 || k >= c[i].len() {
        0
    } else {
        leaves(c, c[i][k] as int, (fuel - 1) as nat) + leaves_from(c, i, fuel, k + 1)
    }
}

/// The number of levels below node `i` (zero for a leaf, else one more than its deepest
/// child), looking at most `fuel` levels down.
pub open spec fn depth_below(c: Seq<Seq<usize>>, i: int, fuel: nat) -> nat
    decreases fuel, 1int, 0int,
{
    if fuel == 0 || i < 0 || i >= c.len() || c[i].len() == 0 {
        0
    } else {
        1 + depth_from(c, i, fuel, 0)
    }
}

/// The largest depth below the children of node `i` from the `k`-th on (zero for none).
pub open spec fn depth_from(c: Seq<Seq<usize>>, i: int, fuel: nat, k: int) -> nat
    decreases fuel, 0int, c[i].len() - k,
{
    if fuel == 0 || i < 0 || i >= c.len() || k < 0 || k >= c[i].len() {
        0
    } else {
        let a = depth_below(c, c[i][k] as int, (fuel - 1) as nat);
        let b = depth_from(c, i, fuel, k + 1);
        if a >= b { a } else { b }
    }
}

pub open spec fn lists(children: Vec<Vec<usize>>) -> Seq<Seq<usize>> {
    children@.map_values(|v: Vec<usize>| v@)
}

fn finite_within(idx: usize, children: &Vec<Vec<usize>>, fuel: usize) -> (r: bool)
    ensures
        r == finite_below(lists(*children), idx as int, fuel as nat),
    decreases fuel,
{
    let ghost c = lists(*children);
    if fuel == 0 || idx >= children.len() {
        return false;
    }
    assert(c[idx as int] == children@[idx as int]@);
    let kids = &children[idx];
    let mut k: usize = 0;
    while k < kids.len()
        invariant
            c == lists(*children),
            0 <= idx < c.len(),
            fuel > 0,
            kids@ == c[idx as int],
            0 <= k <= kids@.len(),
            forall|m: int| 0 <= m < k ==> finite_below(c, #[trigger] c[idx as int][m] as int, (fuel - 1) as nat),
        decreases kids@.len() - k,
    {
        if !finite_within(kids[k], children, fuel - 1) {
            assert(!finite_below(c, c[idx as int][k as int] as int, (fuel - 1) as nat));
            return false;
        }
        k = k + 1;
    }
    true
}

/// Whether below node `idx` hangs a finite tree: each chain of children from it has fewer
/// nodes than the chart has, and each child named is a node.
pub fn subtree_is_finite(idx: usize, children: &Vec<Vec<usize>>) -> (r: bool)
    ensures
        r == finite_below(lists(*children), idx as int, children@.len() as nat),
{
    finite_within(idx, children, children.len())
}

proof fn lemma_leaves_from_bound(c: Seq<Seq<usize>>, i: int, fuel: nat, k: int)
    requires
        0 <= i < c.len(),
        fuel > 0,
        0 <= k <= c[i].len(),
    ensures
        leaves_from(c, i, fuel, k) <= leaves_from(c, i, fuel, 0),
    decreases k,
{
    if k > 0 {
        lemma_leaves_from_bound(c, i, fuel, k - 1);
    }
}

fn leaves_below(idx: usize, children: &Vec<Vec<usize>>, Ghost(fuel): Ghost<nat>) -> (r: usize)
    requires
        finite_below(lists(*children), idx as int, fuel),
        leaves(lists(*children), idx as int, fuel) <= usize::MAX,
    ensures
        r == leaves(lists(*children), idx as int, fuel),
    decreases fuel,
{
    let ghost c = lists(*children);
    assert(c[idx as int] == children@[idx as int]@);
    let kids = &children[idx];
    if kids.len() == 0 {
        return 1;
    }
    let mut total: usize = 0;
    let mut k: usize = kids.len();
    while k > 0
        invariant
            c == lists(*children),
            finite_below(c, idx as int, fuel),
            kids@ == c[idx as int],
            0 <= k <= kids@.len(),
            total == leaves_from(c, idx as int, fuel, k as int),
            leaves(c, idx as int, fuel) == leaves_from(c, idx as int, fuel, 0),
            leaves(c, idx as int, fuel) <= usize::MAX,
        decreases k,
    {
        k = k - 1;
        let child = kids[k];
        assert(c[idx as int][k as int] == child);
        assert(finite_below(c, child as int, (fuel - 1) as nat));
        proof {
            lemma_leaves_from_bound(c, idx as int, fuel, k as int);
        }
        let sub = leaves_below(child, children, Ghost((fuel - 1) as nat));
        total = total + sub;
    }
    total
}

/// Counts the leaves of the subtree of node `idx` (a leaf counts one). Below `idx` must hang
/// a finite tree: each chain of children from it has fewer nodes than the chart has.
pub fn count_leaves(idx: usize, children: &Vec<Vec<usize>>) -> (r: usize)
    requires
        finite_below(lists(*children), idx as int, children@.len() as nat),
        leaves(lists(*children), idx as int, children@.len() as nat) <= usize::MAX,
    ensures
        r == leaves(lists(*children), idx as int, children@.len() as nat),
{
    leaves_below(idx, children, Ghost(children@.len() as nat))
}

proof fn lemma_depth_from_bound(c: Seq<Seq<usize>>, i: int, fuel: nat, k: int)
    requires
        0 <= i < c.len(),
        fuel > 0,
        0 <= k <= c[i].len(),
    ensures
        depth_from(c, i, fuel, k) <= depth_from(c, i, fuel, 0),
        k < c[i].len() ==> depth_below(c, c[i][k] as int, (fuel - 1) as nat) <= depth_from(c, i, fuel, 0),
    decreases k,
{
    if k > 0 {
        lemma_depth_from_bound(c, i, fuel, k - 1);
    }
}

fn depth_of(idx: usize, children: &Vec<Vec<usize>>, Ghost(fuel): Ghost<nat>) -> (r: u32)
    requires
        finite_below(lists(*children), idx as int, fuel),
        depth_below(lists(*children), idx as int, fuel) <= u32::MAX,
    ensures
        r == depth_below(lists(*children), idx as int, fuel),
    decreases fuel,
{
    let ghost c = lists(*children);
    assert(c[idx as int] == children@[idx as int]@);
    let kids = &children[idx];
    if kids.len() == 0 {
        return 0;
    }
    let mut best: u32 = 0;
    let mut k: usize = kids.len();
    proof {
        lemma_depth_from_bound(c, idx as int, fuel, k as int);
    }
    while k > 0
        invariant
            c == lists(*children),
            finite_below(c, idx as int, fuel),
            kids@ == c[idx as int],
            0 <= k <= kids@.len(),
            best == depth_from(c, idx as int, fuel, k as int),
            depth_below(c, idx as int, fuel) == 1 + depth_from(c, idx as int, fuel, 0),
            depth_below(c, idx as int, fuel) <= u32::MAX,
        decreases k,
    {
        k = k - 1;
        let child = kids[k];
        assert(c[idx as int][k as int] == child);
        assert(finite_below(c, child as int, (fuel - 1) as nat));
        proof {
            lemma_depth_from_bound(c, idx as int, fuel, k as int);
        }
        let sub = depth_of(child, children, Ghost((fuel - 1) as nat));
        if sub >= best {
            best = sub;
        }
    }
    1 + best
}

/// The number of levels below node `idx` (zero for a leaf). Below `idx` must hang a finite
/// tree: each chain of children from it has fewer nodes than the chart has.
pub fn compute_max_depth(idx: usize, children: &Vec<Vec<usize>>) -> (r: u32)
    requires
        finite_below(lists(*children), idx as int, children@.len() as nat),
        depth_below(lists(*children), idx as int, children@.len() as nat) <= u32::MAX,
    ensures
        r == depth_below(lists(*children), idx as int, children@.len() as nat),
{
    depth_of(idx, children, Ghost(children@.len() as nat))
}

} // verus!
