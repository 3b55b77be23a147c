//! Properties of the graph store and of the step schedule that hold for every
//! graph.

use vstd::prelude::*;
use crate::store::ForceGraph;
use crate::store::EdgeData;
use crate::store::edge_upserted;
use crate::topology::joins;
use crate::topology::touches;
use crate::schedule::NodeStep;

verus! {

/// Helper for [`lemma_live_order`]: the same facts for the indices below `m`.
pub proof fn lemma_live_prefix<N, E>(g: &ForceGraph<N, E>, m: nat)
    requires
        g.wf(),
        m <= g.node_slot_count(),
    ensures
        forall|k: int| 0 <= k < g.live_prefix(m).len()
            ==> g.live_set().contains(#[trigger] g.live_prefix(m)[k] as nat) && (g.live_prefix(m)[k] as nat) < m,
        forall|j: int, k: int| 0 <= j < k < g.live_prefix(m).len()
            ==> g.live_prefix(m)[j] < g.live_prefix(m)[k],
        forall|i: nat| i < m && #[trigger] g.live_set().contains(i)
            ==> exists|k: int| 0 <= k < g.live_prefix(m).len() && g.live_prefix(m)[k] as nat == i,
    decreases m,
{
    g.lemma_wf_bounds();
    if m > 0 {
        let p = (m - 1) as nat;
        lemma_live_prefix(g, p);
        let s = g.live_prefix(p);
        if g.live_set().contains(p) {
            let t = s.push(p as u32);
            assert(g.live_prefix(m) == t);
            assert forall|i: nat| i < m && #[trigger] g.live_set().contains(i)
                implies exists|k: int| 0 <= k < t.len() && t[k] as nat == i by {
                if i == p {
                    assert(t[s.len() as int] as nat == i);
                } else {
                    let k = choose|k: int| 0 <= k < s.len() && s[k] as nat == i;
                    assert(t[k] == s[k]);
                }
            }
        } else {
            assert(g.live_prefix(m) == s);
            assert forall|i: nat| i < m && #[trigger] g.live_set().contains(i)
                implies exists|k: int| 0 <= k < s.len() && s[k] as nat == i by {
                assert(i < p);
            }
        }
    }
}

/// The live node order lists each live node exactly once, in increasing
/// index order, and nothing else.
pub proof fn lemma_live_order<N, E>(g: &ForceGraph<N, E>)
    requires
        g.wf(),
    ensures
        forall|k: int| 0 <= k < g.live_order().len() ==> g.live_set().contains(#[trigger] g.live_order()[k] as nat),
        forall|j: int, k: int| 0 <= j < k < g.live_order().len() ==> g.live_order()[j] < g.live_order()[k],
        forall|i: nat| #[trigger] g.live_set().contains(i)
            ==> exists|k: int| 0 <= k < g.live_order().len() && g.live_order()[k] as nat == i,
        g.live_order().len() == g.live_set().len(),
{
    g.lemma_wf_bounds();
    let m = g.node_slot_count();
    lemma_live_prefix(g, m);
    assert forall|i: nat| #[trigger] g.live_set().contains(i)
        implies exists|k: int| 0 <= k < g.live_order().len() && g.live_order()[k] as nat == i by {
        assert(i < m);
        assert(g.live_order() == g.live_prefix(m));
        let k = choose|k: int| 0 <= k < g.live_prefix(m).len() && g.live_prefix(m)[k] as nat == i;
        assert(g.live_order()[k] as nat == i);
    }
    let o = g.live_order();
    let t = o.map_values(|x: u32| x as nat);
    assert forall|j: int, k: int| 0 <= j < t.len() && 0 <= k < t.len() && j != k implies t[j] != t[k] by {
        if j < k {
            assert(o[j] < o[k]);
        } else {
            assert(o[k] < o[j]);
        }
    }
    assert(t.no_duplicates());
    t.unique_seq_to_set();
    assert forall|i: nat| t.to_set().contains(i) <==> g.live_set().contains(i) by {
        if g.live_set().contains(i) {
            let k = choose|k: int| 0 <= k < o.len() && o[k] as nat == i;
            assert(t[k] == i);
        }
        if t.to_set().contains(i) {
            let k = choose|k: int| 0 <= k < t.len() && t[k] == i;
            assert(g.live_set().contains(o[k] as nat));
        }
    }
    assert(t.to_set() =~= g.live_set());
}

/// A graph with no live nodes has an empty node order, so a step on it
/// schedules nothing.
pub proof fn lemma_empty_graph_schedules_nothing<N, E>(g: &ForceGraph<N, E>)
    requires
        g.wf(),
        g.live_set().is_empty(),
    ensures
        g.live_order().len() == 0,
{
    lemma_live_order(g);
    if g.live_order().len() > 0 {
        assert(g.live_set().contains(g.live_order()[0] as nat));
    }
}

/// In any schedule of a step, an anchored node neither integrates nor is
/// pushed by other nodes, so a step never moves it.
pub proof fn lemma_anchors_never_move<N, E>(g: &ForceGraph<N, E>, plan: Seq<NodeStep>)
    requires
        g.wf(),
        plan.len() == g.live_order().len(),
        forall|k: int| 0 <= k < plan.len() ==> g.step_of(g.live_order()[k] as nat, #[trigger] plan[k]),
    ensures
        forall|k: int| 0 <= k < plan.len() && g.node_at(plan[k].node as nat).spec_anchor()
            ==> !(#[trigger] plan[k]).integrate && plan[k].repel@.len() == 0,
{
}

/// Adding an edge between `a` and `b` and then one between `b` and `a` leaves
/// a single edge joining them, carrying the second payload; the second call
/// adds no edge.
pub proof fn lemma_edge_upsert_twice<N, E>(
    g0: ForceGraph<N, E>,
    g1: ForceGraph<N, E>,
    g2: ForceGraph<N, E>,
    a: nat,
    b: nat,
    d1: EdgeData<E>,
    d2: EdgeData<E>,
)
    requires
        edge_upserted(g0, g1, a, b, d1),
        edge_upserted(g1, g2, b, a, d2),
    ensures
        g2.edge_map() == g1.edge_map(),
        exists|e: nat| {
            &&& g2.edge_map().contains_key(e)
            &&& joins(g2.edge_map()[e], a, b)
            &&& g2.edge_at(e) == d2
            &&& forall|f: nat| #[trigger] g2.edge_map().contains_key(f) && joins(g2.edge_map()[f], a, b) ==> f == e
        },
{
    let e1 = choose|e: nat| {
        &&& g1.edge_map().contains_key(e)
        &&& joins(g1.edge_map()[e], a, b)
        &&& g1.edge_at(e) == d1
        &&& forall|f: nat| #[trigger] g1.edge_map().contains_key(f) && joins(g1.edge_map()[f], a, b) ==> f == e
        &&& g0.has_edge(a, b) ==> g1.edge_map() == g0.edge_map()
        &&& !g0.has_edge(a, b) ==> g1.edge_map() == g0.edge_map().insert(e, (a, b))
        &&& forall|f: nat| #[trigger] g0.edge_map().contains_key(f) && f != e ==> g1.edge_at(f) == g0.edge_at(f)
    };
    assert(g1.edge_map().contains_key(e1) && joins(g1.edge_map()[e1], b, a));
    assert(g1.has_edge(b, a));
    let e2 = choose|e: nat| {
        &&& g2.edge_map().contains_key(e)
        &&& joins(g2.edge_map()[e], b, a)
        &&& g2.edge_at(e) == d2
        &&& forall|f: nat| #[trigger] g2.edge_map().contains_key(f) && joins(g2.edge_map()[f], b, a) ==> f == e
        &&& g1.has_edge(b, a) ==> g2.edge_map() == g1.edge_map()
        &&& !g1.has_edge(b, a) ==> g2.edge_map() == g1.edge_map().insert(e, (b, a))
        &&& forall|f: nat| #[trigger] g1.edge_map().contains_key(f) && f != e ==> g2.edge_at(f) == g1.edge_at(f)
    };
    assert(g2.edge_map().contains_key(e2) && joins(g2.edge_map()[e2], a, b) && g2.edge_at(e2) == d2);
}

/// In a well-formed graph no edge touches an index that names no live node:
/// once a node is removed, no edge refers to it.
pub proof fn lemma_no_edge_at_dead_node<N, E>(g: &ForceGraph<N, E>, x: nat)
    requires
        g.wf(),
        !g.live_set().contains(x),
    ensures
        forall|e: nat| #[trigger] g.edge_map().contains_key(e) ==> !touches(g.edge_map()[e], x),
{
    g.lemma_wf_bounds();
}

/// Adding a node, removing it and adding a node again leaves one more live
/// node than at the start (exactly one, from an empty graph).
pub proof fn lemma_add_remove_add<N, E>(
    g0: ForceGraph<N, E>,
    g1: ForceGraph<N, E>,
    g2: ForceGraph<N, E>,
    g3: ForceGraph<N, E>,
    r1: nat,
    r3: nat,
)
    requires
        g0.wf(),
        !g0.live_set().contains(r1),
        g1.live_set() == g0.live_set().insert(r1),
        g2.live_set() == g1.live_set().remove(r1),
        !g2.live_set().contains(r3),
        g3.live_set() == g2.live_set().insert(r3),
    ensures
        g2.live_set() == g0.live_set(),
        g3.live_set().len() == g0.live_set().len() + 1,
        g0.live_set().is_empty() ==> g3.live_set() == set![r3] && g3.live_set().len() == 1,
{
    g0.lemma_wf_bounds();
    assert(g2.live_set() =~= g0.live_set());
    if g0.live_set().is_empty() {
        assert(g3.live_set() =~= set![r3]);
    }
}

} // verus!
