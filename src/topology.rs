//! Trusted interface to petgraph's `StableGraph`, used as an undirected graph
//! with no weights: it supplies node and edge indices only.

use vstd::prelude::*;
use petgraph::stable_graph::StableGraph;
use petgraph::stable_graph::NodeIndex;
use petgraph::stable_graph::EdgeIndex;
use petgraph::Undirected;

verus! {

#[verifier::external_type_specification]
#[verifier::external_body]
#[verifier::reject_recursive_types(N)]
#[verifier::reject_recursive_types(E)]
#[verifier::reject_recursive_types(Ty)]
#[verifier::reject_recursive_types(Ix)]
pub struct ExStableGraph<N, E, Ty, Ix>(StableGraph<N, E, Ty, Ix>);

#[verifier::external_type_specification]
#[verifier::external_body]
pub struct ExUndirected(Undirected);

/// The graph shape that the store keeps in petgraph.
pub type Topology = StableGraph<(), (), Undirected, u32>;

/// Indices of the live nodes.
pub uninterp spec fn live_nodes(g: Topology) -> Set<nat>;

/// Number of node slots, live or vacant; a new index is at most this.
pub uninterp spec fn node_slots(g: Topology) -> nat;

/// Live edges by edge index, with the endpoints given when each was added.
pub uninterp spec fn live_edges(g: Topology) -> Map<nat, (nat, nat)>;

/// Number of edge slots, live or vacant.
pub uninterp spec fn edge_slots(g: Topology) -> nat;

/// Largest index value of `u32` indices; petgraph reserves it as "no index".
pub const INDEX_END: u32 = 0xffff_ffff;

/// Whether an edge with endpoints `p` joins `a` and `b`, in either order.
pub open spec fn joins(p: (nat, nat), a: nat, b: nat) -> bool {
    (p.0 == a && p.1 == b) || (p.0 == b && p.1 == a)
}

/// Whether an edge with endpoints `p` has `a` as one of them.
pub open spec fn touches(p: (nat, nat), a: nat) -> bool {
    p.0 == a || p.1 == a
}

/// Relies on `StableGraph::with_capacity`: an empty graph with no slots.
#[verifier::external_body]
pub(crate) fn topology_new() -> (r: Topology)
    ensures
        live_nodes(r).is_empty(),
        live_edges(r).dom().is_empty(),
        node_slots(r) == 0,
        edge_slots(r) == 0,
{
    StableGraph::with_capacity(0, 0)
}

/// Relies on `StableGraph::add_node`: it reuses a vacant slot if there is one,
/// else appends a slot (and panics only when the new index would be the
/// reserved end value).
#[verifier::external_body]
pub(crate) fn topology_add_node(g: &mut Topology) -> (r: u32)
    requires
        node_slots(*old(g)) < INDEX_END,
    ensures
        !live_nodes(*old(g)).contains(r as nat),
        live_nodes(*final(g)) == live_nodes(*old(g)).insert(r as nat),
        live_edges(*final(g)) == live_edges(*old(g)),
        edge_slots(*final(g)) == edge_slots(*old(g)),
        (r as nat) < node_slots(*old(g)) ==> node_slots(*final(g)) == node_slots(*old(g)),
        (r as nat) >= node_slots(*old(g)) ==> (r as nat) == node_slots(*old(g))
            && node_slots(*final(g)) == node_slots(*old(g)) + 1,
{
    g.add_node(()).index() as u32
}

/// Relies on `StableGraph::remove_node`: the node and every edge with an
/// endpoint at it are removed; slots stay; an absent index changes nothing.
#[verifier::external_body]
pub(crate) fn topology_remove_node(g: &mut Topology, a: u32)
    ensures
        live_nodes(*final(g)) == live_nodes(*old(g)).remove(a as nat),
        forall|e: nat| #[trigger] live_edges(*final(g)).contains_key(e)
            <==> live_edges(*old(g)).contains_key(e) && !touches(live_edges(*old(g))[e], a as nat),
        forall|e: nat| #[trigger] live_edges(*final(g)).contains_key(e)
            ==> live_edges(*final(g))[e] == live_edges(*old(g))[e],
        node_slots(*final(g)) == node_slots(*old(g)),
        edge_slots(*final(g)) == edge_slots(*old(g)),
{
    let _ = g.remove_node(NodeIndex::new(a as usize));
}

/// Relies on `StableGraph::update_edge` on an undirected graph: it returns the
/// index of an edge joining `a` and `b` in either order if there is one, else
/// it adds an edge `(a, b)` in a vacant or appended slot. It panics if an
/// endpoint is not live, or when a new slot would get the reserved end value.
#[verifier::external_body]
pub(crate) fn topology_update_edge(g: &mut Topology, a: u32, b: u32) -> (r: u32)
    requires
        live_nodes(*old(g)).contains(a as nat),
        live_nodes(*old(g)).contains(b as nat),
        edge_slots(*old(g)) < INDEX_END,
    ensures
        live_nodes(*final(g)) == live_nodes(*old(g)),
        node_slots(*final(g)) == node_slots(*old(g)),
        (exists|e: nat| live_edges(*old(g)).contains_key(e) && joins(live_edges(*old(g))[e], a as nat, b as nat))
            ==> live_edges(*old(g)).contains_key(r as nat)
            && joins(live_edges(*old(g))[r as nat], a as nat, b as nat)
            && live_edges(*final(g)) == live_edges(*old(g))
            && edge_slots(*final(g)) == edge_slots(*old(g)),
        !(exists|e: nat| live_edges(*old(g)).contains_key(e) && joins(live_edges(*old(g))[e], a as nat, b as nat))
            ==> !live_edges(*old(g)).contains_key(r as nat)
            && live_edges(*final(g)) == live_edges(*old(g)).insert(r as nat, (a as nat, b as nat))
            && ((r as nat) < edge_slots(*old(g)) ==> edge_slots(*final(g)) == edge_slots(*old(g)))
            && ((r as nat) >= edge_slots(*old(g)) ==> (r as nat) == edge_slots(*old(g))
                && edge_slots(*final(g)) == edge_slots(*old(g)) + 1),
{
    g.update_edge(NodeIndex::new(a as usize), NodeIndex::new(b as usize), ()).index() as u32
}

/// Relies on `StableGraph::clear`: all nodes, edges and slots are dropped.
#[verifier::external_body]
pub(crate) fn topology_clear(g: &mut Topology)
    ensures
        live_nodes(*final(g)).is_empty(),
        live_edges(*final(g)).dom().is_empty(),
        node_slots(*final(g)) == 0,
        edge_slots(*final(g)) == 0,
{
    g.clear()
}

/// Relies on `StableGraph::node_count`: the number of live nodes.
#[verifier::external_body]
pub(crate) fn topology_node_count(g: &Topology) -> (r: usize)
    ensures
        r as nat == live_nodes(*g).len(),
{
    g.node_count()
}

/// Relies on `StableGraph::edge_endpoints`: the endpoints of a live edge, as
/// they were given when it was added, and `None` for any other index.
#[verifier::external_body]
pub(crate) fn topology_edge_endpoints(g: &Topology, e: u32) -> (r: Option<(u32, u32)>)
    ensures
        match r {
            Some(p) => live_edges(*g).contains_key(e as nat)
                && live_edges(*g)[e as nat] == (p.0 as nat, p.1 as nat),
            None => !live_edges(*g).contains_key(e as nat),
        },
{
    g.edge_endpoints(EdgeIndex::new(e as usize)).map(|p| (p.0.index() as u32, p.1.index() as u32))
}

} // verus!
