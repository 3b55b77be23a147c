//! The graph store: nodes and edges with stable indices and user payloads.

use vstd::prelude::*;
use crate::topology::Topology;
use crate::topology::INDEX_END;
use crate::topology::live_nodes;
use crate::topology::live_edges;
use crate::topology::node_slots;
use crate::topology::edge_slots;
use crate::topology::joins;
use crate::topology::touches;
use crate::topology::topology_new;
use crate::topology::topology_add_node;
use crate::topology::topology_remove_node;
use crate::topology::topology_update_edge;
use crate::topology::topology_clear;
use crate::topology::topology_node_count;
use crate::topology::topology_edge_endpoints;

verus! {

/// Data attached to an edge by the user.
pub struct EdgeData<E> {
    /// Arbitrary user data.
    pub user_data: E,
}

impl<E: Default> Default for EdgeData<E> {
    fn default() -> (r: Self)
        ensures
            call_ensures(E::default, (), r.user_data),
    {
        EdgeData { user_data: E::default() }
    }
}

/// Failures of graph construction.
#[derive(Clone, Copy, Debug, PartialEq, Eq, Structural)]
pub enum GraphError {
    /// An edge was asked for between indices that do not both name live nodes.
    MissingNodeReference,
}

/// A node held by a [`ForceGraph`]. Only the graph creates them.
pub struct Node<N> {
    data: N,
    index: u32,
    is_anchor: bool,
}

impl<N> Node<N> {
    /// The user data, as contracts see it.
    pub closed spec fn spec_data(&self) -> N {
        self.data
    }

    /// The node's index, as contracts see it.
    pub closed spec fn spec_index(&self) -> nat {
        self.index as nat
    }

    /// Whether the node is anchored, as contracts see it.
    pub closed spec fn spec_anchor(&self) -> bool {
        self.is_anchor
    }

    /// The data provided by the user.
    pub fn data(&self) -> (r: &N)
        ensures
            *r == self.spec_data(),
    {
        &self.data
    }

    /// The index used to reference the node in its graph.
    pub fn index(&self) -> (r: u32)
        ensures
            r as nat == self.spec_index(),
    {
        self.index
    }

    /// Whether the node is fixed to its position.
    pub fn is_anchor(&self) -> (r: bool)
        ensures
            r == self.spec_anchor(),
    {
        self.is_anchor
    }
}

/// Nodes and undirected edges with stable indices.
///
/// A node index stays valid until its node is removed; after that it names no
/// node until the slot is reused by a later `add_node`. At most one edge joins
/// any two nodes.
pub struct ForceGraph<N, E> {
    graph: Topology,
    nodes: Vec<Option<Node<N>>>,
    edges: Vec<Option<EdgeData<E>>>,
}

/// `after` is `before` with an edge joining `a` and `b` carrying `data`: the
/// edge that joined them is kept with the new payload, or a fresh one is
/// added; either way it is the only edge joining them, and no other edge
/// changes.
pub open spec fn edge_upserted<N, E>(
    before: ForceGraph<N, E>,
    after: ForceGraph<N, E>,
    a: nat,
    b: nat,
    data: EdgeData<E>,
) -> bool {
    exists|e: nat| {
        &&& after.edge_map().contains_key(e)
        &&& joins(after.edge_map()[e], a, b)
        &&& after.edge_at(e) == data
        &&& forall|f: nat| #[trigger] after.edge_map().contains_key(f)
            && joins(after.edge_map()[f], a, b) ==> f == e
        &&& before.has_edge(a, b) ==> after.edge_map() == before.edge_map()
        &&& !before.has_edge(a, b) ==> after.edge_map() == before.edge_map().insert(e, (a, b))
        &&& forall|f: nat| #[trigger] before.edge_map().contains_key(f) && f != e
            ==> after.edge_at(f) == before.edge_at(f)
    }
}

impl<N, E> ForceGraph<N, E> {
    /// Indices of the live nodes.
    pub closed spec fn live_set(&self) -> Set<nat> {
        live_nodes(self.graph)
    }

    /// Live edges by edge index, with their two endpoints.
    pub closed spec fn edge_map(&self) -> Map<nat, (nat, nat)> {
        live_edges(self.graph)
    }

    /// The node at a live index.
    pub closed spec fn node_at(&self, i: nat) -> Node<N> {
        self.nodes@[i as int]->Some_0
    }

    /// The payload of a live edge.
    pub closed spec fn edge_at(&self, e: nat) -> EdgeData<E> {
        self.edges@[e as int]->Some_0
    }

    /// Number of node slots, live or vacant.
    pub closed spec fn node_slot_count(&self) -> nat {
        self.nodes@.len()
    }

    /// Number of edge slots, live or vacant.
    pub closed spec fn edge_slot_count(&self) -> nat {
        self.edges@.len()
    }

    /// Live node indices below `m`, in increasing order.
    pub open spec fn live_prefix(&self, m: nat) -> Seq<u32>
        decreases m,
    {
        if m == 0 {
            Seq::empty()
        } else if self.live_set().contains((m - 1) as nat) {
            self.live_prefix((m - 1) as nat).push((m - 1) as u32)
        } else {
            self.live_prefix((m - 1) as nat)
        }
    }

    /// All live node indices, in increasing order.
    pub open spec fn live_order(&self) -> Seq<u32> {
        self.live_prefix(self.node_slot_count())
    }

    /// Live edge indices below `m`, in increasing order.
    pub open spec fn edge_prefix(&self, m: nat) -> Seq<u32>
        decreases m,
    {
        if m == 0 {
            Seq::empty()
        } else if self.edge_map().contains_key((m - 1) as nat) {
            self.edge_prefix((m - 1) as nat).push((m - 1) as u32)
        } else {
            self.edge_prefix((m - 1) as nat)
        }
    }

    /// All live edge indices, in increasing order.
    pub open spec fn edge_order(&self) -> Seq<u32> {
        self.edge_prefix(self.edge_slot_count())
    }

    /// Whether a live edge joins `a` and `b`, in either order.
    pub open spec fn has_edge(&self, a: nat, b: nat) -> bool {
        exists|e: nat| #[trigger] self.edge_map().contains_key(e) && joins(self.edge_map()[e], a, b)
    }

    /// The store's invariant: the slot vectors line up with petgraph's slots,
    /// a slot holds data exactly when petgraph calls it live, every edge joins
    /// live nodes, and no two edges join the same pair.
    pub closed spec fn wf(&self) -> bool {
        &&& node_slots(self.graph) == self.nodes@.len()
        &&& edge_slots(self.graph) == self.edges@.len()
        &&& self.nodes@.len() <= INDEX_END
        &&& self.edges@.len() <= INDEX_END
        &&& live_nodes(self.graph).finite()
        &&& forall|i: nat| #[trigger] live_nodes(self.graph).contains(i) ==> i < self.nodes@.len()
        &&& forall|i: int| 0 <= i < self.nodes@.len()
            ==> (#[trigger] self.nodes@[i]).is_some() == live_nodes(self.graph).contains(i as nat)
        &&& forall|i: int| 0 <= i < self.nodes@.len() && (#[trigger] self.nodes@[i]).is_some()
            ==> self.nodes@[i]->Some_0.index == i
        &&& forall|e: nat| #[trigger] live_edges(self.graph).contains_key(e) ==> e < self.edges@.len()
        &&& forall|e: int| 0 <= e < self.edges@.len()
            ==> (#[trigger] self.edges@[e]).is_some() == live_edges(self.graph).contains_key(e as nat)
        &&& forall|e: nat| #[trigger] live_edges(self.graph).contains_key(e)
            ==> live_nodes(self.graph).contains(live_edges(self.graph)[e].0)
            && live_nodes(self.graph).contains(live_edges(self.graph)[e].1)
        &&& forall|e: nat, f: nat|
            #[trigger] live_edges(self.graph).contains_key(e) && #[trigger] live_edges(self.graph).contains_key(f)
            && joins(live_edges(self.graph)[e], live_edges(self.graph)[f].0, live_edges(self.graph)[f].1)
            ==> e == f
    }

    /// Facts that every well-formed graph has: indices fit below the reserved
    /// end value, and every live node has a slot.
    pub proof fn lemma_wf_bounds(&self)
        requires
            self.wf(),
        ensures
            self.node_slot_count() <= INDEX_END,
            self.edge_slot_count() <= INDEX_END,
            self.live_set().finite(),
            forall|i: nat| #[trigger] self.live_set().contains(i) ==> i < self.node_slot_count(),
            forall|e: nat| #[trigger] self.edge_map().contains_key(e) ==> e < self.edge_slot_count(),
            forall|e: nat| #[trigger] self.edge_map().contains_key(e)
                ==> self.live_set().contains(self.edge_map()[e].0) && self.live_set().contains(self.edge_map()[e].1),
    {
    }

    /// An empty graph.
    pub fn new() -> (r: Self)
        ensures
            r.wf(),
            r.live_set().is_empty(),
            r.edge_map().dom().is_empty(),
            r.node_slot_count() == 0,
            r.edge_slot_count() == 0,
    {
        let r = ForceGraph { graph: topology_new(), nodes: Vec::new(), edges: Vec::new() };
        proof {
            assert(live_nodes(r.graph) =~= Set::<nat>::empty());
        }
        r
    }

    /// Number of live nodes.
    pub fn node_count(&self) -> (r: usize)
        requires
            self.wf(),
        ensures
            r as nat == self.live_set().len(),
    {
        topology_node_count(&self.graph)
    }

    /// Number of node slots, live or vacant; `add_node` needs it below
    /// `INDEX_END`.
    pub fn node_slot_len(&self) -> (r: usize)
        requires
            self.wf(),
        ensures
            r as nat == self.node_slot_count(),
    {
        self.nodes.len()
    }

    /// Number of edge slots, live or vacant; `add_edge` needs it below
    /// `INDEX_END`.
    pub fn edge_slot_len(&self) -> (r: usize)
        requires
            self.wf(),
        ensures
            r as nat == self.edge_slot_count(),
    {
        self.edges.len()
    }

    /// The underlying petgraph graph, which holds the indices alone.
    pub fn get_graph(&self) -> (r: &Topology)
        requires
            self.wf(),
        ensures
            live_nodes(*r) == self.live_set(),
            live_edges(*r) == self.edge_map(),
    {
        &self.graph
    }

    /// Adds a node and returns its index, which no live node had before.
    pub fn add_node(&mut self, is_anchor: bool, data: N) -> (r: u32)
        requires
            old(self).wf(),
            old(self).node_slot_count() < INDEX_END,
        ensures
            final(self).wf(),
            !old(self).live_set().contains(r as nat),
            final(self).live_set() == old(self).live_set().insert(r as nat),
            final(self).live_set().len() == old(self).live_set().len() + 1,
            final(self).node_at(r as nat).spec_data() == data,
            final(self).node_at(r as nat).spec_index() == r as nat,
            final(self).node_at(r as nat).spec_anchor() == is_anchor,
            forall|i: nat| old(self).live_set().contains(i) ==> final(self).node_at(i) == old(self).node_at(i),
            final(self).edge_map() == old(self).edge_map(),
            forall|e: nat| old(self).edge_map().contains_key(e) ==> final(self).edge_at(e) == old(self).edge_at(e),
            (r as nat) < final(self).node_slot_count() <= old(self).node_slot_count() + 1,
            final(self).edge_slot_count() == old(self).edge_slot_count(),
    {
        let r = topology_add_node(&mut self.graph);
        let node = Node { data, index: r, is_anchor };
        if (r as usize) < self.nodes.len() {
            self.nodes.set(r as usize, Some(node));
        } else {
            self.nodes.push(Some(node));
        }
        r
    }

    /// Joins `a` and `b` by an edge carrying `data`. Where an edge already joins
    /// them, in either order, only its payload is replaced; either way exactly
    /// one edge joins them afterwards. Fails, changing nothing, where `a` or `b`
    /// names no live node.
    pub fn add_edge(&mut self, a: u32, b: u32, data: EdgeData<E>) -> (r: Result<(), GraphError>)
        requires
            old(self).wf(),
            old(self).edge_slot_count() < INDEX_END,
        ensures
            final(self).wf(),
            r is Err <==> !(old(self).live_set().contains(a as nat) && old(self).live_set().contains(b as nat)),
            r is Err ==> r == Err::<(), GraphError>(GraphError::MissingNodeReference) && *final(self) == *old(self),
            final(self).live_set() == old(self).live_set(),
            forall|i: nat| old(self).live_set().contains(i) ==> final(self).node_at(i) == old(self).node_at(i),
            r is Ok ==> edge_upserted(*old(self), *final(self), a as nat, b as nat, data),
            final(self).node_slot_count() == old(self).node_slot_count(),
            final(self).edge_slot_count() <= old(self).edge_slot_count() + 1,
    {
        if (a as usize) >= self.nodes.len() || (b as usize) >= self.nodes.len() {
            return Err(GraphError::MissingNodeReference);
        }
        if self.nodes[a as usize].is_none() || self.nodes[b as usize].is_none() {
            return Err(GraphError::MissingNodeReference);
        }
        let ghost g0 = self.graph;
        let e = topology_update_edge(&mut self.graph, a, b);
        if (e as usize) < self.edges.len() {
            self.edges.set(e as usize, Some(data));
        } else {
            self.edges.push(Some(data));
        }
        proof {
            let g1 = self.graph;
            if exists|f: nat| live_edges(g0).contains_key(f) && joins(live_edges(g0)[f], a as nat, b as nat) {
                assert(live_edges(g1) == live_edges(g0));
            } else {
                assert forall|f: nat, h: nat|
                    #[trigger] live_edges(g1).contains_key(f) && #[trigger] live_edges(g1).contains_key(h)
                    && joins(live_edges(g1)[f], live_edges(g1)[h].0, live_edges(g1)[h].1)
                    implies f == h by {
                    if f != e as nat && h != e as nat {
                        assert(live_edges(g0).contains_key(f) && live_edges(g0).contains_key(h));
                    } else if f != e as nat {
                        assert(live_edges(g0).contains_key(f));
                    } else if h != e as nat {
                        assert(live_edges(g0).contains_key(h));
                    }
                }
            }
            assert(forall|f: nat| #[trigger] live_edges(g1).contains_key(f)
                && joins(live_edges(g1)[f], a as nat, b as nat) ==> f == e as nat);
            assert(self.edge_at(e as nat) == data);
            assert(forall|f: nat| #[trigger] old(self).edge_map().contains_key(f) && f != e as nat
                ==> self.edge_at(f) == old(self).edge_at(f));
            assert(g0 == old(self).graph);
            if old(self).has_edge(a as nat, b as nat) {
                let f = choose|f: nat| #[trigger] old(self).edge_map().contains_key(f)
                    && joins(old(self).edge_map()[f], a as nat, b as nat);
                assert(live_edges(g0).contains_key(f) && joins(live_edges(g0)[f], a as nat, b as nat));
                assert(live_edges(g1) == live_edges(g0));
            } else {
                if exists|f: nat| live_edges(g0).contains_key(f) && joins(live_edges(g0)[f], a as nat, b as nat) {
                    let f = choose|f: nat| live_edges(g0).contains_key(f) && joins(live_edges(g0)[f], a as nat, b as nat);
                    assert(old(self).edge_map().contains_key(f));
                }
            }
            assert(self.edge_map().contains_key(e as nat));
            assert(joins(self.edge_map()[e as nat], a as nat, b as nat));
        }
        Ok(())
    }

    /// Removes all nodes and edges; indices are handed out from zero again.
    pub fn clear(&mut self)
        requires
            old(self).wf(),
        ensures
            final(self).wf(),
            final(self).live_set().is_empty(),
            final(self).edge_map().dom().is_empty(),
            final(self).node_slot_count() == 0,
            final(self).edge_slot_count() == 0,
    {
        topology_clear(&mut self.graph);
        self.nodes = Vec::new();
        self.edges = Vec::new();
        proof {
            assert(live_nodes(self.graph) =~= Set::<nat>::empty());
        }
    }

    /// The node at `i`, or `None` where `i` names no live node.
    pub fn node(&self, i: u32) -> (r: Option<&Node<N>>)
        requires
            self.wf(),
        ensures
            r is Some <==> self.live_set().contains(i as nat),
            r is Some ==> *r->Some_0 == self.node_at(i as nat),
    {
        if (i as usize) < self.nodes.len() {
            self.nodes[i as usize].as_ref()
        } else {
            None
        }
    }

    /// The payload of edge `e`, or `None` where `e` names no live edge.
    pub fn edge(&self, e: u32) -> (r: Option<&EdgeData<E>>)
        requires
            self.wf(),
        ensures
            r is Some <==> self.edge_map().contains_key(e as nat),
            r is Some ==> *r->Some_0 == self.edge_at(e as nat),
    {
        if (e as usize) < self.edges.len() {
            self.edges[e as usize].as_ref()
        } else {
            None
        }
    }

    /// The live node indices, in increasing order.
    pub fn node_indices(&self) -> (r: Vec<u32>)
        requires
            self.wf(),
        ensures
            r@ == self.live_order(),
    {
        let mut r: Vec<u32> = Vec::new();
        let mut i: usize = 0;
        while i < self.nodes.len()
            invariant
                self.wf(),
                0 <= i <= self.nodes@.len(),
                r@ == self.live_prefix(i as nat),
            decreases self.nodes@.len() - i,
        {
            if self.nodes[i].is_some() {
                r.push(i as u32);
            }
            i = i + 1;
        }
        r
    }

    /// The live edge indices, in increasing order.
    pub fn edge_indices(&self) -> (r: Vec<u32>)
        requires
            self.wf(),
        ensures
            r@ == self.edge_order(),
    {
        let mut r: Vec<u32> = Vec::new();
        let mut e: usize = 0;
        while e < self.edges.len()
            invariant
                self.wf(),
                0 <= e <= self.edges@.len(),
                r@ == self.edge_prefix(e as nat),
            decreases self.edges@.len() - e,
        {
            if self.edges[e].is_some() {
                r.push(e as u32);
            }
            e = e + 1;
        }
        r
    }

    /// The two endpoints of edge `e`, in the order they were first given, or
    /// `None` where `e` names no live edge.
    pub fn edge_endpoints(&self, e: u32) -> (r: Option<(u32, u32)>)
        requires
            self.wf(),
        ensures
            r is Some <==> self.edge_map().contains_key(e as nat),
            r is Some ==> self.edge_map()[e as nat] == ((r->Some_0).0 as nat, (r->Some_0).1 as nat),
    {
        topology_edge_endpoints(&self.graph, e)
    }

    /// Replaces the data of node `i` and returns the old data, or returns
    /// `None` and changes nothing where `i` names no live node.
    pub fn set_node_data(&mut self, i: u32, data: N) -> (r: Option<N>)
        requires
            old(self).wf(),
        ensures
            final(self).wf(),
            r is Some <==> old(self).live_set().contains(i as nat),
            r is None ==> *final(self) == *old(self),
            r is Some ==> r->Some_0 == old(self).node_at(i as nat).spec_data()
                && final(self).node_at(i as nat).spec_data() == data
                && final(self).node_at(i as nat).spec_index() == i as nat
                && final(self).node_at(i as nat).spec_anchor() == old(self).node_at(i as nat).spec_anchor(),
            final(self).live_set() == old(self).live_set(),
            forall|j: nat| j != i && old(self).live_set().contains(j) ==> final(self).node_at(j) == old(self).node_at(j),
            final(self).edge_map() == old(self).edge_map(),
            forall|e: nat| old(self).edge_map().contains_key(e) ==> final(self).edge_at(e) == old(self).edge_at(e),
            final(self).node_slot_count() == old(self).node_slot_count(),
            final(self).edge_slot_count() == old(self).edge_slot_count(),
    {
        if (i as usize) >= self.nodes.len() || self.nodes[i as usize].is_none() {
            return None;
        }
        let mut slot: Option<Node<N>> = None;
        self.nodes.set_and_swap(i as usize, &mut slot);
        match slot {
            Some(node) => {
                let Node { data: old_data, index, is_anchor } = node;
                self.nodes.set(i as usize, Some(Node { data, index, is_anchor }));
                Some(old_data)
            },
            None => None,
        }
    }

    /// Sets whether node `i` is fixed to its position; returns whether `i`
    /// names a live node (and changes nothing where it does not).
    pub fn set_anchor(&mut self, i: u32, is_anchor: bool) -> (r: bool)
        requires
            old(self).wf(),
        ensures
            final(self).wf(),
            r == old(self).live_set().contains(i as nat),
            r ==> final(self).node_at(i as nat).spec_anchor() == is_anchor
                && final(self).node_at(i as nat).spec_data() == old(self).node_at(i as nat).spec_data()
                && final(self).node_at(i as nat).spec_index() == i as nat,
            final(self).live_set() == old(self).live_set(),
            forall|j: nat| j != i && old(self).live_set().contains(j) ==> final(self).node_at(j) == old(self).node_at(j),
            !r ==> *final(self) == *old(self),
            final(self).edge_map() == old(self).edge_map(),
            forall|e: nat| old(self).edge_map().contains_key(e) ==> final(self).edge_at(e) == old(self).edge_at(e),
            final(self).node_slot_count() == old(self).node_slot_count(),
            final(self).edge_slot_count() == old(self).edge_slot_count(),
    {
        if (i as usize) >= self.nodes.len() || self.nodes[i as usize].is_none() {
            return false;
        }
        let mut slot: Option<Node<N>> = None;
        self.nodes.set_and_swap(i as usize, &mut slot);
        match slot {
            Some(node) => {
                let Node { data, index, is_anchor: _ } = node;
                self.nodes.set(i as usize, Some(Node { data, index, is_anchor }));
                true
            },
            None => false,
        }
    }

    /// Removes a node and every edge that touches it. An index that names no
    /// live node changes nothing.
    pub fn remove_node(&mut self, idx: u32)
        requires
            old(self).wf(),
        ensures
            final(self).wf(),
            final(self).live_set() == old(self).live_set().remove(idx as nat),
            old(self).live_set().contains(idx as nat)
                ==> final(self).live_set().len() == old(self).live_set().len() - 1,
            !old(self).live_set().contains(idx as nat) ==> final(self).live_set().len() == old(self).live_set().len(),
            forall|i: nat| #[trigger] final(self).live_set().contains(i) ==> final(self).node_at(i) == old(self).node_at(i),
            forall|e: nat| #[trigger] final(self).edge_map().contains_key(e)
                <==> old(self).edge_map().contains_key(e) && !touches(old(self).edge_map()[e], idx as nat),
            forall|e: nat| #[trigger] final(self).edge_map().contains_key(e)
                ==> final(self).edge_map()[e] == old(self).edge_map()[e] && final(self).edge_at(e) == old(self).edge_at(e),
            final(self).node_slot_count() == old(self).node_slot_count(),
            final(self).edge_slot_count() == old(self).edge_slot_count(),
    {
        topology_remove_node(&mut self.graph, idx);
        if (idx as usize) < self.nodes.len() {
            self.nodes.set(idx as usize, None);
        }
        let ghost g1 = self.graph;
        let ghost n1 = self.nodes;
        let mut e: usize = 0;
        while e < self.edges.len()
            invariant
                self.graph == g1,
                self.nodes == n1,
                old(self).wf(),
                forall|j: nat| #[trigger] live_edges(g1).contains_key(j)
                    ==> old(self).edges@[j as int].is_some(),
                0 <= e <= self.edges@.len(),
                self.edges@.len() == old(self).edges@.len(),
                self.edges@.len() <= INDEX_END,
                forall|j: int| 0 <= j < e ==> (#[trigger] self.edges@[j]).is_some()
                    == live_edges(self.graph).contains_key(j as nat),
                forall|j: int| 0 <= j < self.edges@.len() && (#[trigger] self.edges@[j]).is_some()
                    ==> self.edges@[j] == old(self).edges@[j],
                forall|j: int| e <= j < self.edges@.len() ==> (#[trigger] self.edges@[j]) == old(self).edges@[j],
            decreases self.edges@.len() - e,
        {
            if topology_edge_endpoints(&self.graph, e as u32).is_none() {
                self.edges.set(e, None);
            }
            e = e + 1;
        }
    }
}

} // verus!
