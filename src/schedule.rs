//! One simulation step as a schedule: for each live node, which nodes pull it
//! along edges, which nodes push it away, and whether it moves.
//!
//! The schedule fixes every decision of a step; the forces themselves are
//! computed by the caller from the positions it keeps in the node data.

use vstd::prelude::*;
use crate::store::ForceGraph;
use crate::laws::lemma_live_order;

verus! {

/// What one node takes part in during a step.
pub struct NodeStep {
    /// The node that receives the forces below.
    pub node: u32,
    /// For each incident edge, in edge index order, the node at its other end.
    pub attract: Vec<u32>,
    /// Every other live node, in index order, or nothing for an anchored node.
    pub repel: Vec<u32>,
    /// Whether the node integrates its forces; anchored nodes do not.
    pub integrate: bool,
}

/// For the live edges among `es` that touch `n`, in the order of `es`, the
/// node at the other end (`n` itself for a loop).
pub open spec fn attract_from<N, E>(g: &ForceGraph<N, E>, n: nat, es: Seq<u32>) -> Seq<u32>
    decreases es.len(),
{
    if es.len() == 0 {
        Seq::empty()
    } else {
        let prev = attract_from(g, n, es.drop_last());
        let e = es.last() as nat;
        if g.edge_map().contains_key(e) && g.edge_map()[e].0 == n {
            prev.push(g.edge_map()[e].1 as u32)
        } else if g.edge_map().contains_key(e) && g.edge_map()[e].1 == n {
            prev.push(g.edge_map()[e].0 as u32)
        } else {
            prev
        }
    }
}

/// The elements of `s` other than `n`, in order.
pub open spec fn others_from(n: nat, s: Seq<u32>) -> Seq<u32>
    decreases s.len(),
{
    if s.len() == 0 {
        Seq::empty()
    } else if s.last() as nat == n {
        others_from(n, s.drop_last())
    } else {
        others_from(n, s.drop_last()).push(s.last())
    }
}

impl<N, E> ForceGraph<N, E> {
    /// The nodes whose springs pull on `n` during a step.
    pub open spec fn attractors(&self, n: nat) -> Seq<u32> {
        attract_from(self, n, self.edge_order())
    }

    /// The nodes that push `n` away during a step.
    pub open spec fn repellers(&self, n: nat) -> Seq<u32> {
        if self.node_at(n).spec_anchor() {
            Seq::empty()
        } else {
            others_from(n, self.live_order())
        }
    }

    /// The schedule entry of live node `n`.
    pub open spec fn step_of(&self, n: nat, s: NodeStep) -> bool {
        &&& s.node as nat == n
        &&& s.attract@ == self.attractors(n)
        &&& s.repel@ == self.repellers(n)
        &&& s.integrate == !self.node_at(n).spec_anchor()
    }

    fn attractors_of(&self, n: u32, es: &Vec<u32>) -> (r: Vec<u32>)
        requires
            self.wf(),
        ensures
            r@ == attract_from(self, n as nat, es@),
    {
        let mut r: Vec<u32> = Vec::new();
        let mut k: usize = 0;
        while k < es.len()
            invariant
                self.wf(),
                0 <= k <= es@.len(),
                r@ == attract_from(self, n as nat, es@.take(k as int)),
            decreases es@.len() - k,
        {
            proof {
                assert(es@.take(k + 1).drop_last() =~= es@.take(k as int));
            }
            match self.edge_endpoints(es[k]) {
                Some(p) => {
                    if p.0 == n {
                        r.push(p.1);
                    } else if p.1 == n {
                        r.push(p.0);
                    }
                },
                None => {},
            }
            k = k + 1;
        }
        proof {
            assert(es@.take(es@.len() as int) =~= es@);
        }
        r
    }

    fn others_of(n: u32, s: &Vec<u32>) -> (r: Vec<u32>)
        ensures
            r@ == others_from(n as nat, s@),
    {
        let mut r: Vec<u32> = Vec::new();
        let mut k: usize = 0;
        while k < s.len()
            invariant
                0 <= k <= s@.len(),
                r@ == others_from(n as nat, s@.take(k as int)),
            decreases s@.len() - k,
        {
            proof {
                assert(s@.take(k + 1).drop_last() =~= s@.take(k as int));
            }
            if s[k] != n {
                r.push(s[k]);
            }
            k = k + 1;
        }
        proof {
            assert(s@.take(s@.len() as int) =~= s@);
        }
        r
    }

    /// The schedule of one simulation step: an entry for every live node, in
    /// increasing index order. An empty graph has an empty schedule.
    pub fn step_plan(&self) -> (r: Vec<NodeStep>)
        requires
            self.wf(),
        ensures
            r@.len() == self.live_order().len(),
            forall|k: int| 0 <= k < r@.len() ==> self.step_of(self.live_order()[k] as nat, #[trigger] r@[k]),
    {
        let order = self.node_indices();
        let es = self.edge_indices();
        proof {
            lemma_live_order(self);
        }
        let mut plan: Vec<NodeStep> = Vec::new();
        let mut k: usize = 0;
        while k < order.len()
            invariant
                self.wf(),
                order@ == self.live_order(),
                es@ == self.edge_order(),
                0 <= k <= order@.len(),
                plan@.len() == k,
                forall|k: int| 0 <= k < order@.len() ==> self.live_set().contains(#[trigger] order@[k] as nat),
                forall|j: int| 0 <= j < k ==> self.step_of(order@[j] as nat, #[trigger] plan@[j]),
            decreases order@.len() - k,
        {
            let n = order[k];
            let anchored = match self.node(n) {
                Some(node) => node.is_anchor(),
                None => true,
            };
            let attract = self.attractors_of(n, &es);
            let repel = if anchored {
                Vec::new()
            } else {
                Self::others_of(n, &order)
            };
            plan.push(NodeStep { node: n, attract, repel, integrate: !anchored });
            proof {
                assert(self.step_of(n as nat, plan@[k as int]));
            }
            k = k + 1;
        }
        plan
    }
}

} // verus!
