//! Graph store and step scheduling for a force-directed layout.
//!
//! Nodes and edges live in a petgraph `StableGraph` that gives stable
//! indices; payloads and anchor flags are held beside it. Each simulation step
//! is described by a verified schedule that says, for every live node, which
//! neighbours attract it, which nodes repel it and whether it integrates.

use vstd::prelude::*;

pub mod topology;
pub mod store;
pub mod laws;
pub mod schedule;

verus! {

} // verus!
