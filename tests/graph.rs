use force_graph::schedule::NodeStep;
use force_graph::store::EdgeData;
use force_graph::store::ForceGraph;
use force_graph::store::GraphError;

fn step_for(plan: &[NodeStep], node: u32) -> &NodeStep {
    plan.iter().find(|s| s.node == node).unwrap()
}

#[test]
fn test_default() {
    let mut graph: ForceGraph<(f32, f32), ()> = ForceGraph::new();
    let n1_idx = graph.add_node(false, (0.1, 0.2));
    let n2_idx = graph.add_node(false, (0.3, 0.4));
    assert_eq!(graph.add_edge(n1_idx, n2_idx, Default::default()), Ok(()));
}

#[test]
fn test_user_data() {
    #[derive(Default)]
    struct UserNodeData {}
    #[derive(Default)]
    struct UserEdgeData {}

    let mut graph: ForceGraph<((f32, f32), UserNodeData), UserEdgeData> = ForceGraph::new();
    let n1_idx = graph.add_node(false, ((0.1, 0.2), UserNodeData {}));
    let n2_idx = graph.add_node(false, ((0.3, 0.4), UserNodeData {}));
    assert_eq!(
        graph.add_edge(n1_idx, n2_idx, EdgeData { user_data: UserEdgeData {} }),
        Ok(())
    );
}

#[test]
fn empty_graph_step_schedules_nothing() {
    let graph: ForceGraph<(), ()> = ForceGraph::new();
    assert!(graph.step_plan().is_empty());
    assert_eq!(graph.node_count(), 0);
}

#[test]
fn emptied_graph_step_schedules_nothing() {
    let mut graph: ForceGraph<(), ()> = ForceGraph::new();
    let a = graph.add_node(false, ());
    let b = graph.add_node(false, ());
    graph.add_edge(a, b, Default::default()).unwrap();
    graph.remove_node(a);
    graph.remove_node(b);
    assert!(graph.step_plan().is_empty());
    assert!(graph.node_indices().is_empty());
    assert!(graph.edge_indices().is_empty());
}

#[test]
fn three_unconnected_anchors_never_move() {
    let mut graph: ForceGraph<(f32, f32), ()> = ForceGraph::new();
    let a = graph.add_node(true, (0.0, 0.0));
    let b = graph.add_node(true, (10.0, 0.0));
    let c = graph.add_node(true, (0.0, 10.0));
    for _ in 0..1000 {
        let plan = graph.step_plan();
        assert_eq!(plan.len(), 3);
        for step in &plan {
            assert!(!step.integrate);
            assert!(step.repel.is_empty());
            assert!(step.attract.is_empty());
        }
    }
    assert_eq!(*graph.node(a).unwrap().data(), (0.0, 0.0));
    assert_eq!(*graph.node(b).unwrap().data(), (10.0, 0.0));
    assert_eq!(*graph.node(c).unwrap().data(), (0.0, 10.0));
}

#[test]
fn anchored_node_is_pulled_on_but_does_not_integrate() {
    let mut graph: ForceGraph<(), ()> = ForceGraph::new();
    let free = graph.add_node(false, ());
    let anchor = graph.add_node(true, ());
    graph.add_edge(free, anchor, Default::default()).unwrap();
    let plan = graph.step_plan();
    let fs = step_for(&plan, free);
    assert_eq!(fs.attract, vec![anchor]);
    assert_eq!(fs.repel, vec![anchor]);
    assert!(fs.integrate);
    let a = step_for(&plan, anchor);
    assert_eq!(a.attract, vec![free]);
    assert!(a.repel.is_empty());
    assert!(!a.integrate);
}

#[test]
fn step_plan_visits_every_node_in_index_order() {
    let mut graph: ForceGraph<(), ()> = ForceGraph::new();
    let n0 = graph.add_node(false, ());
    let n1 = graph.add_node(false, ());
    let n2 = graph.add_node(false, ());
    let n3 = graph.add_node(false, ());
    // two components: n0-n1 and n2-n3
    graph.add_edge(n0, n1, Default::default()).unwrap();
    graph.add_edge(n3, n2, Default::default()).unwrap();
    let plan = graph.step_plan();
    let nodes: Vec<u32> = plan.iter().map(|s| s.node).collect();
    assert_eq!(nodes, vec![0, 1, 2, 3]);
    assert_eq!(plan[0].attract, vec![n1]);
    assert_eq!(plan[1].attract, vec![n0]);
    assert_eq!(plan[2].attract, vec![n3]);
    assert_eq!(plan[3].attract, vec![n2]);
    assert_eq!(plan[0].repel, vec![n1, n2, n3]);
    assert_eq!(plan[2].repel, vec![n0, n1, n3]);
    assert!(plan.iter().all(|s| s.integrate));
}

#[test]
fn add_edge_twice_keeps_one_edge_with_second_payload() {
    let mut graph: ForceGraph<(), u32> = ForceGraph::new();
    let a = graph.add_node(false, ());
    let b = graph.add_node(false, ());
    graph.add_edge(a, b, EdgeData { user_data: 1 }).unwrap();
    graph.add_edge(a, b, EdgeData { user_data: 2 }).unwrap();
    let es = graph.edge_indices();
    assert_eq!(es.len(), 1);
    assert_eq!(graph.edge(es[0]).unwrap().user_data, 2);
    graph.add_edge(b, a, EdgeData { user_data: 3 }).unwrap();
    let es = graph.edge_indices();
    assert_eq!(es.len(), 1);
    assert_eq!(graph.edge(es[0]).unwrap().user_data, 3);
    assert_eq!(graph.edge_endpoints(es[0]), Some((a, b)));
}

#[test]
fn add_edge_to_missing_node_fails() {
    let mut graph: ForceGraph<(), u32> = ForceGraph::new();
    let a = graph.add_node(false, ());
    assert_eq!(
        graph.add_edge(a, 7, EdgeData { user_data: 1 }),
        Err(GraphError::MissingNodeReference)
    );
    let b = graph.add_node(false, ());
    graph.remove_node(b);
    assert_eq!(
        graph.add_edge(b, a, EdgeData { user_data: 1 }),
        Err(GraphError::MissingNodeReference)
    );
    assert!(graph.edge_indices().is_empty());
}

#[test]
fn remove_node_removes_incident_edges() {
    let mut graph: ForceGraph<(), u32> = ForceGraph::new();
    let a = graph.add_node(false, ());
    let b = graph.add_node(false, ());
    let c = graph.add_node(false, ());
    graph.add_edge(a, b, EdgeData { user_data: 1 }).unwrap();
    graph.add_edge(b, c, EdgeData { user_data: 2 }).unwrap();
    graph.add_edge(c, a, EdgeData { user_data: 3 }).unwrap();
    graph.remove_node(b);
    let es = graph.edge_indices();
    assert_eq!(es.len(), 1);
    for e in es {
        let (x, y) = graph.edge_endpoints(e).unwrap();
        assert_ne!(x, b);
        assert_ne!(y, b);
        assert_eq!(graph.edge(e).unwrap().user_data, 3);
    }
    assert!(graph.node(b).is_none());
    assert_eq!(graph.node_count(), 2);
    // removing an absent node changes nothing
    graph.remove_node(b);
    graph.remove_node(42);
    assert_eq!(graph.node_count(), 2);
    assert_eq!(graph.edge_indices().len(), 1);
}

#[test]
fn add_remove_add_leaves_one_node() {
    let mut graph: ForceGraph<u8, ()> = ForceGraph::new();
    let a = graph.add_node(false, 1);
    graph.remove_node(a);
    let b = graph.add_node(false, 2);
    assert_eq!(graph.node_count(), 1);
    assert_eq!(graph.node_indices(), vec![b]);
    assert_eq!(*graph.node(b).unwrap().data(), 2);
    assert_eq!(graph.node(b).unwrap().index(), b);
}

#[test]
fn node_count_follows_adds_and_effective_removes() {
    let mut graph: ForceGraph<(), ()> = ForceGraph::new();
    let a = graph.add_node(false, ());
    let b = graph.add_node(false, ());
    let c = graph.add_node(false, ());
    assert_eq!(graph.node_count(), 3);
    graph.remove_node(b);
    graph.remove_node(b);
    assert_eq!(graph.node_count(), 2);
    assert_eq!(graph.node_indices(), vec![a, c]);
}

#[test]
fn removal_keeps_surviving_indices() {
    let mut graph: ForceGraph<u32, ()> = ForceGraph::new();
    let a = graph.add_node(false, 10);
    let b = graph.add_node(false, 20);
    let c = graph.add_node(false, 30);
    graph.remove_node(a);
    assert_eq!(*graph.node(b).unwrap().data(), 20);
    assert_eq!(*graph.node(c).unwrap().data(), 30);
    assert_eq!(graph.node(c).unwrap().index(), c);
    let d = graph.add_node(false, 40);
    assert_ne!(d, b);
    assert_ne!(d, c);
    assert_eq!(graph.node_indices().len(), 3);
}

#[test]
fn clear_empties_graph_and_restarts_indices() {
    let mut graph: ForceGraph<(), ()> = ForceGraph::new();
    let a = graph.add_node(false, ());
    let b = graph.add_node(false, ());
    graph.add_edge(a, b, Default::default()).unwrap();
    graph.clear();
    assert_eq!(graph.node_count(), 0);
    assert!(graph.edge_indices().is_empty());
    assert!(graph.node(a).is_none());
    assert_eq!(graph.add_node(false, ()), 0);
}

#[test]
fn set_node_data_and_anchor() {
    let mut graph: ForceGraph<u32, ()> = ForceGraph::new();
    let a = graph.add_node(false, 5);
    assert_eq!(graph.set_node_data(a, 6), Some(5));
    assert_eq!(*graph.node(a).unwrap().data(), 6);
    assert!(graph.set_anchor(a, true));
    assert!(graph.node(a).unwrap().is_anchor());
    assert_eq!(*graph.node(a).unwrap().data(), 6);
    assert_eq!(graph.set_node_data(9, 1), None);
    assert!(!graph.set_anchor(9, true));
    let plan = graph.step_plan();
    assert!(!plan[0].integrate);
}

#[test]
fn self_loop_lists_node_once_as_its_own_neighbour() {
    let mut graph: ForceGraph<(), ()> = ForceGraph::new();
    let a = graph.add_node(false, ());
    graph.add_edge(a, a, Default::default()).unwrap();
    let plan = graph.step_plan();
    assert_eq!(plan[0].attract, vec![a]);
    assert!(plan[0].repel.is_empty());
}

#[test]
fn edge_data_default_uses_payload_default() {
    let e: EdgeData<u32> = Default::default();
    assert_eq!(e.user_data, 0);
}
