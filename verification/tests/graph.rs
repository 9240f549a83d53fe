use geometry_kernel::errors::ErrorCode;
use geometry_kernel::ir::graph::{evaluation_order_of, validate_nodes, IRGraph};
use geometry_kernel::ir::node::{IRNode, NodeContent, NodeId, NodeMetadata, NodeSource, NodeType};
use geometry_kernel::ir::{new_graph, new_validator};
use geometry_kernel::scalar::Scalar;
use geometry_kernel::string_map::StringMap;

const EMPTY_BOX: &str = r#"{"type":"Primitive","data":{"primitive_type":"box","parameters":{},"transform":null}}"#;

fn typed_node(id: &str, node_type: NodeType, deps: Vec<NodeId>) -> IRNode {
    let metadata =
        NodeMetadata::new(Some(id.to_string()), NodeSource::User, Scalar::from_bits(0));
    let content = NodeContent::Primitive {
        primitive_type: "box".to_string(),
        parameters: StringMap::new(),
        transform: None,
    };
    IRNode::with_user_id(id, node_type, content, EMPTY_BOX, deps, metadata).unwrap()
}

fn create_test_node(id: &str, deps: Vec<NodeId>) -> IRNode {
    typed_node(id, NodeType::Primitive, deps)
}

fn id_of(name: &str) -> NodeId {
    NodeId::from_user_string(name)
}

fn position(order: &[NodeId], id: &NodeId) -> usize {
    order.iter().position(|other| other == id).unwrap()
}

fn ids(list: Vec<&NodeId>) -> Vec<String> {
    let mut texts: Vec<String> = list.iter().map(|id| id.as_str().to_string()).collect();
    texts.sort();
    texts
}

fn sorted(names: &[&str]) -> Vec<String> {
    let mut texts: Vec<String> = names.iter().map(|n| id_of(n).as_str().to_string()).collect();
    texts.sort();
    texts
}

#[test]
fn test_graph_creation() {
    let mut graph = IRGraph::new();
    let node1 = create_test_node("node1", vec![]);

    graph.add_node(node1).unwrap();
    assert_eq!(graph.nodes().len(), 1);
}

#[test]
fn test_dependency_validation() {
    let mut graph = IRGraph::new();

    let invalid_dep = NodeId::from_user_string("nonexistent");
    let node = create_test_node("node1", vec![invalid_dep]);

    assert!(graph.add_node(node).is_err());
}

#[test]
fn test_cycle_detection() {
    let mut graph = IRGraph::new();

    let node1 = create_test_node("node1", vec![]);
    let node1_id = node1.id.clone();
    graph.add_node(node1).unwrap();

    let node2 = create_test_node("node2", vec![node1_id.clone()]);
    let node2_id = node2.id.clone();
    graph.add_node(node2).unwrap();

    let node1_updated = create_test_node("node1", vec![node2_id]);
    assert!(graph.add_node(node1_updated).is_err());
}

#[test]
fn test_topological_ordering() {
    let mut graph = IRGraph::new();

    let node1 = create_test_node("node1", vec![]);
    let node1_id = node1.id.clone();
    graph.add_node(node1).unwrap();

    let node2 = create_test_node("node2", vec![node1_id.clone()]);
    let node2_id = node2.id.clone();
    graph.add_node(node2).unwrap();

    let node3 = create_test_node("node3", vec![node2_id.clone()]);
    graph.add_node(node3).unwrap();

    let order = graph.topological_order().unwrap();

    let pos1 = order.iter().position(|id| id == &node1_id).unwrap();
    let pos2 = order.iter().position(|id| id == &node2_id).unwrap();

    assert!(pos1 < pos2, "Dependencies should come before dependents");
}

#[test]
fn test_root_and_leaf_nodes() {
    let mut graph = IRGraph::new();

    let root = create_test_node("root", vec![]);
    let root_id = root.id.clone();
    graph.add_node(root).unwrap();

    let leaf = create_test_node("leaf", vec![root_id.clone()]);
    let leaf_id = leaf.id.clone();
    graph.add_node(leaf).unwrap();

    let roots = graph.get_root_nodes();
    let leaves = graph.get_leaf_nodes();

    assert_eq!(roots.len(), 1);
    assert_eq!(leaves.len(), 1);
    assert_eq!(*roots[0], root_id);
    assert_eq!(*leaves[0], leaf_id);
}

#[test]
fn test_subgraph_extraction() {
    let mut graph = IRGraph::new();

    let node_a = create_test_node("A", vec![]);
    let id_a = node_a.id.clone();
    graph.add_node(node_a).unwrap();

    let node_b = create_test_node("B", vec![id_a.clone()]);
    let id_b = node_b.id.clone();
    graph.add_node(node_b).unwrap();

    let node_c = create_test_node("C", vec![id_b.clone()]);
    let id_c = node_c.id.clone();
    graph.add_node(node_c).unwrap();

    let subgraph = graph.subgraph(&[id_c.clone()]).unwrap();

    assert_eq!(subgraph.nodes().len(), 3);
    assert!(subgraph.get_node(&id_a).is_some());
    assert!(subgraph.get_node(&id_b).is_some());
    assert!(subgraph.get_node(&id_c).is_some());
}

#[test]
fn test_ir_module_integration() {
    let mut graph = new_graph();
    let mut validator = new_validator();

    let metadata = NodeMetadata::new(
        Some("integration_test".to_string()),
        NodeSource::User,
        Scalar::from_bits(0),
    );
    let mut parameters = StringMap::new();
    parameters.insert("width".to_string(), Scalar::from_bits(10.0f64.to_bits()));
    parameters.insert("height".to_string(), Scalar::from_bits(20.0f64.to_bits()));
    parameters.insert("depth".to_string(), Scalar::from_bits(5.0f64.to_bits()));
    let content = NodeContent::Primitive {
        primitive_type: "box".to_string(),
        parameters,
        transform: None,
    };
    let json = r#"{"type":"Primitive","data":{"primitive_type":"box","parameters":{"width":10.0,"height":20.0,"depth":5.0},"transform":null}}"#;

    let node = IRNode::new(NodeType::Primitive, content, json, vec![], metadata).unwrap();
    let node_id = node.id.clone();

    graph.add_node(node).unwrap();

    let result = validator.validate_graph(&graph).unwrap();
    assert!(result.is_valid, "Graph should be valid");

    let retrieved_node = graph.get_node(&node_id);
    assert!(retrieved_node.is_some(), "Node should be retrievable");
    assert_eq!(retrieved_node.unwrap().node_type, NodeType::Primitive);
}

#[test]
fn rejected_cycle_is_a_circular_reference_and_leaves_the_graph_as_it_was() {
    let mut graph = IRGraph::new();
    graph.add_node(create_test_node("b", vec![])).unwrap();
    graph.add_node(create_test_node("m", vec![id_of("b")])).unwrap();
    graph.add_node(create_test_node("a", vec![id_of("m")])).unwrap();
    let before: Vec<(String, Vec<String>)> = graph
        .nodes()
        .iter()
        .map(|n| {
            (n.id.as_str().to_string(), n.dependencies.iter().map(|d| d.as_str().to_string()).collect())
        })
        .collect();
    let order_before = graph.topological_order().unwrap();

    // `b` would depend on `a`, which depends on `b` through `m`.
    let error = graph.add_node(create_test_node("b", vec![id_of("a")])).unwrap_err();
    assert_eq!(error.code, ErrorCode::CircularReference.to_string());
    assert_eq!(
        error.message,
        format!("Circular reference detected involving: {}", id_of("b").as_str())
    );

    // A node that depends on itself closes the shortest cycle.
    let error = graph.add_node(create_test_node("a", vec![id_of("a")])).unwrap_err();
    assert_eq!(error.code, ErrorCode::CircularReference.to_string());

    let after: Vec<(String, Vec<String>)> = graph
        .nodes()
        .iter()
        .map(|n| {
            (n.id.as_str().to_string(), n.dependencies.iter().map(|d| d.as_str().to_string()).collect())
        })
        .collect();
    assert_eq!(before, after);
    assert_eq!(graph.topological_order().unwrap(), order_before);
}

#[test]
fn missing_dependency_is_refused_and_named() {
    let mut graph = IRGraph::new();
    graph.add_node(create_test_node("a", vec![])).unwrap();
    let error = graph.add_node(create_test_node("b", vec![id_of("a"), id_of("ghost")])).unwrap_err();
    assert_eq!(error.code, ErrorCode::InternalError.to_string());
    assert_eq!(
        error.message,
        format!(
            "Invalid graph: Dependency {} not found for node {}",
            id_of("ghost").as_str(),
            id_of("b").as_str()
        )
    );
    assert_eq!(graph.nodes().len(), 1);
    // A new node that depends on itself depends on what is not there.
    let error = graph.add_node(create_test_node("c", vec![id_of("c")])).unwrap_err();
    assert_eq!(error.code, ErrorCode::InternalError.to_string());
}

#[test]
fn adding_a_node_again_puts_it_in_the_place_of_the_old() {
    let mut graph = IRGraph::new();
    graph.add_node(create_test_node("a", vec![])).unwrap();
    graph.add_node(create_test_node("b", vec![])).unwrap();
    graph.add_node(create_test_node("c", vec![id_of("a")])).unwrap();
    // `a` has a dependent and is replaced all the same, now depending on `b`.
    graph.add_node(create_test_node("a", vec![id_of("b")])).unwrap();
    assert_eq!(graph.nodes().len(), 3);
    assert_eq!(graph.nodes()[0].id, id_of("a"));
    assert_eq!(graph.get_node(&id_of("a")).unwrap().dependencies, vec![id_of("b")]);
    let order = graph.topological_order().unwrap();
    assert!(position(&order, &id_of("b")) < position(&order, &id_of("a")));
    assert!(position(&order, &id_of("a")) < position(&order, &id_of("c")));
    assert_eq!(ids(graph.get_dependents(&id_of("b"))), sorted(&["a"]));
    assert!(graph.validate().is_ok());
}

#[test]
fn every_dependency_comes_before_its_dependent() {
    let mut graph = IRGraph::new();
    graph.add_node(create_test_node("n0", vec![])).unwrap();
    graph.add_node(create_test_node("n1", vec![])).unwrap();
    graph.add_node(create_test_node("n2", vec![id_of("n0"), id_of("n1")])).unwrap();
    graph.add_node(create_test_node("n3", vec![id_of("n2"), id_of("n0")])).unwrap();
    graph.add_node(create_test_node("n4", vec![id_of("n1")])).unwrap();
    graph.add_node(create_test_node("n5", vec![id_of("n4"), id_of("n3")])).unwrap();
    let order = graph.topological_order().unwrap();
    assert_eq!(order.len(), 6);
    for node in graph.nodes().iter() {
        for dep in node.dependencies.iter() {
            assert!(position(&order, dep) < position(&order, &node.id));
        }
    }
    // The order is kept and comes back the same.
    assert_eq!(graph.topological_order().unwrap(), order);
}

#[test]
fn ties_go_by_type_priority_and_then_by_id() {
    let mut graph = IRGraph::new();
    graph.add_node(typed_node("analysis", NodeType::Analysis, vec![])).unwrap();
    graph.add_node(typed_node("constraint", NodeType::Constraint, vec![])).unwrap();
    graph.add_node(typed_node("boolean", NodeType::BooleanOp, vec![])).unwrap();
    graph.add_node(typed_node("feature", NodeType::Feature, vec![])).unwrap();
    graph.add_node(typed_node("first_box", NodeType::Primitive, vec![])).unwrap();
    graph.add_node(typed_node("second_box", NodeType::Primitive, vec![])).unwrap();
    let order = graph.topological_order().unwrap();
    let (first, second) = if id_of("first_box").as_str() < id_of("second_box").as_str() {
        (id_of("first_box"), id_of("second_box"))
    } else {
        (id_of("second_box"), id_of("first_box"))
    };
    assert_eq!(
        order,
        vec![
            first,
            second,
            id_of("feature"),
            id_of("boolean"),
            id_of("constraint"),
            id_of("analysis")
        ]
    );
}

#[test]
fn priority_yields_to_dependencies() {
    let mut graph = IRGraph::new();
    graph.add_node(typed_node("late", NodeType::Analysis, vec![])).unwrap();
    graph.add_node(typed_node("early", NodeType::Primitive, vec![id_of("late")])).unwrap();
    graph.add_node(typed_node("free", NodeType::Feature, vec![])).unwrap();
    let order = graph.topological_order().unwrap();
    // The feature is ready at once and goes first; the primitive has to
    // wait for the analysis it depends on.
    assert_eq!(order, vec![id_of("free"), id_of("late"), id_of("early")]);
}

#[test]
fn removal_is_blocked_while_dependents_exist() {
    let mut graph = IRGraph::new();
    graph.add_node(create_test_node("a", vec![])).unwrap();
    graph.add_node(create_test_node("b", vec![id_of("a")])).unwrap();
    let error = graph.remove_node(&id_of("a")).unwrap_err();
    assert_eq!(error.code, ErrorCode::InternalError.to_string());
    assert_eq!(graph.nodes().len(), 2);
    let error = graph.remove_node(&id_of("zzz")).unwrap_err();
    assert_eq!(error.message, format!("Node not found: {}", id_of("zzz").as_str()));
    graph.remove_node(&id_of("b")).unwrap();
    graph.remove_node(&id_of("a")).unwrap();
    assert_eq!(graph.nodes().len(), 0);
    assert_eq!(graph.topological_order().unwrap(), Vec::<NodeId>::new());
}

#[test]
fn adjacency_reads_both_ways() {
    let mut graph = IRGraph::new();
    graph.add_node(create_test_node("a", vec![])).unwrap();
    graph.add_node(create_test_node("b", vec![id_of("a")])).unwrap();
    graph.add_node(create_test_node("c", vec![id_of("a"), id_of("b"), id_of("a")])).unwrap();
    assert_eq!(ids(graph.get_dependents(&id_of("a"))), sorted(&["b", "c"]));
    assert_eq!(ids(graph.get_dependents(&id_of("c"))), sorted(&[]));
    assert_eq!(ids(graph.get_dependencies(&id_of("c"))), sorted(&["a", "b"]));
    assert_eq!(ids(graph.get_dependencies(&id_of("a"))), sorted(&[]));
    assert_eq!(ids(graph.get_dependencies(&id_of("nobody"))), sorted(&[]));
    for node in graph.nodes().iter() {
        for dep in graph.get_dependencies(&node.id) {
            assert!(graph.get_dependents(dep).contains(&&node.id));
        }
        for dependent in graph.get_dependents(&node.id) {
            assert!(graph.get_dependencies(dependent).contains(&&node.id));
        }
    }
    assert_eq!(ids(graph.get_root_nodes()), sorted(&["a"]));
    assert_eq!(ids(graph.get_leaf_nodes()), sorted(&["c"]));
}

#[test]
fn stats_count_nodes_edges_and_depth() {
    let mut graph = IRGraph::new();
    let empty = graph.stats();
    assert_eq!((empty.node_count, empty.edge_count, empty.max_depth), (0, 0, 0));
    graph.add_node(create_test_node("a", vec![])).unwrap();
    graph.add_node(create_test_node("b", vec![id_of("a")])).unwrap();
    graph.add_node(create_test_node("c", vec![id_of("b"), id_of("a"), id_of("b")])).unwrap();
    graph.add_node(create_test_node("d", vec![])).unwrap();
    let stats = graph.stats();
    assert_eq!(stats.node_count, 4);
    assert_eq!(stats.edge_count, 3);
    assert_eq!(stats.root_count, 2);
    assert_eq!(stats.leaf_count, 2);
    assert_eq!(stats.max_depth, 2);
}

#[test]
fn every_node_is_a_component_of_its_own() {
    let mut graph = IRGraph::new();
    graph.add_node(create_test_node("a", vec![])).unwrap();
    graph.add_node(create_test_node("b", vec![id_of("a")])).unwrap();
    let components = graph.strongly_connected_components();
    assert_eq!(components, vec![vec![id_of("a")], vec![id_of("b")]]);
}

#[test]
fn subgraph_keeps_what_is_needed_and_nothing_else() {
    let mut graph = IRGraph::new();
    graph.add_node(create_test_node("a", vec![])).unwrap();
    graph.add_node(create_test_node("b", vec![id_of("a")])).unwrap();
    graph.add_node(create_test_node("c", vec![id_of("b")])).unwrap();
    graph.add_node(create_test_node("x", vec![])).unwrap();
    graph.add_node(create_test_node("y", vec![id_of("x"), id_of("a")])).unwrap();
    let sub = graph.subgraph(&[id_of("b"), id_of("unknown")]).unwrap();
    let kept: Vec<NodeId> = sub.nodes().iter().map(|n| n.id.clone()).collect();
    assert_eq!(kept, vec![id_of("a"), id_of("b")]);
    let sub = graph.subgraph(&[id_of("y")]).unwrap();
    let kept: Vec<NodeId> = sub.nodes().iter().map(|n| n.id.clone()).collect();
    assert_eq!(kept, vec![id_of("a"), id_of("x"), id_of("y")]);
    assert_eq!(sub.get_node(&id_of("y")).unwrap().dependencies, vec![id_of("x"), id_of("a")]);
    assert_eq!(graph.subgraph(&[]).unwrap().nodes().len(), 0);
}

#[test]
fn loose_nodes_are_checked_for_what_a_graph_asks() {
    let good = vec![create_test_node("a", vec![]), create_test_node("b", vec![id_of("a")])];
    assert!(validate_nodes(&good).is_ok());
    assert_eq!(evaluation_order_of(&good), Some(vec![id_of("a"), id_of("b")]));

    let twice = vec![create_test_node("a", vec![]), create_test_node("a", vec![])];
    assert_eq!(validate_nodes(&twice).unwrap_err().code, ErrorCode::InternalError.to_string());

    let missing = vec![create_test_node("a", vec![id_of("gone")])];
    assert!(validate_nodes(&missing).is_err());
    assert_eq!(evaluation_order_of(&missing), None);

    let cycle = vec![
        create_test_node("a", vec![id_of("b")]),
        create_test_node("b", vec![id_of("a")]),
    ];
    assert!(validate_nodes(&cycle).is_err());
    assert_eq!(evaluation_order_of(&cycle), None);
}
