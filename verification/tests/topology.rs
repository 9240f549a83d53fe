use geometry_kernel::ir::feature::{ConstraintType, ManufacturingConstraint, ManufacturingProcess};
use geometry_kernel::scalar::Scalar;
use geometry_kernel::string_map::StringMap;
use geometry_kernel::topology::{
    AdjacencyGraph, EdgeId, FaceId, HalfEdge, HalfEdgeId, ShellId, SolidId, TopologyId,
};

#[test]
fn test_topology_id_creation() {
    let id = TopologyId::new("vertex", 123);
    assert_eq!(id.as_str(), "vertex_123");
}

#[test]
fn test_half_edge_creation() {
    let edge_id = EdgeId::new("test_edge".to_string());
    let vertex_id = TopologyId::new("vertex", 0);
    let he = HalfEdge::new(edge_id.clone(), vertex_id, true);

    assert_eq!(he.edge_id, edge_id);
    assert!(he.forward);
    assert!(he.twin.is_none());
}

#[test]
fn test_adjacency_graph() {
    let mut adj = AdjacencyGraph::new();
    let edge_id = EdgeId::new("test_edge".to_string());
    let vertex_id = TopologyId::new("vertex", 0);

    adj.add_edge_vertex_relation(edge_id.clone(), vertex_id).unwrap();

    let vertices = adj.get_vertices_for_edge(&edge_id);
    assert_eq!(vertices.len(), 1);
}

#[test]
fn ids_are_written_in_decimal() {
    assert_eq!(TopologyId::new("edge", 0).as_str(), "edge_0");
    assert_eq!(TopologyId::new("face", 9).as_str(), "face_9");
    assert_eq!(TopologyId::new("face", 10).as_str(), "face_10");
    assert_eq!(TopologyId::new("", 4096).as_str(), "_4096");
    assert_eq!(
        TopologyId::new("v", usize::MAX).as_str(),
        format!("v_{}", usize::MAX)
    );
    assert_eq!(TopologyId::from_string("anything".to_string()).as_str(), "anything");
    assert_eq!(EdgeId::new("e".to_string()).as_str(), "e");
    assert_eq!(HalfEdgeId::new("h".to_string()).as_str(), "h");
    assert_eq!(FaceId::new("f".to_string()).as_str(), "f");
    assert_eq!(ShellId::new("s".to_string()).as_str(), "s");
    assert_eq!(SolidId::new("o".to_string()).as_str(), "o");
}

#[test]
fn faces_of_an_edge_come_once_each_in_their_order() {
    let mut adj = AdjacencyGraph::new();
    let edge = |name: &str| EdgeId::new(name.to_string());
    let face = |name: &str| FaceId::new(name.to_string());
    adj.add_face_edge_relation(face("top"), edge("e1")).unwrap();
    adj.add_face_edge_relation(face("side"), edge("e2")).unwrap();
    adj.add_face_edge_relation(face("side"), edge("e1")).unwrap();
    adj.add_face_edge_relation(face("top"), edge("e1")).unwrap();
    adj.add_face_edge_relation(face("bottom"), edge("e2")).unwrap();
    let of = |id: &str| -> Vec<String> {
        adj.get_faces_for_edge(&edge(id)).iter().map(|f| f.as_str().to_string()).collect()
    };
    assert_eq!(of("e1"), vec!["top", "side"]);
    assert_eq!(of("e2"), vec!["side", "bottom"]);
    assert_eq!(of("e3"), Vec::<String>::new());
    assert!(adj.validate().is_ok());
    assert!(adj.get_vertices_for_edge(&edge("e1")).is_empty());
}

#[test]
fn vertices_of_an_edge_come_in_the_order_they_were_related() {
    let mut adj = AdjacencyGraph::new();
    let edge = EdgeId::new("e".to_string());
    adj.add_edge_vertex_relation(edge.clone(), TopologyId::new("vertex", 4)).unwrap();
    adj.add_edge_vertex_relation(EdgeId::new("other".to_string()), TopologyId::new("vertex", 5))
        .unwrap();
    adj.add_edge_vertex_relation(edge.clone(), TopologyId::new("vertex", 2)).unwrap();
    let found: Vec<&str> = adj.get_vertices_for_edge(&edge).iter().map(|v| v.as_str()).collect();
    assert_eq!(found, vec!["vertex_4", "vertex_2"]);
}

#[test]
fn a_constraint_needs_the_parameter_of_its_type() {
    let cases = [
        (ConstraintType::MinFeatureSize, "min_size"),
        (ConstraintType::MaxAspectRatio, "max_ratio"),
        (ConstraintType::DraftAngle, "min_angle"),
        (ConstraintType::WallThickness, "min_thickness"),
    ];
    for (constraint_type, name) in cases {
        let mut constraint = ManufacturingConstraint {
            constraint_type,
            parameters: StringMap::new(),
            applicable_processes: vec![ManufacturingProcess::CNCMilling],
        };
        let error = constraint.validate().unwrap_err();
        assert_eq!(error.code, "MISSING_PARAMETER");
        assert_eq!(error.message, format!("Missing required parameter: {}", name));
        constraint.parameters.insert(name.to_string(), Scalar::from_bits(1.0f64.to_bits()));
        assert!(constraint.validate().is_ok());
        assert_eq!(constraint.is_satisfied_by(&ManufacturingProcess::SheetMetal).unwrap(), true);
    }
}
