use geometry_kernel::ir::graph::IRGraph;
use geometry_kernel::ir::node::{IRNode, NodeContent, NodeId, NodeMetadata, NodeSource, NodeType};
use geometry_kernel::ir::validate::{
    IRValidator, ValidationConfig, ValidationError, ValidationErrorType, ValidationResult,
    ValidationWarning, ValidationWarningType, WarningSeverity,
};
use geometry_kernel::scalar::Scalar;
use geometry_kernel::string_map::StringMap;

fn scalar(value: f64) -> Scalar {
    Scalar::from_bits(value.to_bits())
}

fn metadata(name: &str) -> NodeMetadata {
    NodeMetadata::new(Some(name.to_string()), NodeSource::User, scalar(0.0))
}

fn primitive(list: &[(&str, f64)]) -> (NodeContent, String) {
    let mut parameters = StringMap::new();
    for (name, value) in list {
        parameters.insert(name.to_string(), scalar(*value));
    }
    let content =
        NodeContent::Primitive { primitive_type: "box".to_string(), parameters, transform: None };
    let fields: Vec<String> = list.iter().map(|(n, v)| format!("\"{}\":{:?}", n, v)).collect();
    let json = format!(
        "{{\"type\":\"Primitive\",\"data\":{{\"primitive_type\":\"box\",\"parameters\":{{{}}},\"transform\":null}}}}",
        fields.join(",")
    );
    (content, json)
}

fn create_test_primitive() -> IRNode {
    let (content, json) = primitive(&[("width", 10.0), ("height", 20.0), ("depth", 5.0)]);
    IRNode::new(NodeType::Primitive, content, &json, vec![], metadata("test_box")).unwrap()
}

fn named(id: &str, node_type: NodeType, content: NodeContent, deps: Vec<NodeId>) -> IRNode {
    IRNode::with_user_id(id, node_type, content, "{}", deps, metadata(id)).unwrap()
}

fn id_of(name: &str) -> NodeId {
    NodeId::from_user_string(name)
}

fn kinds(result: &ValidationResult) -> Vec<(ValidationErrorType, Option<NodeId>)> {
    result.errors.iter().map(|e| (e.error_type, e.node_id.clone())).collect()
}

#[test]
fn test_node_validation_success() {
    let validator = IRValidator::new();
    let node = create_test_primitive();

    let result = validator.validate_node(&node).unwrap();
    assert!(result.is_valid);
    assert!(result.errors.is_empty());
}

#[test]
fn test_node_validation_invalid_parameter() {
    let validator = IRValidator::new();

    let (content, json) = primitive(&[("width", -10.0)]);
    let node =
        IRNode::new(NodeType::Primitive, content, &json, vec![], metadata("invalid_box")).unwrap();
    let result = validator.validate_node(&node).unwrap();

    assert!(!result.is_valid);
    assert!(!result.errors.is_empty());
    assert_eq!(result.errors[0].error_type, ValidationErrorType::InvalidParameter);
}

#[test]
fn test_graph_validation() {
    let mut validator = IRValidator::new();
    let mut graph = IRGraph::new();

    let node = create_test_primitive();
    graph.add_node(node).unwrap();

    let result = validator.validate_graph(&graph).unwrap();
    assert!(result.is_valid);
    assert_eq!(result.metrics.nodes_validated, 1);
}

#[test]
fn test_type_compatibility() {
    let validator = IRValidator::new();

    assert!(validator.are_types_compatible(&NodeType::Primitive, &NodeType::Feature));
    assert!(validator.are_types_compatible(&NodeType::Feature, &NodeType::BooleanOp));
    assert!(!validator.are_types_compatible(&NodeType::Analysis, &NodeType::Primitive));
}

#[test]
fn test_validation_result_summary() {
    let mut result = ValidationResult::new();
    assert_eq!(result.summary(), "Validation passed without issues");

    result.add_warning(ValidationWarning {
        warning_type: ValidationWarningType::Performance,
        node_id: None,
        message: "Test warning".to_string(),
        severity: WarningSeverity::Low,
        suggestion: None,
    });
    assert!(result.summary().contains("warnings"));

    result.add_error(ValidationError {
        error_type: ValidationErrorType::InvalidParameter,
        node_id: None,
        message: "Test error".to_string(),
        context: StringMap::new(),
        suggested_fix: None,
    });
    assert!(result.summary().contains("failed"));
}

#[test]
fn summary_counts_errors_and_warnings() {
    let mut result = ValidationResult::new();
    for _ in 0..12 {
        result.add_warning(ValidationWarning {
            warning_type: ValidationWarningType::StyleIssue,
            node_id: None,
            message: String::new(),
            severity: WarningSeverity::High,
            suggestion: None,
        });
    }
    assert!(result.is_valid);
    assert!(result.has_warnings());
    assert!(!result.has_errors());
    assert_eq!(result.summary(), "Validation passed with 12 warnings");
    result.add_error(ValidationError {
        error_type: ValidationErrorType::TypeMismatch,
        node_id: None,
        message: String::new(),
        context: StringMap::new(),
        suggested_fix: None,
    });
    assert!(!result.is_valid);
    assert!(result.has_errors());
    assert_eq!(result.summary(), "Validation failed with 1 errors and 12 warnings");
}

#[test]
fn the_whole_compatibility_matrix() {
    let validator = IRValidator::new();
    let all = [
        NodeType::Primitive,
        NodeType::Feature,
        NodeType::BooleanOp,
        NodeType::Constraint,
        NodeType::Analysis,
    ];
    for dep in all {
        let geometric =
            matches!(dep, NodeType::Primitive | NodeType::Feature | NodeType::BooleanOp);
        assert_eq!(validator.is_geometric_node(&dep), geometric);
        assert!(!validator.are_types_compatible(&dep, &NodeType::Primitive));
        assert_eq!(validator.are_types_compatible(&dep, &NodeType::Feature), geometric);
        assert_eq!(validator.are_types_compatible(&dep, &NodeType::BooleanOp), geometric);
        assert_eq!(validator.are_types_compatible(&dep, &NodeType::Analysis), geometric);
        assert!(validator.are_types_compatible(&dep, &NodeType::Constraint));
    }
}

#[test]
fn a_node_is_checked_for_content_dimensions_and_integrity() {
    let validator = IRValidator::new();
    // Zero counts as not positive; names need only contain the word; a
    // parameter that is no dimension may be anything.
    let (content, json) = primitive(&[
        ("width", 0.0),
        ("inner_radius", -1.0),
        ("depth", -5.0),
        ("height", 2.0),
        ("hole_diameter_mm", -0.0),
    ]);
    let mut node =
        IRNode::new(NodeType::Feature, content, &json, vec![], metadata("odd")).unwrap();
    node.serialized = r#"{"changed":true}"#.to_string();
    let result = validator.validate_node(&node).unwrap();
    assert!(!result.is_valid);
    let id = Some(node.id.clone());
    assert_eq!(
        kinds(&result),
        vec![
            (ValidationErrorType::InvalidContent, id.clone()),
            (ValidationErrorType::InvalidParameter, id.clone()),
            (ValidationErrorType::InvalidParameter, id.clone()),
            (ValidationErrorType::InvalidParameter, id.clone()),
            (ValidationErrorType::IntegrityViolation, id),
        ]
    );
    assert_eq!(result.errors[1].message, "Parameter 'width' must be positive");
    assert_eq!(result.metrics.nodes_validated, 1);
    assert!(result.warnings.is_empty());
}

#[test]
fn a_node_whose_content_cannot_be_hashed_stops_validation() {
    let validator = IRValidator::new();
    let mut node = create_test_primitive();
    node.serialized = "{".to_string();
    assert!(validator.validate_node(&node).is_err());
    let mut graph = IRGraph::new();
    graph.add_node(node).unwrap();
    let mut validator = IRValidator::new();
    assert!(validator.validate_graph(&graph).is_err());
}

#[test]
fn a_graph_is_checked_for_types_and_meaning() {
    let (box_content, _) = primitive(&[]);
    let mut graph = IRGraph::new();
    graph.add_node(named("p", NodeType::Primitive, box_content, vec![])).unwrap();
    graph
        .add_node(named(
            "a",
            NodeType::Analysis,
            NodeContent::Analysis {
                analysis_type: "mass".to_string(),
                target_node: id_of("p"),
                parameters: StringMap::new(),
            },
            vec![id_of("p")],
        ))
        .unwrap();
    // A feature that targets an analysis and depends on it.
    graph
        .add_node(named(
            "f",
            NodeType::Feature,
            NodeContent::Feature {
                feature_type: "hole".to_string(),
                target_node: id_of("a"),
                parameters: StringMap::new(),
            },
            vec![id_of("a"), id_of("p")],
        ))
        .unwrap();
    // A boolean operation on an analysis and on a node that is not there.
    graph
        .add_node(named(
            "b",
            NodeType::BooleanOp,
            NodeContent::BooleanOp {
                operation_type: "union".to_string(),
                operand_a: id_of("a"),
                operand_b: id_of("nowhere"),
            },
            vec![id_of("p")],
        ))
        .unwrap();
    // A primitive may depend on nothing, a constraint on anything.
    let (box_content, _) = primitive(&[]);
    graph.add_node(named("q", NodeType::Primitive, box_content, vec![id_of("p")])).unwrap();
    graph
        .add_node(named(
            "c",
            NodeType::Constraint,
            NodeContent::Constraint {
                constraint_type: "distance".to_string(),
                affected_nodes: vec![id_of("a")],
                parameters: StringMap::new(),
            },
            vec![id_of("a"), id_of("f")],
        ))
        .unwrap();

    let mut validator = IRValidator::with_config(ValidationConfig {
        validate_manufacturing: false,
        analyze_performance: false,
        ..ValidationConfig::default()
    });
    let result = validator.validate_graph(&graph).unwrap();
    assert!(!result.is_valid);
    // Every node was made with content `{}`, which is not its content's
    // text, but its hash was taken over that, so integrity holds.
    assert_eq!(
        kinds(&result),
        vec![
            (ValidationErrorType::TypeMismatch, Some(id_of("f"))),
            (ValidationErrorType::TypeMismatch, Some(id_of("q"))),
            (ValidationErrorType::GeometricInconsistency, Some(id_of("f"))),
            (ValidationErrorType::GeometricInconsistency, Some(id_of("b"))),
        ]
    );
    assert_eq!(
        result.errors[0].message,
        "Incompatible types: feature cannot depend on analysis"
    );
    assert_eq!(result.errors[0].context.get("dependent"), Some(&id_of("f").as_str().to_string()));
    assert_eq!(result.errors[0].context.get("dependency"), Some(&id_of("a").as_str().to_string()));
    assert_eq!(result.warnings.len(), 1);
    assert_eq!(result.warnings[0].message, "Graph has 6 disconnected components");
    assert_eq!(result.manufacturing_analysis.manufacturability_score, 100);
    assert_eq!(result.metrics.nodes_validated, 6);
}

#[test]
fn manufacturability_score_goes_down_to_nought() {
    let mut graph = IRGraph::new();
    let (plain, _) = primitive(&[("width", 10.0)]);
    graph.add_node(named("base", NodeType::Primitive, plain, vec![])).unwrap();
    let (thin, _) = primitive(&[("width", 0.25)]);
    graph.add_node(named("thin", NodeType::Primitive, thin, vec![])).unwrap();
    for i in 0..3 {
        let content = NodeContent::Feature {
            feature_type: "fillet".to_string(),
            target_node: id_of("base"),
            parameters: StringMap::new(),
        };
        graph
            .add_node(named(&format!("f{}", i), NodeType::Feature, content, vec![id_of("base")]))
            .unwrap();
    }
    let mut validator = IRValidator::new();
    let result = validator.validate_graph(&graph).unwrap();
    // A hundred, less twenty for the thin primitive, less five for each
    // of three features.
    assert_eq!(result.manufacturing_analysis.manufacturability_score, 65);
    assert_eq!(result.manufacturing_analysis.constraint_violations.len(), 1);
    assert_eq!(result.manufacturing_analysis.constraint_violations[0].node_id, id_of("thin"));
    assert_eq!(result.manufacturing_analysis.compatible_processes.len(), 3);
    assert!(result.is_valid);

    for i in 0..5 {
        let (thin, _) = primitive(&[("width", 0.1)]);
        graph.add_node(named(&format!("t{}", i), NodeType::Primitive, thin, vec![])).unwrap();
    }
    let result = validator.validate_graph(&graph).unwrap();
    assert_eq!(result.manufacturing_analysis.manufacturability_score, 0);
    assert_eq!(result.manufacturing_analysis.constraint_violations.len(), 6);
    assert!(result.is_valid);
}

#[test]
fn deep_and_dense_graphs_get_advice_but_stay_valid() {
    let mut graph = IRGraph::new();
    let (content, _) = primitive(&[]);
    graph.add_node(named("n0", NodeType::Constraint, content, vec![])).unwrap();
    for i in 1..12 {
        let (content, _) = primitive(&[]);
        let deps = vec![id_of(&format!("n{}", i - 1))];
        graph.add_node(named(&format!("n{}", i), NodeType::Constraint, content, deps)).unwrap();
    }
    let mut validator = IRValidator::new();
    let result = validator.validate_graph(&graph).unwrap();
    assert_eq!(graph.stats().max_depth, 11);
    let severities: Vec<WarningSeverity> = result.warnings.iter().map(|w| w.severity).collect();
    assert_eq!(severities, vec![WarningSeverity::Low, WarningSeverity::Medium]);
    assert_eq!(result.warnings[1].message, "Deep dependency chain detected (depth: 11)");
    // Only content and type disagree; that is an error of each node.
    assert!(!result.is_valid);
    assert_eq!(result.errors.len(), 12);

    // Seven nodes, six of which all the later ones depend on: 36 edges.
    let mut dense = IRGraph::new();
    for i in 0..7 {
        let (content, _) = primitive(&[]);
        let deps: Vec<NodeId> = (0..i).map(|j| id_of(&format!("d{}", j))).collect();
        dense.add_node(named(&format!("d{}", i), NodeType::Primitive, content, deps)).unwrap();
    }
    for i in 0..3 {
        let (content, _) = primitive(&[]);
        let deps: Vec<NodeId> = (0..7).map(|j| id_of(&format!("d{}", j))).collect();
        dense.add_node(named(&format!("e{}", i), NodeType::Primitive, content, deps)).unwrap();
    }
    // 21 + 21 = 42 edges on 10 nodes: not more than five each.
    assert_eq!(dense.stats().edge_count, 42);
    let result = validator.validate_graph(&dense).unwrap();
    assert_eq!(result.warnings.len(), 1);
    let (content, _) = primitive(&[]);
    let deps: Vec<NodeId> = (0..7).map(|j| id_of(&format!("d{}", j))).chain((0..3).map(|j| id_of(&format!("e{}", j)))).collect();
    dense.add_node(named("last", NodeType::Primitive, content, deps)).unwrap();
    // 52 edges on 11 nodes: 55 would be five each, so still no advice.
    assert_eq!(validator.validate_graph(&dense).unwrap().warnings.len(), 1);
    let (content, _) = primitive(&[]);
    let deps: Vec<NodeId> = dense.nodes().iter().map(|n| n.id.clone()).collect();
    dense.add_node(named("more", NodeType::Primitive, content, deps)).unwrap();
    // 63 edges on 12 nodes: more than five each.
    let result = validator.validate_graph(&dense).unwrap();
    assert_eq!(result.warnings.len(), 2);
    assert_eq!(result.warnings[1].message, "High average dependencies per node");
}
