use geometry_kernel::errors::ErrorCode;
use geometry_kernel::hashing::hash_text;
use geometry_kernel::ir::node::{
    ContentHash, IRNode, NodeContent, NodeId, NodeMetadata, NodeSource, NodeType, Transform,
};
use geometry_kernel::scalar::Scalar;
use geometry_kernel::string_map::StringMap;

fn scalar(value: f64) -> Scalar {
    Scalar::from_bits(value.to_bits())
}

fn parameters(list: &[(&str, f64)]) -> StringMap<Scalar> {
    let mut map = StringMap::new();
    for (name, value) in list {
        map.insert(name.to_string(), scalar(*value));
    }
    map
}

fn primitive(kind: &str, list: &[(&str, f64)]) -> (NodeContent, String) {
    let content = NodeContent::Primitive {
        primitive_type: kind.to_string(),
        parameters: parameters(list),
        transform: None,
    };
    let fields: Vec<String> = list.iter().map(|(n, v)| format!("\"{}\":{:?}", n, v)).collect();
    let json = format!(
        "{{\"type\":\"Primitive\",\"data\":{{\"primitive_type\":\"{}\",\"parameters\":{{{}}},\"transform\":null}}}}",
        kind,
        fields.join(",")
    );
    (content, json)
}

#[test]
fn test_node_id_deterministic() {
    let content_hash = "abc123";

    let id1 = NodeId::new("primitive", content_hash, &[]);
    let id2 = NodeId::new("primitive", content_hash, &[]);

    assert_eq!(id1, id2, "Node IDs should be deterministic");
}

#[test]
fn test_content_hash_consistent() {
    let (_, json) = primitive("box", &[("width", 10.0), ("height", 20.0)]);

    let hash1 = ContentHash::from_content(&json).unwrap();
    let hash2 = ContentHash::from_content(&json).unwrap();

    assert_eq!(hash1, hash2, "Content hashes should be consistent");
}

#[test]
fn test_ir_node_creation() {
    let metadata = NodeMetadata::new(Some("test_box".to_string()), NodeSource::User, scalar(0.0));
    let (content, json) = primitive("box", &[("width", 10.0)]);

    let node = IRNode::new(NodeType::Primitive, content, &json, vec![], metadata).unwrap();

    assert!(node.verify_integrity().unwrap(), "Node should have valid integrity");
    assert_eq!(node.evaluation_priority(), 0, "Primitives should have highest priority");
}

#[test]
fn test_node_dependencies() {
    let metadata = NodeMetadata::new(None, NodeSource::Generated, scalar(0.0));

    let (dep_content, dep_json) = primitive("box", &[]);
    let dep_node =
        IRNode::new(NodeType::Primitive, dep_content, &dep_json, vec![], metadata.clone()).unwrap();

    let content = NodeContent::Feature {
        feature_type: "hole".to_string(),
        target_node: dep_node.id.clone(),
        parameters: StringMap::new(),
    };
    let json = format!(
        "{{\"type\":\"Feature\",\"data\":{{\"feature_type\":\"hole\",\"target_node\":\"{}\",\"parameters\":{{}}}}}}",
        dep_node.id.as_str()
    );

    let node =
        IRNode::new(NodeType::Feature, content, &json, vec![dep_node.id.clone()], metadata).unwrap();

    assert_eq!(node.dependencies.len(), 1, "Should have one dependency");
    assert_eq!(node.dependencies[0], dep_node.id, "Dependency should match");
}

#[test]
fn test_node_content_hash_deterministic() {
    let (_, json1) = primitive("sphere", &[("radius", 5.0)]);
    let (_, json2) = primitive("sphere", &[("radius", 5.0)]);

    let hash1 = ContentHash::from_content(&json1).unwrap();
    let hash2 = ContentHash::from_content(&json2).unwrap();

    assert_eq!(hash1, hash2, "Content hashes should be deterministic");
}

#[test]
fn id_does_not_depend_on_dependency_order() {
    let a = NodeId::from_user_string("depA");
    let b = NodeId::from_user_string("depB");
    let c = NodeId::from_user_string("depC");
    let hash = "0123abcd";
    assert_eq!(NodeId::new("feature", hash, &[&a, &b]), NodeId::new("feature", hash, &[&b, &a]));
    assert_eq!(
        NodeId::new("feature", hash, &[&a, &b, &c]),
        NodeId::new("feature", hash, &[&c, &a, &b])
    );
    assert_ne!(NodeId::new("feature", hash, &[&a, &b]), NodeId::new("feature", hash, &[&a]));
    assert_ne!(NodeId::new("feature", hash, &[&a]), NodeId::new("feature", "other", &[&a]));
    assert_ne!(NodeId::new("feature", hash, &[&a]), NodeId::new("primitive", hash, &[&a]));
}

#[test]
fn generated_id_is_tag_and_digest_of_its_parts() {
    let a = NodeId::from_user_string("a");
    let b = NodeId::from_user_string("b");
    let (first, second) = if a.as_str() <= b.as_str() { (&a, &b) } else { (&b, &a) };
    let material = format!("feature{}{}{}", "hash", first.as_str(), second.as_str());
    let expected = format!("feature_{}", hash_text(&material));
    assert_eq!(NodeId::new("feature", "hash", &[&b, &a]).as_str(), expected);
}

#[test]
fn user_ids_and_generated_ids_are_told_apart() {
    let user = NodeId::from_user_string("my_part");
    assert!(!user.is_generated());
    assert!(user.as_str().starts_with("user_"));
    assert_eq!(user.as_str(), format!("user_{}", hash_text("user_idmy_part")));
    let generated = NodeId::new("primitive", "abc123", &[]);
    assert!(generated.is_generated());
    assert!(generated.as_str().starts_with("primitive_"));
    assert_eq!(generated.as_str().len(), "primitive_".len() + 64);
    assert!(user.same_as(&NodeId::from_user_string("my_part")));
    assert!(!user.same_as(&generated));
}

#[test]
fn content_hash_ignores_key_order_and_is_the_digest_of_the_canonical_text() {
    let one = ContentHash::from_content(r#"{"b":1,"a":2}"#).unwrap();
    let two = ContentHash::from_content(r#"{ "a": 2, "b": 1 }"#).unwrap();
    assert_eq!(one, two);
    assert_eq!(one.as_hex(), hash_text(r#"{"a":2,"b":1}"#));
    assert!(one.same_as(&two));
}

#[test]
fn content_that_is_not_json_has_no_hash() {
    let error = ContentHash::from_content("{ broken").unwrap_err();
    assert_eq!(error.code, ErrorCode::InternalError.to_string());
    assert_eq!(error.message, "Invalid JSON");
    let metadata = NodeMetadata::new(None, NodeSource::User, scalar(0.0));
    let (content, _) = primitive("box", &[]);
    assert!(IRNode::new(NodeType::Primitive, content, "nope", vec![], metadata).is_err());
}

#[test]
fn node_with_user_id_anchors_the_users_string() {
    let metadata = NodeMetadata::new(None, NodeSource::User, scalar(1.5));
    let (content, json) = primitive("box", &[("width", 1.0)]);
    let node =
        IRNode::with_user_id("anchor", NodeType::Primitive, content, &json, vec![], metadata)
            .unwrap();
    assert_eq!(node.id, NodeId::from_user_string("anchor"));
    assert_eq!(node.serialized, json);
    assert_eq!(node.metadata.created_at, scalar(1.5));
    assert!(node.verify_integrity().unwrap());
}

#[test]
fn changed_content_fails_the_integrity_check() {
    let metadata = NodeMetadata::new(None, NodeSource::User, scalar(0.0));
    let (content, json) = primitive("box", &[("width", 1.0)]);
    let mut node = IRNode::new(NodeType::Primitive, content, &json, vec![], metadata).unwrap();
    let (_, other) = primitive("box", &[("width", 2.0)]);
    node.serialized = other;
    assert!(!node.verify_integrity().unwrap());
    node.serialized = "not json".to_string();
    assert!(node.verify_integrity().is_err());
}

#[test]
fn priorities_and_tags_follow_the_node_type() {
    let types = [
        (NodeType::Primitive, "primitive", 0),
        (NodeType::Feature, "feature", 1),
        (NodeType::BooleanOp, "boolean_op", 2),
        (NodeType::Constraint, "constraint", 3),
        (NodeType::Analysis, "analysis", 4),
    ];
    for (node_type, tag, priority) in types {
        assert_eq!(node_type.to_string(), tag);
        let metadata = NodeMetadata::new(None, NodeSource::User, scalar(0.0));
        let (content, json) = primitive("box", &[]);
        let node = IRNode::new(node_type, content, &json, vec![], metadata).unwrap();
        assert_eq!(node.evaluation_priority(), priority);
        assert!(node.id.as_str().starts_with(&format!("{}_", tag)));
    }
}

#[test]
fn default_transform_is_the_identity() {
    let t = Transform::default();
    assert_eq!(t.translation, [scalar(0.0); 3]);
    assert_eq!(t.rotation, [scalar(1.0), scalar(0.0), scalar(0.0), scalar(0.0)]);
    assert_eq!(t.scale, [scalar(1.0); 3]);
}
