//! Nodes of the semantic graph and their stable identity.
//!
//! A node's id is derived from its type, the hash of its content and the set
//! of nodes it depends on, so equal inputs always give the equal id. Ids made
//! from a user's own string live in a namespace of their own.

use vstd::prelude::*;
use vstd::string::*;
use crate::errors::{ErrorCode, KernelError, KernelResult};
use crate::hashing::{canonical_json, canonicalize_json, digest_hex, hash_text};
use crate::scalar::Scalar;
use crate::string_map::StringMap;
use crate::text::{
    concat_all, concat_strings, is_prefix_of, lemma_sorted_texts_of_permutation, sort_texts,
    sorted_texts, starts_with, str_eq, texts_of,
};

verus! {

/// The text of a generated id: the type tag, an underscore, and the digest
/// of tag, content hash and the dependency ids in ascending order.
pub open spec fn generated_id_text(
    node_type: Seq<char>,
    content_hash: Seq<char>,
    dependencies: Seq<Seq<char>>,
) -> Seq<char> {
    node_type + "_"@ + digest_hex(node_type + content_hash + concat_all(sorted_texts(dependencies)))
}

/// The text of the id that anchors a user's own string.
pub open spec fn user_id_text(user_id: Seq<char>) -> Seq<char> {
    "user_"@ + digest_hex("user_id"@ + user_id)
}

/// The ids that a sequence of node ids holds.
pub open spec fn id_texts(ids: Seq<NodeId>) -> Seq<Seq<char>> {
    Seq::new(ids.len(), |i: int| ids[i]@)
}

/// The ids behind a sequence of references.
pub open spec fn ref_id_texts(ids: Seq<&NodeId>) -> Seq<Seq<char>> {
    Seq::new(ids.len(), |i: int| ids[i]@)
}

/// A generated id does not depend on the order in which the dependencies
/// are listed, only on which they are.
pub proof fn lemma_id_ignores_dependency_order(
    node_type: Seq<char>,
    content_hash: Seq<char>,
    a: Seq<Seq<char>>,
    b: Seq<Seq<char>>,
)
    requires
        a.to_multiset() == b.to_multiset(),
    ensures
        generated_id_text(node_type, content_hash, a) == generated_id_text(
            node_type,
            content_hash,
            b,
        ),
{
    lemma_sorted_texts_of_permutation(a, b);
}

/// Two dependencies may be given in either order.
pub proof fn lemma_id_ignores_swap(
    node_type: Seq<char>,
    content_hash: Seq<char>,
    first: Seq<char>,
    second: Seq<char>,
)
    ensures
        generated_id_text(node_type, content_hash, seq![first, second]) == generated_id_text(
            node_type,
            content_hash,
            seq![second, first],
        ),
{
    broadcast use vstd::seq_lib::group_to_multiset_ensures;

    let a = seq![first, second];
    let b = seq![second, first];
    assert(a =~= Seq::<Seq<char>>::empty().push(first).push(second));
    assert(b =~= Seq::<Seq<char>>::empty().push(second).push(first));
    assert(a.to_multiset() =~= b.to_multiset());
    lemma_id_ignores_dependency_order(node_type, content_hash, a, b);
}

/// Stable identity of a node.
#[derive(Debug, PartialEq, Eq, Hash)]
pub struct NodeId(String);

impl View for NodeId {
    type V = Seq<char>;

    closed spec fn view(&self) -> Seq<char> {
        self.0@
    }
}

impl Clone for NodeId {
    fn clone(&self) -> (r: Self)
        ensures
            r == *self,
    {
        NodeId(self.0.clone())
    }
}

impl NodeId {
    /// The id of a node of the given type, content hash and dependencies.
    pub fn new(node_type: &str, content_hash: &str, dependencies: &[&NodeId]) -> (id: Self)
        ensures
            id@ == generated_id_text(node_type@, content_hash@, ref_id_texts(dependencies@)),
    {
        let mut texts: Vec<String> = Vec::new();
        let n = dependencies.len();
        let mut i: usize = 0;
        while i < n
            invariant
                n == dependencies@.len(),
                i <= n,
                texts_of(texts@) == ref_id_texts(dependencies@).take(i as int),
            decreases n - i,
        {
            let ghost before = texts_of(texts@);
            let text = dependencies[i].0.clone();
            assert(text@ == ref_id_texts(dependencies@)[i as int]);
            texts.push(text);
            assert(texts_of(texts@) =~= before.push(text@));
            assert(texts_of(texts@) =~= ref_id_texts(dependencies@).take(i + 1));
            i += 1;
        }
        assert(ref_id_texts(dependencies@).take(n as int) == ref_id_texts(dependencies@));
        let sorted = sort_texts(&texts);
        let mut material = String::from_str(node_type);
        material.append(content_hash);
        let tail = concat_strings(&sorted);
        material.append(tail.as_str());
        let hex = hash_text(material.as_str());
        let mut text = String::from_str(node_type);
        text.append("_");
        text.append(hex.as_str());
        NodeId(text)
    }

    /// The id that anchors a string of the user's own choosing.
    pub fn from_user_string(user_id: &str) -> (id: Self)
        ensures
            id@ == user_id_text(user_id@),
    {
        let mut material = String::from_str("user_id");
        material.append(user_id);
        let hex = hash_text(material.as_str());
        let mut text = String::from_str("user_");
        text.append(hex.as_str());
        NodeId(text)
    }

    pub fn as_str(&self) -> (s: &str)
        ensures
            s@ == self@,
    {
        self.0.as_str()
    }

    /// Whether the id was derived from content, not anchored by a user.
    pub fn is_generated(&self) -> (b: bool)
        ensures
            b == !is_prefix_of("user_"@, self@),
    {
        !starts_with(self.0.as_str(), "user_")
    }

    /// Whether two ids are the same id.
    pub fn same_as(&self, other: &NodeId) -> (b: bool)
        ensures
            b == (self@ == other@),
    {
        str_eq(self.0.as_str(), other.0.as_str())
    }
}

/// Hash of a node's content in canonical form.
#[derive(Debug, PartialEq, Eq, Hash)]
pub struct ContentHash(String);

impl View for ContentHash {
    type V = Seq<char>;

    closed spec fn view(&self) -> Seq<char> {
        self.0@
    }
}

impl Clone for ContentHash {
    fn clone(&self) -> (r: Self)
        ensures
            r == *self,
    {
        ContentHash(self.0.clone())
    }
}

impl ContentHash {
    /// The hash of content given as JSON text: the digest of the text's
    /// canonical form. Text that is not JSON has no hash.
    pub fn from_content(content_json: &str) -> (r: KernelResult<Self>)
        ensures
            match r {
                Ok(hash) => canonical_json(content_json@) matches Some(canonical) && hash@
                    == digest_hex(canonical),
                Err(e) => canonical_json(content_json@) is None && e.is_plain(
                    ErrorCode::InternalError,
                    "Invalid JSON"@,
                ),
            },
    {
        match canonicalize_json(content_json) {
            Some(canonical) => Ok(ContentHash(hash_text(canonical.as_str()))),
            None => Err(KernelError::internal("Invalid JSON")),
        }
    }

    pub fn as_hex(&self) -> (s: &str)
        ensures
            s@ == self@,
    {
        self.0.as_str()
    }

    /// Whether two hashes are the same hash.
    pub fn same_as(&self, other: &ContentHash) -> (b: bool)
        ensures
            b == (self@ == other@),
    {
        str_eq(self.0.as_str(), other.0.as_str())
    }
}

/// What kind of thing a node is.
#[derive(Debug, Clone, Copy, PartialEq, Eq, Structural)]
pub enum NodeType {
    /// A geometric primitive.
    Primitive,
    /// A parametric feature on some geometry.
    Feature,
    /// A boolean combination of two geometries.
    BooleanOp,
    /// A geometric or manufacturing constraint.
    Constraint,
    /// An analysis or derived property.
    Analysis,
}

impl NodeType {
    /// The tag under which the type enters a node's id.
    pub open spec fn tag(self) -> Seq<char> {
        match self {
            NodeType::Primitive => "primitive"@,
            NodeType::Feature => "feature"@,
            NodeType::BooleanOp => "boolean_op"@,
            NodeType::Constraint => "constraint"@,
            NodeType::Analysis => "analysis"@,
        }
    }

    /// The place of the type in evaluation: lower comes first.
    pub open spec fn priority(self) -> u32 {
        match self {
            NodeType::Primitive => 0,
            NodeType::Feature => 1,
            NodeType::BooleanOp => 2,
            NodeType::Constraint => 3,
            NodeType::Analysis => 4,
        }
    }

    /// Whether nodes of the type stand for geometry.
    pub open spec fn is_geometric(self) -> bool {
        self == NodeType::Primitive || self == NodeType::Feature || self == NodeType::BooleanOp
    }

    pub fn as_str(&self) -> (s: &'static str)
        ensures
            s@ == self.tag(),
    {
        match self {
            NodeType::Primitive => "primitive",
            NodeType::Feature => "feature",
            NodeType::BooleanOp => "boolean_op",
            NodeType::Constraint => "constraint",
            NodeType::Analysis => "analysis",
        }
    }

    pub fn to_string(&self) -> (s: String)
        ensures
            s@ == self.tag(),
    {
        String::from_str(self.as_str())
    }
}

/// Ids generated for a node type and ids anchored by a user never meet.
pub proof fn lemma_generated_and_user_ids_differ(
    node_type: NodeType,
    content_hash: Seq<char>,
    dependencies: Seq<Seq<char>>,
    user_id: Seq<char>,
)
    ensures
        !is_prefix_of(
            "user_"@,
            generated_id_text(node_type.tag(), content_hash, dependencies),
        ),
        is_prefix_of("user_"@, user_id_text(user_id)),
        generated_id_text(node_type.tag(), content_hash, dependencies) != user_id_text(user_id),
{
    reveal_strlit("user_");
    reveal_strlit("_");
    reveal_strlit("primitive");
    reveal_strlit("feature");
    reveal_strlit("boolean_op");
    reveal_strlit("constraint");
    reveal_strlit("analysis");
    let g = generated_id_text(node_type.tag(), content_hash, dependencies);
    let u = user_id_text(user_id);
    assert(u.subrange(0, 5) =~= "user_"@);
    assert(g[0] == node_type.tag()[0]);
    assert(g[0] != 'u');
    if is_prefix_of("user_"@, g) {
        assert(g.subrange(0, 5)[0] == 'u');
    }
    if g == u {
        assert(u[0] == 'u');
    }
}

/// Placement of a primitive: translation, rotation as a quaternion
/// `[w, x, y, z]`, and scale.
#[derive(Debug, Clone, Copy, PartialEq, Eq)]
pub struct Transform {
    pub translation: [Scalar; 3],
    pub rotation: [Scalar; 4],
    pub scale: [Scalar; 3],
}

impl Default for Transform {
    /// The placement that leaves a primitive where and as it is.
    fn default() -> (t: Self)
        ensures
            forall|i: int| 0 <= i < 3 ==> t.translation@[i].bits == 0,
            t.rotation@[0].bits == 0x3FF0_0000_0000_0000,
            forall|i: int| 1 <= i < 4 ==> t.rotation@[i].bits == 0,
            forall|i: int| 0 <= i < 3 ==> t.scale@[i].bits == 0x3FF0_0000_0000_0000,
    {
        Transform {
            translation: [Scalar::zero(), Scalar::zero(), Scalar::zero()],
            rotation: [Scalar::one(), Scalar::zero(), Scalar::zero(), Scalar::zero()],
            scale: [Scalar::one(), Scalar::one(), Scalar::one()],
        }
    }
}

/// The content of a node, for contracts.
pub enum ContentData {
    Primitive {
        primitive_type: Seq<char>,
        parameters: Map<Seq<char>, Scalar>,
        parameter_order: Seq<Seq<char>>,
        transform: Option<Transform>,
    },
    Feature { feature_type: Seq<char>, target_node: Seq<char>, parameters: Map<Seq<char>, String> },
    BooleanOp { operation_type: Seq<char>, operand_a: Seq<char>, operand_b: Seq<char> },
    Constraint {
        constraint_type: Seq<char>,
        affected_nodes: Seq<Seq<char>>,
        parameters: Map<Seq<char>, String>,
    },
    Analysis { analysis_type: Seq<char>, target_node: Seq<char>, parameters: Map<Seq<char>, String> },
}

/// What a node holds, by kind. Parameters that the kernel does not read
/// are kept as the JSON text of their values.
#[derive(Debug)]
pub enum NodeContent {
    /// Parameters of a geometric primitive.
    Primitive {
        primitive_type: String,
        parameters: StringMap<Scalar>,
        transform: Option<Transform>,
    },
    /// A feature applied to a target node.
    Feature {
        feature_type: String,
        target_node: NodeId,
        parameters: StringMap<String>,
    },
    /// A boolean operation on two operands.
    BooleanOp { operation_type: String, operand_a: NodeId, operand_b: NodeId },
    /// A constraint on some nodes.
    Constraint {
        constraint_type: String,
        affected_nodes: Vec<NodeId>,
        parameters: StringMap<String>,
    },
    /// An analysis of a target node.
    Analysis {
        analysis_type: String,
        target_node: NodeId,
        parameters: StringMap<String>,
    },
}

impl View for NodeContent {
    type V = ContentData;

    open spec fn view(&self) -> ContentData {
        match self {
            NodeContent::Primitive { primitive_type, parameters, transform } => {
                ContentData::Primitive {
                    primitive_type: primitive_type@,
                    parameters: parameters@,
                    parameter_order: parameters.key_order(),
                    transform: *transform,
                }
            },
            NodeContent::Feature { feature_type, target_node, parameters } => ContentData::Feature {
                feature_type: feature_type@,
                target_node: target_node@,
                parameters: parameters@,
            },
            NodeContent::BooleanOp { operation_type, operand_a, operand_b } => {
                ContentData::BooleanOp {
                    operation_type: operation_type@,
                    operand_a: operand_a@,
                    operand_b: operand_b@,
                }
            },
            NodeContent::Constraint { constraint_type, affected_nodes, parameters } => {
                ContentData::Constraint {
                    constraint_type: constraint_type@,
                    affected_nodes: id_texts(affected_nodes@),
                    parameters: parameters@,
                }
            },
            NodeContent::Analysis { analysis_type, target_node, parameters } => {
                ContentData::Analysis {
                    analysis_type: analysis_type@,
                    target_node: target_node@,
                    parameters: parameters@,
                }
            },
        }
    }
}

impl Clone for NodeContent {
    fn clone(&self) -> (r: Self)
        ensures
            r@ == self@,
    {
        match self {
            NodeContent::Primitive { primitive_type, parameters, transform } => {
                let copy = parameters.clone();
                assert(copy@ =~= parameters@);
                NodeContent::Primitive {
                    primitive_type: primitive_type.clone(),
                    parameters: copy,
                    transform: *transform,
                }
            },
            NodeContent::Feature { feature_type, target_node, parameters } => {
                let copy = parameters.clone();
                assert(copy@ =~= parameters@);
                NodeContent::Feature {
                    feature_type: feature_type.clone(),
                    target_node: target_node.clone(),
                    parameters: copy,
                }
            },
            NodeContent::BooleanOp { operation_type, operand_a, operand_b } => {
                NodeContent::BooleanOp {
                    operation_type: operation_type.clone(),
                    operand_a: operand_a.clone(),
                    operand_b: operand_b.clone(),
                }
            },
            NodeContent::Constraint { constraint_type, affected_nodes, parameters } => {
                let copy = parameters.clone();
                assert(copy@ =~= parameters@);
                let nodes = affected_nodes.clone();
                assert(id_texts(nodes@) =~= id_texts(affected_nodes@));
                NodeContent::Constraint {
                    constraint_type: constraint_type.clone(),
                    affected_nodes: nodes,
                    parameters: copy,
                }
            },
            NodeContent::Analysis { analysis_type, target_node, parameters } => {
                let copy = parameters.clone();
                assert(copy@ =~= parameters@);
                NodeContent::Analysis {
                    analysis_type: analysis_type.clone(),
                    target_node: target_node.clone(),
                    parameters: copy,
                }
            },
        }
    }
}

impl NodeContent {
    /// The node type that content of this kind belongs to.
    pub open spec fn kind(self) -> NodeType {
        match self {
            NodeContent::Primitive { .. } => NodeType::Primitive,
            NodeContent::Feature { .. } => NodeType::Feature,
            NodeContent::BooleanOp { .. } => NodeType::BooleanOp,
            NodeContent::Constraint { .. } => NodeType::Constraint,
            NodeContent::Analysis { .. } => NodeType::Analysis,
        }
    }

    pub fn node_type(&self) -> (t: NodeType)
        ensures
            t == self.kind(),
    {
        match self {
            NodeContent::Primitive { .. } => NodeType::Primitive,
            NodeContent::Feature { .. } => NodeType::Feature,
            NodeContent::BooleanOp { .. } => NodeType::BooleanOp,
            NodeContent::Constraint { .. } => NodeType::Constraint,
            NodeContent::Analysis { .. } => NodeType::Analysis,
        }
    }
}

/// Where a node came from.
#[derive(Debug, Clone)]
pub enum NodeSource {
    /// Made by a user's action.
    User,
    /// Made by automation.
    Generated,
    /// Read from a file.
    Import { format: String, file: String },
    /// Derived from other nodes.
    Derived { from_nodes: Vec<NodeId> },
}

/// What validation has found of a node so far.
#[derive(Debug, Clone)]
pub enum ValidationStatus {
    Pending,
    Valid,
    Invalid { error: String },
    Warning { message: String },
}

/// What is recorded of a node besides its content.
#[derive(Debug, Clone)]
pub struct NodeMetadata {
    /// When the node was made, in seconds since the epoch.
    pub created_at: Scalar,
    pub name: Option<String>,
    pub source: NodeSource,
    pub validation_status: ValidationStatus,
    pub tags: Vec<String>,
}

impl NodeMetadata {
    /// Metadata of a node made at `created_at`, not yet validated.
    pub fn new(name: Option<String>, source: NodeSource, created_at: Scalar) -> (m: Self)
        ensures
            m.name == name,
            m.source == source,
            m.created_at == created_at,
            m.validation_status is Pending,
            m.tags@.len() == 0,
    {
        NodeMetadata {
            created_at,
            name,
            source,
            validation_status: ValidationStatus::Pending,
            tags: Vec::new(),
        }
    }
}

/// A node, for contracts. What is recorded of a node besides its content
/// is not part of it.
pub struct NodeData {
    pub id: Seq<char>,
    pub content_hash: Seq<char>,
    pub node_type: NodeType,
    pub content: ContentData,
    pub serialized: Seq<char>,
    pub dependencies: Seq<Seq<char>>,
}

/// A node of the semantic graph.
///
/// `serialized` is the JSON text of `content`; the content hash is taken
/// over its canonical form.
#[derive(Debug)]
pub struct IRNode {
    pub id: NodeId,
    pub content_hash: ContentHash,
    pub node_type: NodeType,
    pub content: NodeContent,
    pub serialized: String,
    pub dependencies: Vec<NodeId>,
    pub metadata: NodeMetadata,
}

impl View for IRNode {
    type V = NodeData;

    open spec fn view(&self) -> NodeData {
        NodeData {
            id: self.id@,
            content_hash: self.content_hash@,
            node_type: self.node_type,
            content: self.content@,
            serialized: self.serialized@,
            dependencies: id_texts(self.dependencies@),
        }
    }
}

impl Clone for IRNode {
    fn clone(&self) -> (r: Self)
        ensures
            r@ == self@,
    {
        let dependencies = self.dependencies.clone();
        assert(id_texts(dependencies@) =~= id_texts(self.dependencies@));
        IRNode {
            id: self.id.clone(),
            content_hash: self.content_hash.clone(),
            node_type: self.node_type,
            content: self.content.clone(),
            serialized: self.serialized.clone(),
            dependencies,
            metadata: self.metadata.clone(),
        }
    }
}

impl IRNode {
    /// The ids this node depends on.
    pub open spec fn dependency_ids(self) -> Seq<Seq<char>> {
        id_texts(self.dependencies@)
    }

    /// Whether the stored hash is the hash of the stored content.
    pub open spec fn has_integrity(self) -> bool {
        canonical_json(self.serialized@) matches Some(canonical) && self.content_hash@
            == digest_hex(canonical)
    }

    /// A node whose hash and id are derived from its content and
    /// dependencies. Fails where `serialized` is not JSON.
    pub fn new(
        node_type: NodeType,
        content: NodeContent,
        serialized: &str,
        dependencies: Vec<NodeId>,
        metadata: NodeMetadata,
    ) -> (r: KernelResult<Self>)
        ensures
            match r {
                Ok(node) => {
                    &&& node.has_integrity()
                    &&& node.id@ == generated_id_text(
                        node_type.tag(),
                        node.content_hash@,
                        id_texts(dependencies@),
                    )
                    &&& node.node_type == node_type
                    &&& node.content == content
                    &&& node.serialized@ == serialized@
                    &&& node.dependencies == dependencies
                    &&& node.metadata == metadata
                },
                Err(e) => canonical_json(serialized@) is None && e.is_plain(
                    ErrorCode::InternalError,
                    "Invalid JSON"@,
                ),
            },
    {
        let content_hash = ContentHash::from_content(serialized)?;
        let mut refs: Vec<&NodeId> = Vec::new();
        let n = dependencies.len();
        let mut i: usize = 0;
        while i < n
            invariant
                n == dependencies@.len(),
                i <= n,
                ref_id_texts(refs@) == id_texts(dependencies@).take(i as int),
            decreases n - i,
        {
            let ghost before = ref_id_texts(refs@);
            let dependency = &dependencies[i];
            assert(dependency@ == id_texts(dependencies@)[i as int]);
            refs.push(dependency);
            assert(ref_id_texts(refs@) =~= before.push(dependency@));
            assert(ref_id_texts(refs@) =~= id_texts(dependencies@).take(i + 1));
            i += 1;
        }
        assert(id_texts(dependencies@).take(n as int) == id_texts(dependencies@));
        let id = NodeId::new(node_type.as_str(), content_hash.as_hex(), refs.as_slice());
        Ok(
            IRNode {
                id,
                content_hash,
                node_type,
                content,
                serialized: String::from_str(serialized),
                dependencies,
                metadata,
            },
        )
    }

    /// A node under an id that anchors the user's own string.
    pub fn with_user_id(
        user_id: &str,
        node_type: NodeType,
        content: NodeContent,
        serialized: &str,
        dependencies: Vec<NodeId>,
        metadata: NodeMetadata,
    ) -> (r: KernelResult<Self>)
        ensures
            match r {
                Ok(node) => {
                    &&& node.has_integrity()
                    &&& node.id@ == user_id_text(user_id@)
                    &&& node.node_type == node_type
                    &&& node.content == content
                    &&& node.serialized@ == serialized@
                    &&& node.dependencies == dependencies
                    &&& node.metadata == metadata
                },
                Err(e) => canonical_json(serialized@) is None && e.is_plain(
                    ErrorCode::InternalError,
                    "Invalid JSON"@,
                ),
            },
    {
        let content_hash = ContentHash::from_content(serialized)?;
        let id = NodeId::from_user_string(user_id);
        Ok(
            IRNode {
                id,
                content_hash,
                node_type,
                content,
                serialized: String::from_str(serialized),
                dependencies,
                metadata,
            },
        )
    }

    /// Recomputes the content hash and compares it with the stored one.
    pub fn verify_integrity(&self) -> (r: KernelResult<bool>)
        ensures
            match r {
                Ok(intact) => canonical_json(self.serialized@) is Some && intact
                    == self.has_integrity(),
                Err(e) => canonical_json(self.serialized@) is None && e.is_plain(
                    ErrorCode::InternalError,
                    "Invalid JSON"@,
                ),
            },
    {
        let computed = ContentHash::from_content(self.serialized.as_str())?;
        Ok(computed.same_as(&self.content_hash))
    }

    /// The place of the node in evaluation: lower comes first.
    pub fn evaluation_priority(&self) -> (p: u32)
        ensures
            p == self.node_type.priority(),
    {
        match self.node_type {
            NodeType::Primitive => 0,
            NodeType::Feature => 1,
            NodeType::BooleanOp => 2,
            NodeType::Constraint => 3,
            NodeType::Analysis => 4,
        }
    }
}

} // verus!
