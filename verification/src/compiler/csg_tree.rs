//! The CSG tree: primitives at the leaves, boolean operations above them.

use vstd::prelude::*;
use vstd::string::*;
use crate::errors::{ErrorCode, Fault, KernelError, KernelResult};
use crate::geometry::params::{missing_parameter, validate_primitive_params};
use crate::scalar::Scalar;
use crate::string_map::StringMap;
use crate::text::str_eq;
use crate::types::{BoundingBox, PrimitiveType, Transform};

verus! {

/// A CSG tree as a value of mathematics.
pub enum CsgTree {
    Primitive {
        id: Seq<char>,
        type_: PrimitiveType,
        params: Map<Seq<char>, Scalar>,
        transform: Option<Transform>,
    },
    Union { left: Box<CsgTree>, right: Box<CsgTree> },
    Subtract { target: Box<CsgTree>, tool: Box<CsgTree> },
    Intersect { left: Box<CsgTree>, right: Box<CsgTree> },
}

impl CsgTree {
    /// The number of nodes.
    pub open spec fn size(self) -> nat
        decreases self,
    {
        match self {
            CsgTree::Primitive { .. } => 1,
            CsgTree::Union { left, right } => left.size() + right.size() + 1,
            CsgTree::Subtract { target, tool } => target.size() + tool.size() + 1,
            CsgTree::Intersect { left, right } => left.size() + right.size() + 1,
        }
    }

    /// The number of operations on the longest way down to a primitive.
    pub open spec fn height(self) -> nat
        decreases self,
    {
        match self {
            CsgTree::Primitive { .. } => 0,
            CsgTree::Union { left, right } => higher(left.height(), right.height()) + 1,
            CsgTree::Subtract { target, tool } => higher(target.height(), tool.height()) + 1,
            CsgTree::Intersect { left, right } => higher(left.height(), right.height()) + 1,
        }
    }

    /// The ids of the primitives, from left to right.
    pub open spec fn primitive_ids(self) -> Seq<Seq<char>>
        decreases self,
    {
        match self {
            CsgTree::Primitive { id, .. } => seq![id],
            CsgTree::Union { left, right } => left.primitive_ids() + right.primitive_ids(),
            CsgTree::Subtract { target, tool } => target.primitive_ids() + tool.primitive_ids(),
            CsgTree::Intersect { left, right } => left.primitive_ids() + right.primitive_ids(),
        }
    }

    /// The primitives, from left to right.
    pub open spec fn primitives(self) -> Seq<CsgTree>
        decreases self,
    {
        match self {
            CsgTree::Primitive { .. } => seq![self],
            CsgTree::Union { left, right } => left.primitives() + right.primitives(),
            CsgTree::Subtract { target, tool } => target.primitives() + tool.primitives(),
            CsgTree::Intersect { left, right } => left.primitives() + right.primitives(),
        }
    }

    /// The first parameter, going from left to right, that a primitive
    /// needs and does not have.
    pub open spec fn missing(self) -> Option<Seq<char>>
        decreases self,
    {
        match self {
            CsgTree::Primitive { type_, params, .. } => missing_parameter(type_, params.dom()),
            CsgTree::Union { left, right } => first_of(left.missing(), right.missing()),
            CsgTree::Subtract { target, tool } => first_of(target.missing(), tool.missing()),
            CsgTree::Intersect { left, right } => first_of(left.missing(), right.missing()),
        }
    }
}

pub open spec fn higher(a: nat, b: nat) -> nat {
    if a >= b {
        a
    } else {
        b
    }
}

pub open spec fn first_of(a: Option<Seq<char>>, b: Option<Seq<char>>) -> Option<Seq<char>> {
    match a {
        Some(_) => a,
        None => b,
    }
}

/// Where, from `j` on, an id first stands that stood before.
pub open spec fn repeat_from(ids: Seq<Seq<char>>, j: int) -> Option<int>
    decreases ids.len() - j,
{
    if j < 0 || j >= ids.len() {
        None
    } else if ids.take(j).contains(ids[j]) {
        Some(j)
    } else {
        repeat_from(ids, j + 1)
    }
}

/// Where there is no repeat, no id stands twice.
pub proof fn lemma_no_repeat(ids: Seq<Seq<char>>, j: int)
    requires
        0 <= j <= ids.len(),
        repeat_from(ids, j) is None,
        forall|a: int, b: int| 0 <= a < b < j ==> ids[a] != ids[b],
    ensures
        ids.no_duplicates(),
    decreases ids.len() - j,
{
    if j < ids.len() {
        assert forall|a: int, b: int| 0 <= a < b < j + 1 implies ids[a] != ids[b] by {
            if b == j {
                assert(ids.take(j)[a] == ids[a]);
            }
        }
        lemma_no_repeat(ids, j + 1);
    }
}

impl CsgTree {
    /// What is wrong with the tree, if anything: the first id, going from
    /// left to right, that stood before; else the first parameter that a
    /// primitive needs and does not have.
    pub open spec fn fault(self) -> Option<Fault> {
        match repeat_from(self.primitive_ids(), 0) {
            Some(j) => Some(
                Fault {
                    code: ErrorCode::CircularReference,
                    message: "Circular reference detected involving: "@ + self.primitive_ids()[j],
                },
            ),
            None => match self.missing() {
                Some(name) => Some(
                    Fault {
                        code: ErrorCode::MissingParameter,
                        message: "Missing required parameter: "@ + name,
                    },
                ),
                None => None,
            },
        }
    }
}

/// The trees that a sequence of nodes stands for.
pub open spec fn node_trees(nodes: Seq<&CsgNode>) -> Seq<CsgTree> {
    Seq::new(nodes.len(), |i: int| nodes[i]@)
}

/// A number of mathematics as a `usize`, or the greatest `usize` where it
/// does not fit.
pub open spec fn clipped(n: nat) -> usize {
    if n <= usize::MAX {
        n as usize
    } else {
        usize::MAX
    }
}

/// A node of a CSG tree.
#[derive(Debug)]
pub enum CsgNode {
    /// A primitive solid.
    Primitive {
        id: String,
        type_: PrimitiveType,
        params: StringMap<Scalar>,
        transform: Option<Transform>,
    },
    /// Both solids together.
    Union { left: Box<CsgNode>, right: Box<CsgNode> },
    /// The target without the tool.
    Subtract { target: Box<CsgNode>, tool: Box<CsgNode> },
    /// What both solids share.
    Intersect { left: Box<CsgNode>, right: Box<CsgNode> },
}

impl CsgNode {
    /// The tree that the node stands for.
    pub open spec fn tree(&self) -> CsgTree
        decreases self,
    {
        match self {
            CsgNode::Primitive { id, type_, params, transform } => CsgTree::Primitive {
                id: id@,
                type_: *type_,
                params: params@,
                transform: *transform,
            },
            CsgNode::Union { left, right } => CsgTree::Union {
                left: Box::new(left.tree()),
                right: Box::new(right.tree()),
            },
            CsgNode::Subtract { target, tool } => CsgTree::Subtract {
                target: Box::new(target.tree()),
                tool: Box::new(tool.tree()),
            },
            CsgNode::Intersect { left, right } => CsgTree::Intersect {
                left: Box::new(left.tree()),
                right: Box::new(right.tree()),
            },
        }
    }
}

impl View for CsgNode {
    type V = CsgTree;

    open spec fn view(&self) -> CsgTree {
        self.tree()
    }
}

impl Clone for CsgNode {
    fn clone(&self) -> (r: Self)
        ensures
            r@ == self@,
        decreases self,
    {
        match self {
            CsgNode::Primitive { id, type_, params, transform } => {
                let copy = params.clone();
                assert(copy@ =~= params@);
                CsgNode::Primitive {
                    id: id.clone(),
                    type_: *type_,
                    params: copy,
                    transform: *transform,
                }
            },
            CsgNode::Union { left, right } => CsgNode::Union {
                left: Box::new((**left).clone()),
                right: Box::new((**right).clone()),
            },
            CsgNode::Subtract { target, tool } => CsgNode::Subtract {
                target: Box::new((**target).clone()),
                tool: Box::new((**tool).clone()),
            },
            CsgNode::Intersect { left, right } => CsgNode::Intersect {
                left: Box::new((**left).clone()),
                right: Box::new((**right).clone()),
            },
        }
    }
}

fn add_clipped(a: usize, b: usize) -> (s: usize)
    ensures
        s == clipped((a + b) as nat),
{
    if a > usize::MAX - b {
        usize::MAX
    } else {
        a + b
    }
}

impl CsgNode {
    /// The id, where the node is a primitive.
    pub fn get_id(&self) -> (r: Option<&str>)
        ensures
            match r {
                Some(id) => self@ is Primitive && id@ == self@->id,
                None => !(self@ is Primitive),
            },
    {
        match self {
            CsgNode::Primitive { id, .. } => Some(id.as_str()),
            _ => None,
        }
    }

    pub fn is_primitive(&self) -> (b: bool)
        ensures
            b == (self@ is Primitive),
    {
        match self {
            CsgNode::Primitive { .. } => true,
            _ => false,
        }
    }

    pub fn is_operation(&self) -> (b: bool)
        ensures
            b == !(self@ is Primitive),
    {
        !self.is_primitive()
    }

    /// The kind of primitive, where the node is one.
    pub fn get_primitive_type(&self) -> (r: Option<PrimitiveType>)
        ensures
            match r {
                Some(t) => self@ is Primitive && t == self@->type_,
                None => !(self@ is Primitive),
            },
    {
        match self {
            CsgNode::Primitive { type_, .. } => Some(*type_),
            _ => None,
        }
    }

    /// The name of the operation, where the node is one.
    pub fn get_operation_type(&self) -> (r: Option<&'static str>)
        ensures
            match self@ {
                CsgTree::Primitive { .. } => r is None,
                CsgTree::Union { .. } => r matches Some(name) && name@ == "union"@,
                CsgTree::Subtract { .. } => r matches Some(name) && name@ == "subtract"@,
                CsgTree::Intersect { .. } => r matches Some(name) && name@ == "intersect"@,
            },
    {
        match self {
            CsgNode::Union { .. } => Some("union"),
            CsgNode::Subtract { .. } => Some("subtract"),
            CsgNode::Intersect { .. } => Some("intersect"),
            CsgNode::Primitive { .. } => None,
        }
    }

    /// The number of nodes in the tree.
    pub fn node_count(&self) -> (n: usize)
        ensures
            n == clipped(self@.size()),
        decreases self,
    {
        match self {
            CsgNode::Primitive { .. } => 1,
            CsgNode::Union { left, right } => add_clipped(
                add_clipped(left.node_count(), right.node_count()),
                1,
            ),
            CsgNode::Subtract { target, tool } => add_clipped(
                add_clipped(target.node_count(), tool.node_count()),
                1,
            ),
            CsgNode::Intersect { left, right } => add_clipped(
                add_clipped(left.node_count(), right.node_count()),
                1,
            ),
        }
    }

    /// The depth of the tree: none for a primitive.
    pub fn depth(&self) -> (d: usize)
        ensures
            d == clipped(self@.height()),
        decreases self,
    {
        match self {
            CsgNode::Primitive { .. } => 0,
            CsgNode::Union { left, right } => {
                let l = left.depth();
                let r = right.depth();
                add_clipped(if l >= r { l } else { r }, 1)
            },
            CsgNode::Subtract { target, tool } => {
                let l = target.depth();
                let r = tool.depth();
                add_clipped(if l >= r { l } else { r }, 1)
            },
            CsgNode::Intersect { left, right } => {
                let l = left.depth();
                let r = right.depth();
                add_clipped(if l >= r { l } else { r }, 1)
            },
        }
    }

    /// The ids of the primitives, from left to right.
    pub fn collect_primitive_ids(&self) -> (ids: Vec<String>)
        ensures
            crate::text::texts_of(ids@) == self@.primitive_ids(),
    {
        let mut ids: Vec<String> = Vec::new();
        self.collect_primitive_ids_recursive(&mut ids);
        assert(crate::text::texts_of(ids@) =~= self@.primitive_ids());
        ids
    }

    fn collect_primitive_ids_recursive(&self, ids: &mut Vec<String>)
        ensures
            crate::text::texts_of(final(ids)@) == crate::text::texts_of(old(ids)@)
                + self@.primitive_ids(),
        decreases self,
    {
        let ghost before = crate::text::texts_of(ids@);
        match self {
            CsgNode::Primitive { id, .. } => {
                ids.push(id.clone());
                assert(crate::text::texts_of(ids@) =~= before + self@.primitive_ids());
            },
            CsgNode::Union { left, right } => {
                left.collect_primitive_ids_recursive(ids);
                right.collect_primitive_ids_recursive(ids);
                assert(crate::text::texts_of(ids@) =~= before + self@.primitive_ids());
            },
            CsgNode::Subtract { target, tool } => {
                target.collect_primitive_ids_recursive(ids);
                tool.collect_primitive_ids_recursive(ids);
                assert(crate::text::texts_of(ids@) =~= before + self@.primitive_ids());
            },
            CsgNode::Intersect { left, right } => {
                left.collect_primitive_ids_recursive(ids);
                right.collect_primitive_ids_recursive(ids);
                assert(crate::text::texts_of(ids@) =~= before + self@.primitive_ids());
            },
        }
    }

    /// The primitive nodes, from left to right.
    pub fn collect_primitives(&self) -> (found: Vec<&CsgNode>)
        ensures
            node_trees(found@) == self@.primitives(),
            forall|i: int| 0 <= i < found@.len() ==> (#[trigger] found@[i])@ is Primitive,
    {
        let mut found: Vec<&CsgNode> = Vec::new();
        self.collect_primitives_recursive(&mut found);
        assert(node_trees(found@) =~= self@.primitives());
        found
    }

    fn collect_primitives_recursive<'a>(&'a self, found: &mut Vec<&'a CsgNode>)
        requires
            forall|i: int| 0 <= i < old(found)@.len() ==> (#[trigger] old(found)@[i])@ is Primitive,
        ensures
            node_trees(final(found)@) == node_trees(old(found)@) + self@.primitives(),
            forall|i: int| 0 <= i < final(found)@.len() ==> (#[trigger] final(found)@[i])@ is Primitive,
        decreases self,
    {
        let ghost before = node_trees(found@);
        match self {
            CsgNode::Primitive { .. } => {
                found.push(self);
                assert(node_trees(found@) =~= before + self@.primitives());
            },
            CsgNode::Union { left, right } => {
                left.collect_primitives_recursive(found);
                right.collect_primitives_recursive(found);
                assert(node_trees(found@) =~= before + self@.primitives());
            },
            CsgNode::Subtract { target, tool } => {
                target.collect_primitives_recursive(found);
                tool.collect_primitives_recursive(found);
                assert(node_trees(found@) =~= before + self@.primitives());
            },
            CsgNode::Intersect { left, right } => {
                left.collect_primitives_recursive(found);
                right.collect_primitives_recursive(found);
                assert(node_trees(found@) =~= before + self@.primitives());
            },
        }
    }

    /// The bounding box of the solid, where it is known without evaluating
    /// the tree. It never is.
    pub fn bounding_box(&self) -> (r: Option<BoundingBox>)
        ensures
            r is None,
    {
        None
    }

    /// The tree with what is redundant taken out. Nothing is recognised as
    /// redundant: the tree comes back as it is.
    pub fn optimize(&self) -> (r: CsgNode)
        ensures
            r@ == self@,
    {
        self.clone()
    }

    /// Checks the tree before it is evaluated: no primitive id may occur
    /// twice, and every primitive must have the parameters its kind needs.
    pub fn validate(&self) -> (r: KernelResult<()>)
        ensures
            self@.fault() is None ==> self@.primitive_ids().no_duplicates() && self@.missing()
                is None,
            match r {
                Ok(()) => self@.fault() is None,
                Err(e) => self@.fault() matches Some(fault) && e.reports(fault),
            },
    {
        proof {
            if repeat_from(self@.primitive_ids(), 0) is None {
                lemma_no_repeat(self@.primitive_ids(), 0);
            }
        }
        self.check_circular_references()?;
        self.validate_primitives()
    }

    fn check_circular_references(&self) -> (r: KernelResult<()>)
        ensures
            match r {
                Ok(()) => repeat_from(self@.primitive_ids(), 0) is None,
                Err(e) => repeat_from(self@.primitive_ids(), 0) matches Some(j) && e.is_plain(
                    ErrorCode::CircularReference,
                    "Circular reference detected involving: "@ + self@.primitive_ids()[j],
                ),
            },
    {
        let ids = self.collect_primitive_ids();
        let ghost texts = crate::text::texts_of(ids@);
        let n = ids.len();
        let mut j: usize = 0;
        while j < n
            invariant
                n == ids@.len(),
                texts == crate::text::texts_of(ids@),
                texts == self@.primitive_ids(),
                j <= n,
                repeat_from(texts, 0) == repeat_from(texts, j as int),
            decreases n - j,
        {
            let mut i: usize = 0;
            while i < j
                invariant
                    n == ids@.len(),
                    texts == crate::text::texts_of(ids@),
                    texts == self@.primitive_ids(),
                    j < n,
                    i <= j,
                    repeat_from(texts, 0) == repeat_from(texts, j as int),
                    forall|a: int| 0 <= a < i ==> texts[a] != texts[j as int],
                decreases j - i,
            {
                if str_eq(ids[i].as_str(), ids[j].as_str()) {
                    assert(texts.take(j as int)[i as int] == texts[j as int]);
                    assert(texts.take(j as int).contains(texts[j as int]));
                    assert(repeat_from(texts, j as int) == Some(j as int));
                    return Err(KernelError::circular_reference(ids[j].as_str()));
                }
                i += 1;
            }
            proof {
                assert forall|a: int| 0 <= a < texts.take(j as int).len() implies texts.take(
                    j as int,
                )[a] != texts[j as int] by {
                    assert(texts[a] != texts[j as int]);
                }
            }
            j += 1;
        }
        Ok(())
    }

    fn validate_primitives(&self) -> (r: KernelResult<()>)
        ensures
            match r {
                Ok(()) => self@.missing() is None,
                Err(e) => self@.missing() matches Some(name) && e.is_plain(
                    ErrorCode::MissingParameter,
                    "Missing required parameter: "@ + name,
                ),
            },
        decreases self,
    {
        match self {
            CsgNode::Primitive { type_, params, .. } => validate_primitive_params(*type_, params),
            CsgNode::Union { left, right } => {
                left.validate_primitives()?;
                right.validate_primitives()
            },
            CsgNode::Subtract { target, tool } => {
                target.validate_primitives()?;
                tool.validate_primitives()
            },
            CsgNode::Intersect { left, right } => {
                left.validate_primitives()?;
                right.validate_primitives()
            },
        }
    }
}

/// A primitive node.
pub fn primitive_node(
    id: String,
    type_: PrimitiveType,
    params: StringMap<Scalar>,
    transform: Option<Transform>,
) -> (node: CsgNode)
    ensures
        node@ == (CsgTree::Primitive { id: id@, type_, params: params@, transform }),
{
    CsgNode::Primitive { id, type_, params, transform }
}

/// The union of two trees.
pub fn union_node(left: CsgNode, right: CsgNode) -> (node: CsgNode)
    ensures
        node@ == (CsgTree::Union { left: Box::new(left@), right: Box::new(right@) }),
{
    CsgNode::Union { left: Box::new(left), right: Box::new(right) }
}

/// The target without the tool.
pub fn subtract_node(target: CsgNode, tool: CsgNode) -> (node: CsgNode)
    ensures
        node@ == (CsgTree::Subtract { target: Box::new(target@), tool: Box::new(tool@) }),
{
    CsgNode::Subtract { target: Box::new(target), tool: Box::new(tool) }
}

/// What two trees share.
pub fn intersect_node(left: CsgNode, right: CsgNode) -> (node: CsgNode)
    ensures
        node@ == (CsgTree::Intersect { left: Box::new(left@), right: Box::new(right@) }),
{
    CsgNode::Intersect { left: Box::new(left), right: Box::new(right) }
}

} // verus!
