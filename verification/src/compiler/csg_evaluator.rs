//! From a CSG tree to a mesh, from the leaves up.
//!
//! The mesh of a primitive is tessellated outside the kernel and stored here
//! under the primitive's id; it stays until the cache is cleared or the
//! subdivision level changes. Evaluating a tree takes the stored mesh of
//! every primitive and combines the meshes as the operations say.

use vstd::prelude::*;
use vstd::string::*;
use crate::compiler::csg_tree::{CsgNode, CsgTree};
use crate::errors::{join2, ErrorCode, Fault, KernelError, KernelResult};
use crate::geometry::operations::{boolean_operation, combine_fault, combined, BooleanOperation};
use crate::scalar::Scalar;
use crate::string_map::StringMap;
use crate::text::str_eq;
use crate::types::{MeshData, PreviewMesh, PrimitiveType, Transform};

verus! {

/// The least and the greatest subdivision level.
pub const MIN_SUBDIVISIONS: u32 = 4;

pub const MAX_SUBDIVISIONS: u32 = 64;

pub const DEFAULT_SUBDIVISIONS: u32 = 16;

/// A subdivision level brought into the range that is accepted.
pub open spec fn clamped_level(subdivisions: u32) -> u32 {
    if subdivisions < MIN_SUBDIVISIONS {
        MIN_SUBDIVISIONS
    } else if subdivisions > MAX_SUBDIVISIONS {
        MAX_SUBDIVISIONS
    } else {
        subdivisions
    }
}

fn clamp_level(subdivisions: u32) -> (level: u32)
    ensures
        level == clamped_level(subdivisions),
{
    if subdivisions < MIN_SUBDIVISIONS {
        MIN_SUBDIVISIONS
    } else if subdivisions > MAX_SUBDIVISIONS {
        MAX_SUBDIVISIONS
    } else {
        subdivisions
    }
}

/// The fault of a primitive that has no mesh stored.
pub open spec fn no_mesh(id: Seq<char>) -> Fault {
    Fault { code: ErrorCode::MeshGenerationError, message: "No mesh for primitive "@ + id }
}

/// What an operation makes of the meshes of its two sides: the fault of
/// the first side, else that of the second, else the fault of combining
/// them, else the combined mesh.
pub open spec fn combine(
    first: Result<MeshData, Fault>,
    second: Result<MeshData, Fault>,
    operation: BooleanOperation,
) -> Result<MeshData, Fault> {
    match first {
        Err(fault) => Err(fault),
        Ok(a) => match second {
            Err(fault) => Err(fault),
            Ok(b) => match combine_fault(a, b, operation) {
                Some(fault) => Err(fault),
                None => Ok(combined(a, b, operation)),
            },
        },
    }
}

/// The mesh of a tree, given the meshes of its primitives, or the first
/// fault met on the way from left to right.
pub open spec fn evaluated(tree: CsgTree, meshes: Map<Seq<char>, PreviewMesh>) -> Result<
    MeshData,
    Fault,
>
    decreases tree,
{
    match tree {
        CsgTree::Primitive { id, .. } => if meshes.contains_key(id) {
            Ok(meshes[id]@)
        } else {
            Err(no_mesh(id))
        },
        CsgTree::Union { left, right } => combine(
            evaluated(*left, meshes),
            evaluated(*right, meshes),
            BooleanOperation::Union,
        ),
        CsgTree::Subtract { target, tool } => combine(
            evaluated(*target, meshes),
            evaluated(*tool, meshes),
            BooleanOperation::Subtract,
        ),
        CsgTree::Intersect { left, right } => combine(
            evaluated(*left, meshes),
            evaluated(*right, meshes),
            BooleanOperation::Intersect,
        ),
    }
}

/// The ids of a sequence of primitives.
pub open spec fn ids_of(primitives: Seq<CsgTree>) -> Seq<Seq<char>> {
    Seq::new(primitives.len(), |i: int| primitives[i]->id)
}

/// The primitives that still need a mesh: those whose id has no mesh
/// stored, each id at its first occurrence.
pub open spec fn wanted(primitives: Seq<CsgTree>, stored: Set<Seq<char>>) -> Seq<CsgTree>
    decreases primitives.len(),
{
    if primitives.len() == 0 {
        Seq::empty()
    } else {
        let rest = wanted(primitives.drop_last(), stored);
        let last = primitives.last();
        if stored.contains(last->id) || ids_of(primitives.drop_last()).contains(last->id) {
            rest
        } else {
            rest.push(last)
        }
    }
}

/// What is needed to tessellate one primitive.
#[derive(Debug)]
pub struct PrimitiveRequest {
    pub id: String,
    pub type_: PrimitiveType,
    pub params: StringMap<Scalar>,
    pub transform: Option<Transform>,
    pub subdivisions: u32,
}

impl PrimitiveRequest {
    /// The primitive that the request is for.
    pub open spec fn primitive(self) -> CsgTree {
        CsgTree::Primitive {
            id: self.id@,
            type_: self.type_,
            params: self.params@,
            transform: self.transform,
        }
    }
}

/// The primitives that a sequence of requests is for.
pub open spec fn requested(requests: Seq<PrimitiveRequest>) -> Seq<CsgTree> {
    Seq::new(requests.len(), |i: int| requests[i].primitive())
}

/// How much the evaluator has stored.
#[derive(Debug, Clone, Copy, PartialEq, Eq)]
pub struct CacheStats {
    pub size: usize,
    pub hits: usize,
}

/// Evaluates CSG trees over the meshes stored for their primitives.
#[derive(Debug)]
pub struct CsgEvaluator {
    cache: StringMap<PreviewMesh>,
    subdivisions: u32,
}

impl CsgEvaluator {
    /// The meshes that are stored, by the id of their primitive.
    pub closed spec fn meshes(&self) -> Map<Seq<char>, PreviewMesh> {
        self.cache@
    }

    /// The subdivision level at which primitives are to be tessellated.
    pub closed spec fn level(&self) -> u32 {
        self.subdivisions
    }

    pub fn new() -> (evaluator: Self)
        ensures
            evaluator.level() == DEFAULT_SUBDIVISIONS,
            evaluator.meshes() == Map::<Seq<char>, PreviewMesh>::empty(),
    {
        CsgEvaluator { cache: StringMap::new(), subdivisions: DEFAULT_SUBDIVISIONS }
    }

    pub fn with_subdivisions(subdivisions: u32) -> (evaluator: Self)
        ensures
            evaluator.level() == clamped_level(subdivisions),
            evaluator.meshes() == Map::<Seq<char>, PreviewMesh>::empty(),
    {
        CsgEvaluator { cache: StringMap::new(), subdivisions: clamp_level(subdivisions) }
    }

    pub fn subdivisions(&self) -> (level: u32)
        ensures
            level == self.level(),
    {
        self.subdivisions
    }

    /// Sets the subdivision level. The stored meshes were made at the old
    /// level, so they are dropped.
    pub fn set_subdivisions(&mut self, subdivisions: u32)
        ensures
            final(self).level() == clamped_level(subdivisions),
            final(self).meshes() == Map::<Seq<char>, PreviewMesh>::empty(),
    {
        self.subdivisions = clamp_level(subdivisions);
        self.cache.clear();
    }

    pub fn clear_cache(&mut self)
        ensures
            final(self).level() == old(self).level(),
            final(self).meshes() == Map::<Seq<char>, PreviewMesh>::empty(),
    {
        self.cache.clear();
    }

    pub fn cache_stats(&self) -> (stats: CacheStats)
        ensures
            stats.size == self.meshes().dom().len(),
            stats.hits == 0,
    {
        let size = self.cache.len();
        proof {
            let keys = self.cache.key_order();
            assert(self.cache@.dom() =~= keys.to_set());
            keys.unique_seq_to_set();
        }
        CacheStats { size, hits: 0 }
    }

    /// Whether a mesh is stored for the primitive of the given id.
    pub fn has_mesh(&self, id: &str) -> (b: bool)
        ensures
            b == self.meshes().contains_key(id@),
    {
        self.cache.contains_key(id)
    }

    /// Stores the mesh of a primitive, unless one is stored already: the
    /// mesh that came first stays.
    pub fn store_mesh(&mut self, id: &str, mesh: PreviewMesh)
        ensures
            final(self).level() == old(self).level(),
            final(self).meshes() == if old(self).meshes().contains_key(id@) {
                old(self).meshes()
            } else {
                old(self).meshes().insert(id@, mesh)
            },
    {
        if !self.cache.contains_key(id) {
            self.cache.insert(String::from_str(id), mesh);
        }
    }

    /// The primitives of a tree that still need a mesh, from left to
    /// right, each with the level at which to tessellate it.
    pub fn missing_primitives(&self, node: &CsgNode) -> (requests: Vec<PrimitiveRequest>)
        ensures
            requested(requests@) == wanted(node@.primitives(), self.meshes().dom()),
            forall|i: int|
                0 <= i < requests@.len() ==> (#[trigger] requests@[i]).subdivisions == self.level(),
    {
        let found = node.collect_primitives();
        let ghost primitives = node@.primitives();
        let mut requests: Vec<PrimitiveRequest> = Vec::new();
        let n = found.len();
        let mut i: usize = 0;
        assert(primitives.take(0) =~= Seq::<CsgTree>::empty());
        while i < n
            invariant
                n == found@.len(),
                primitives == crate::compiler::csg_tree::node_trees(found@),
                forall|j: int| 0 <= j < found@.len() ==> (#[trigger] found@[j])@ is Primitive,
                i <= n,
                requested(requests@) == wanted(primitives.take(i as int), self.meshes().dom()),
                forall|j: int|
                    0 <= j < requests@.len() ==> (#[trigger] requests@[j]).subdivisions
                        == self.level(),
            decreases n - i,
        {
            proof {
                assert(primitives.take(i + 1).drop_last() == primitives.take(i as int));
                assert(primitives.take(i + 1).last() == primitives[i as int]);
                assert(found@[i as int]@ is Primitive);
            }
            match found[i] {
                CsgNode::Primitive { id, type_, params, transform } => {
                    let mut seen = self.cache.contains_key(id.as_str());
                    let mut j: usize = 0;
                    while j < i && !seen
                        invariant
                            n == found@.len(),
                            i < n,
                            j <= i,
                            primitives == crate::compiler::csg_tree::node_trees(found@),
                            forall|a: int|
                                0 <= a < found@.len() ==> (#[trigger] found@[a])@ is Primitive,
                            !seen ==> !self.meshes().contains_key(id@),
                            !seen ==> forall|a: int|
                                0 <= a < j ==> (#[trigger] primitives[a])->id != id@,
                            seen ==> self.meshes().contains_key(id@) || exists|a: int|
                                0 <= a < i && (#[trigger] primitives[a])->id == id@,
                        decreases i - j,
                    {
                        proof {
                            assert(found@[j as int]@ is Primitive);
                            assert(primitives[j as int] == found@[j as int]@);
                        }
                        match found[j].get_id() {
                            Some(other) => {
                                if str_eq(other, id.as_str()) {
                                    seen = true;
                                }
                            },
                            None => {},
                        }
                        j += 1;
                    }
                    proof {
                        let earlier = ids_of(primitives.take(i as int));
                        if seen && !self.meshes().contains_key(id@) {
                            let a = choose|a: int|
                                0 <= a < i && (#[trigger] primitives[a])->id == id@;
                            assert(earlier[a] == id@);
                        }
                        if !seen {
                            assert forall|a: int| 0 <= a < earlier.len() implies earlier[a]
                                != id@ by {
                                assert(primitives[a]->id != id@);
                            }
                        }
                        assert(primitives[i as int]->id == id@);
                        let stored = self.meshes().dom();
                        if seen {
                            assert(stored.contains(id@) || earlier.contains(id@));
                        } else {
                            assert(!earlier.contains(id@));
                            assert(!stored.contains(id@));
                        }
                        assert(wanted(primitives.take(i + 1), stored) == if seen {
                            wanted(primitives.take(i as int), stored)
                        } else {
                            wanted(primitives.take(i as int), stored).push(primitives[i as int])
                        });
                    }
                    if !seen {
                        let copy = params.clone();
                        assert(copy@ =~= params@);
                        let ghost before = requested(requests@);
                        requests.push(
                            PrimitiveRequest {
                                id: id.clone(),
                                type_: *type_,
                                params: copy,
                                transform: *transform,
                                subdivisions: self.subdivisions,
                            },
                        );
                        assert(requested(requests@) =~= before.push(primitives[i as int]));
                    }
                },
                _ => {},
            }
            i += 1;
        }
        assert(primitives.take(n as int) == primitives);
        requests
    }

    /// The mesh of a tree. The mesh of every primitive must have been
    /// stored; a primitive without one is a mesh generation error.
    pub fn evaluate(&self, node: &CsgNode) -> (r: KernelResult<PreviewMesh>)
        ensures
            match r {
                Ok(mesh) => evaluated(node@, self.meshes()) == Ok::<MeshData, Fault>(mesh@),
                Err(e) => evaluated(node@, self.meshes()) matches Err(fault) && e.reports(fault),
            },
        decreases node,
    {
        match node {
            CsgNode::Primitive { id, .. } => match self.cache.get(id.as_str()) {
                Some(mesh) => Ok(mesh.clone()),
                None => {
                    let what = join2("No mesh for primitive ", id.as_str());
                    Err(KernelError::mesh_generation_error(what.as_str()))
                },
            },
            CsgNode::Union { left, right } => {
                let left_mesh = self.evaluate(left)?;
                let right_mesh = self.evaluate(right)?;
                boolean_operation(&left_mesh, &right_mesh, BooleanOperation::Union)
            },
            CsgNode::Subtract { target, tool } => {
                let target_mesh = self.evaluate(target)?;
                let tool_mesh = self.evaluate(tool)?;
                boolean_operation(&target_mesh, &tool_mesh, BooleanOperation::Subtract)
            },
            CsgNode::Intersect { left, right } => {
                let left_mesh = self.evaluate(left)?;
                let right_mesh = self.evaluate(right)?;
                boolean_operation(&left_mesh, &right_mesh, BooleanOperation::Intersect)
            },
        }
    }
}

} // verus!
