//! Names and adjacency of the boundary representation: which vertices an
//! edge joins, which edges bound a face.

use vstd::prelude::*;
use vstd::string::*;

pub mod collections;
pub mod complex;
pub mod counting;
pub mod edge;
pub mod face;
pub mod shell;
pub mod solid;

pub use crate::topology::complex::{create_box_topology, TopologicalComplex};
pub use crate::topology::edge::{Edge, EdgeConstraint, EdgeCurve, Vertex};
pub use crate::topology::face::{Face, FaceConstraint, FaceSurface};
pub use crate::topology::shell::{Shell, ShellConstraint};
pub use crate::topology::solid::{
    AssemblyConstraint, AssemblyInfo, AssemblyInterface, InterfaceLocation, MaterialSpec, Solid,
    SolidConstraint,
};

use crate::errors::{join3, KernelResult};
use crate::text::{decimal, decimal_text, str_eq};

verus! {

/// Id of a topological entity: the kind of entity, an underscore, and its
/// number.
#[derive(Debug, PartialEq, Eq, Hash)]
pub struct TopologyId(String);

impl View for TopologyId {
    type V = Seq<char>;

    closed spec fn view(&self) -> Seq<char> {
        self.0@
    }
}

impl Clone for TopologyId {
    fn clone(&self) -> (r: Self)
        ensures
            r == *self,
    {
        TopologyId(self.0.clone())
    }
}

impl TopologyId {
    pub fn new(entity_type: &str, index: usize) -> (id: Self)
        ensures
            id@ == entity_type@ + "_"@ + decimal(index as nat),
    {
        let number = decimal_text(index);
        TopologyId(join3(entity_type, "_", number.as_str()))
    }

    pub fn from_string(id: String) -> (r: Self)
        ensures
            r@ == id@,
    {
        TopologyId(id)
    }

    pub fn as_str(&self) -> (s: &str)
        ensures
            s@ == self@,
    {
        self.0.as_str()
    }
}

/// Id of an edge.
#[derive(Debug, PartialEq, Eq, Hash)]
pub struct EdgeId(String);

impl View for EdgeId {
    type V = Seq<char>;

    closed spec fn view(&self) -> Seq<char> {
        self.0@
    }
}

impl Clone for EdgeId {
    fn clone(&self) -> (r: Self)
        ensures
            r == *self,
    {
        EdgeId(self.0.clone())
    }
}

impl EdgeId {
    pub fn new(id: String) -> (r: Self)
        ensures
            r@ == id@,
    {
        EdgeId(id)
    }

    pub fn as_str(&self) -> (s: &str)
        ensures
            s@ == self@,
    {
        self.0.as_str()
    }
}

/// Id of a half-edge.
#[derive(Debug, PartialEq, Eq, Hash)]
pub struct HalfEdgeId(String);

impl View for HalfEdgeId {
    type V = Seq<char>;

    closed spec fn view(&self) -> Seq<char> {
        self.0@
    }
}

impl Clone for HalfEdgeId {
    fn clone(&self) -> (r: Self)
        ensures
            r == *self,
    {
        HalfEdgeId(self.0.clone())
    }
}

impl HalfEdgeId {
    pub fn new(id: String) -> (r: Self)
        ensures
            r@ == id@,
    {
        HalfEdgeId(id)
    }

    pub fn as_str(&self) -> (s: &str)
        ensures
            s@ == self@,
    {
        self.0.as_str()
    }
}

/// Id of a face.
#[derive(Debug, PartialEq, Eq, Hash)]
pub struct FaceId(String);

impl View for FaceId {
    type V = Seq<char>;

    closed spec fn view(&self) -> Seq<char> {
        self.0@
    }
}

impl Clone for FaceId {
    fn clone(&self) -> (r: Self)
        ensures
            r == *self,
    {
        FaceId(self.0.clone())
    }
}

impl FaceId {
    pub fn new(id: String) -> (r: Self)
        ensures
            r@ == id@,
    {
        FaceId(id)
    }

    pub fn as_str(&self) -> (s: &str)
        ensures
            s@ == self@,
    {
        self.0.as_str()
    }
}

/// Id of a shell.
#[derive(Debug, PartialEq, Eq, Hash)]
pub struct ShellId(String);

impl View for ShellId {
    type V = Seq<char>;

    closed spec fn view(&self) -> Seq<char> {
        self.0@
    }
}

impl Clone for ShellId {
    fn clone(&self) -> (r: Self)
        ensures
            r == *self,
    {
        ShellId(self.0.clone())
    }
}

impl ShellId {
    pub fn new(id: String) -> (r: Self)
        ensures
            r@ == id@,
    {
        ShellId(id)
    }

    pub fn as_str(&self) -> (s: &str)
        ensures
            s@ == self@,
    {
        self.0.as_str()
    }
}

/// Id of a solid.
#[derive(Debug, PartialEq, Eq, Hash)]
pub struct SolidId(String);

impl View for SolidId {
    type V = Seq<char>;

    closed spec fn view(&self) -> Seq<char> {
        self.0@
    }
}

impl Clone for SolidId {
    fn clone(&self) -> (r: Self)
        ensures
            r == *self,
    {
        SolidId(self.0.clone())
    }
}

impl SolidId {
    pub fn new(id: String) -> (r: Self)
        ensures
            r@ == id@,
    {
        SolidId(id)
    }

    pub fn as_str(&self) -> (s: &str)
        ensures
            s@ == self@,
    {
        self.0.as_str()
    }
}

/// One side of an edge: the edge as one face walks along it.
#[derive(Debug, Clone)]
pub struct HalfEdge {
    pub edge_id: EdgeId,
    pub next: Option<HalfEdgeId>,
    pub prev: Option<HalfEdgeId>,
    pub twin: Option<HalfEdgeId>,
    pub face: Option<FaceId>,
    pub vertex: TopologyId,
    /// Whether the half-edge runs as its edge does.
    pub forward: bool,
}

impl HalfEdge {
    /// A half-edge that is not yet linked to others or to a face.
    pub fn new(edge_id: EdgeId, vertex: TopologyId, forward: bool) -> (h: Self)
        ensures
            h.edge_id == edge_id,
            h.vertex == vertex,
            h.forward == forward,
            h.next is None,
            h.prev is None,
            h.twin is None,
            h.face is None,
    {
        HalfEdge { edge_id, next: None, prev: None, twin: None, face: None, vertex, forward }
    }
}

#[derive(Debug, Clone, Copy, PartialEq, Eq, Hash, Structural)]
pub enum EdgeType {
    Linear,
    Circular,
    Spline,
    Sharp,
}

#[derive(Debug, Clone, Copy, PartialEq, Eq, Structural)]
pub enum EdgeConstraintType {
    MinRadius,
    MaxLength,
    MinLength,
    SmoothTransition,
}

#[derive(Debug, Clone, Copy, PartialEq, Eq, Structural)]
pub enum FaceOrientation {
    Outward,
    Inward,
}

#[derive(Debug, Clone, Copy, PartialEq, Eq, Hash, Structural)]
pub enum FaceType {
    Planar,
    Cylindrical,
    Spherical,
    Parametric,
    Freeform,
}

#[derive(Debug, Clone, Copy, PartialEq, Eq, Structural)]
pub enum FaceConstraintType {
    MinArea,
    SurfaceFinish,
    DraftAngle,
    ToolAccess,
}

#[derive(Debug, Clone, Copy, PartialEq, Eq, Structural)]
pub enum ShellType {
    Closed,
    Open,
    Wire,
}

#[derive(Debug, Clone, Copy, PartialEq, Eq, Structural)]
pub enum ShellConstraintType {
    MinWallThickness,
    MaxAspectRatio,
    ToolAccessibility,
}

#[derive(Debug, Clone, Copy, PartialEq, Eq, Structural)]
pub enum SolidType {
    Simple,
    Composite,
    Assembly,
    Sheet,
    Wire,
}

#[derive(Debug, Clone, Copy, PartialEq, Eq, Structural)]
pub enum InterfaceType {
    Bolted,
    Welded,
    PressFit,
    SlidingFit,
    Threaded,
    Adhesive,
}

#[derive(Debug, Clone, Copy, PartialEq, Eq, Structural)]
pub enum AssemblyConstraintType {
    Distance,
    Angle,
    Concentric,
    Parallel,
    Perpendicular,
}

#[derive(Debug, Clone, Copy, PartialEq, Eq, Structural)]
pub enum SolidConstraintType {
    MinVolume,
    MaxComplexity,
    MaterialCompatible,
}

/// That an edge ends at a vertex.
#[derive(Debug, Clone)]
pub struct EdgeVertex {
    pub edge: EdgeId,
    pub vertex: TopologyId,
}

/// That an edge bounds a face.
#[derive(Debug, Clone)]
pub struct FaceEdge {
    pub face: FaceId,
    pub edge: EdgeId,
}

/// The faces that list the edge, in the order in which they were first
/// related to an edge, each once.
pub open spec fn faces_listing(relations: Seq<FaceEdge>, edge: Seq<char>) -> Seq<Seq<char>>
    decreases relations.len(),
{
    if relations.len() == 0 {
        Seq::empty()
    } else {
        let rest = faces_listing(relations.drop_last(), edge);
        let last = relations.last();
        if last.edge@ == edge && !rest.contains(last.face@) {
            rest.push(last.face@)
        } else {
            rest
        }
    }
}

/// The vertices related to the edge, in the order in which they were
/// related to it.
pub open spec fn vertices_listed(relations: Seq<EdgeVertex>, edge: Seq<char>) -> Seq<Seq<char>>
    decreases relations.len(),
{
    if relations.len() == 0 {
        Seq::empty()
    } else {
        let rest = vertices_listed(relations.drop_last(), edge);
        if relations.last().edge@ == edge {
            rest.push(relations.last().vertex@)
        } else {
            rest
        }
    }
}

/// The ids behind a sequence of references to face ids.
pub open spec fn face_texts(faces: Seq<&FaceId>) -> Seq<Seq<char>> {
    Seq::new(faces.len(), |i: int| faces[i]@)
}

/// The ids behind a sequence of references to topology ids.
pub open spec fn vertex_texts(vertices: Seq<&TopologyId>) -> Seq<Seq<char>> {
    Seq::new(vertices.len(), |i: int| vertices[i]@)
}

/// Which entity is next to which.
#[derive(Debug, Clone)]
pub struct AdjacencyGraph {
    edge_vertices: Vec<EdgeVertex>,
    face_edges: Vec<FaceEdge>,
}

impl AdjacencyGraph {
    /// The relations between edges and vertices, in the order in which
    /// they were added.
    pub closed spec fn edge_vertex_relations(&self) -> Seq<EdgeVertex> {
        self.edge_vertices@
    }

    /// The relations between faces and edges, in the order in which they
    /// were added.
    pub closed spec fn face_edge_relations(&self) -> Seq<FaceEdge> {
        self.face_edges@
    }

    pub fn new() -> (g: Self)
        ensures
            g.edge_vertex_relations().len() == 0,
            g.face_edge_relations().len() == 0,
    {
        AdjacencyGraph { edge_vertices: Vec::new(), face_edges: Vec::new() }
    }

    /// Records that the edge ends at the vertex.
    pub fn add_edge_vertex_relation(&mut self, edge_id: EdgeId, vertex_id: TopologyId) -> (r:
        KernelResult<()>)
        ensures
            r is Ok,
            final(self).face_edge_relations() == old(self).face_edge_relations(),
            final(self).edge_vertex_relations() == old(self).edge_vertex_relations().push(
                EdgeVertex { edge: edge_id, vertex: vertex_id },
            ),
    {
        self.edge_vertices.push(EdgeVertex { edge: edge_id, vertex: vertex_id });
        Ok(())
    }

    /// Records that the edge bounds the face.
    pub fn add_face_edge_relation(&mut self, face_id: FaceId, edge_id: EdgeId) -> (r: KernelResult<
        (),
    >)
        ensures
            r is Ok,
            final(self).edge_vertex_relations() == old(self).edge_vertex_relations(),
            final(self).face_edge_relations() == old(self).face_edge_relations().push(
                FaceEdge { face: face_id, edge: edge_id },
            ),
    {
        self.face_edges.push(FaceEdge { face: face_id, edge: edge_id });
        Ok(())
    }

    /// The faces that the edge bounds.
    pub fn get_faces_for_edge(&self, edge_id: &EdgeId) -> (faces: Vec<&FaceId>)
        ensures
            face_texts(faces@) == faces_listing(self.face_edge_relations(), edge_id@),
    {
        let mut faces: Vec<&FaceId> = Vec::new();
        let n = self.face_edges.len();
        let mut i: usize = 0;
        let ghost all = self.face_edges@;
        assert(all.take(0) =~= Seq::<FaceEdge>::empty());
        assert(face_texts(faces@) =~= Seq::<Seq<char>>::empty());
        while i < n
            invariant
                n == self.face_edges@.len(),
                all == self.face_edges@,
                i <= n,
                face_texts(faces@) == faces_listing(all.take(i as int), edge_id@),
            decreases n - i,
        {
            proof {
                assert(all.take(i + 1).drop_last() == all.take(i as int));
                assert(all.take(i + 1).last() == all[i as int]);
            }
            let relation = &self.face_edges[i];
            if str_eq(relation.edge.as_str(), edge_id.as_str()) {
                let m = faces.len();
                let mut known = false;
                let mut j: usize = 0;
                while j < m
                    invariant
                        m == faces@.len(),
                        j <= m,
                        known <==> exists|a: int|
                            0 <= a < j && face_texts(faces@)[a] == relation.face@,
                    decreases m - j,
                {
                    if str_eq(faces[j].as_str(), relation.face.as_str()) {
                        assert(face_texts(faces@)[j as int] == relation.face@);
                        known = true;
                    }
                    j += 1;
                }
                if !known {
                    let ghost before = face_texts(faces@);
                    faces.push(&relation.face);
                    assert(face_texts(faces@) =~= before.push(relation.face@));
                }
            }
            i += 1;
        }
        assert(all.take(n as int) == all);
        faces
    }

    /// The vertices at which the edge ends.
    pub fn get_vertices_for_edge(&self, edge_id: &EdgeId) -> (vertices: Vec<&TopologyId>)
        ensures
            vertex_texts(vertices@) == vertices_listed(self.edge_vertex_relations(), edge_id@),
    {
        let mut vertices: Vec<&TopologyId> = Vec::new();
        let n = self.edge_vertices.len();
        let mut i: usize = 0;
        let ghost all = self.edge_vertices@;
        assert(all.take(0) =~= Seq::<EdgeVertex>::empty());
        assert(vertex_texts(vertices@) =~= Seq::<Seq<char>>::empty());
        while i < n
            invariant
                n == self.edge_vertices@.len(),
                all == self.edge_vertices@,
                i <= n,
                vertex_texts(vertices@) == vertices_listed(all.take(i as int), edge_id@),
            decreases n - i,
        {
            proof {
                assert(all.take(i + 1).drop_last() == all.take(i as int));
                assert(all.take(i + 1).last() == all[i as int]);
            }
            let relation = &self.edge_vertices[i];
            if str_eq(relation.edge.as_str(), edge_id.as_str()) {
                let ghost before = vertex_texts(vertices@);
                vertices.push(&relation.vertex);
                assert(vertex_texts(vertices@) =~= before.push(relation.vertex@));
            }
            i += 1;
        }
        assert(all.take(n as int) == all);
        vertices
    }

    /// Checks the relations. There is nothing they could fail.
    pub fn validate(&self) -> (r: KernelResult<()>)
        ensures
            r is Ok,
    {
        Ok(())
    }
}

} // verus!
