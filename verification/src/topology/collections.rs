//! Collections that give the entities of one kind their ids.

use vstd::prelude::*;
use vstd::string::*;
use crate::errors::{join3, ErrorCode, KernelError, KernelResult};
use crate::string_map::StringMap;
use crate::text::{decimal_text, str_eq};
use crate::topology::complex::{entity_id, lemma_entity_ids_differ};
use crate::topology::edge::Edge;
use crate::topology::face::{edge_texts, Face};
use crate::topology::shell::{face_ids, Shell};
use crate::topology::solid::Solid;
use crate::topology::{
    EdgeId, EdgeType, FaceId, FaceType, HalfEdge, HalfEdgeId, ShellId, ShellType, SolidId, SolidType,
    TopologyId,
};

verus! {

/// How many of the values under the keys hold.
pub open spec fn count_in<V>(
    order: Seq<Seq<char>>,
    values: Map<Seq<char>, V>,
    holds: spec_fn(V) -> bool,
) -> nat
    decreases order.len(),
{
    if order.len() == 0 {
        0
    } else if holds(values[order.last()]) {
        count_in(order.drop_last(), values, holds) + 1
    } else {
        count_in(order.drop_last(), values, holds)
    }
}

/// The keys under which the values hold, in the order of the keys.
pub open spec fn keys_where<V>(
    order: Seq<Seq<char>>,
    values: Map<Seq<char>, V>,
    holds: spec_fn(V) -> bool,
) -> Seq<Seq<char>>
    decreases order.len(),
{
    if order.len() == 0 {
        Seq::empty()
    } else if holds(values[order.last()]) {
        keys_where(order.drop_last(), values, holds).push(order.last())
    } else {
        keys_where(order.drop_last(), values, holds)
    }
}

/// The id in an optional half-edge id.
pub open spec fn twin_text(twin: Option<HalfEdgeId>) -> Option<Seq<char>> {
    match twin {
        Some(id) => Some(id@),
        None => None,
    }
}

/// What is wrong with a half-edge among the others: its twin is not there,
/// or the twin does not name the half-edge's edge as its own twin.
pub open spec fn half_edge_fault(h: HalfEdge, all: Map<Seq<char>, HalfEdge>) -> Option<Seq<char>> {
    match h.twin {
        Some(twin) => if !all.contains_key(twin@) {
            Some("Half-edge twin not found"@)
        } else if twin_text(all[twin@].twin) != Some(h.edge_id@) {
            Some("Half-edge twin relationship broken"@)
        } else {
            None
        },
        None => None,
    }
}

/// The fault of the first half-edge from `from` on that has one.
pub open spec fn first_half_edge_fault(
    order: Seq<Seq<char>>,
    all: Map<Seq<char>, HalfEdge>,
    from: int,
) -> Option<Seq<char>>
    decreases order.len() - from,
{
    if from < 0 || from >= order.len() {
        None
    } else if half_edge_fault(all[order[from]], all) is Some {
        half_edge_fault(all[order[from]], all)
    } else {
        first_half_edge_fault(order, all, from + 1)
    }
}

/// The fault of the first known shell from `from` on that has one.
pub open spec fn first_fault_among(
    order: Seq<Seq<char>>,
    shells: Map<Seq<char>, Shell>,
    faces: Map<Seq<char>, Face>,
    from: int,
) -> Option<Seq<char>>
    decreases order.len() - from,
{
    if from < 0 || from >= order.len() {
        None
    } else if shells[order[from]].fault(faces) is Some {
        shells[order[from]].fault(faces)
    } else {
        first_fault_among(order, shells, faces, from + 1)
    }
}

/// The fault of the first solid from `from` on that has one.
pub open spec fn first_solid_fault(
    order: Seq<Seq<char>>,
    solids: Map<Seq<char>, Solid>,
    shells: Map<Seq<char>, Shell>,
    faces: Map<Seq<char>, Face>,
    from: int,
) -> Option<Seq<char>>
    decreases order.len() - from,
{
    if from < 0 || from >= order.len() {
        None
    } else if solids[order[from]].fault(shells, faces) is Some {
        solids[order[from]].fault(shells, faces)
    } else {
        first_solid_fault(order, solids, shells, faces, from + 1)
    }
}

/// Counts of the edges in a collection.
#[derive(Debug, Clone, Copy, PartialEq, Eq)]
pub struct EdgeCollectionStats {
    pub total_edges: usize,
    pub total_half_edges: usize,
    pub linear: usize,
    pub circular: usize,
    pub spline: usize,
    pub sharp: usize,
}

/// Edges under their ids, each with its two half-edges.
#[derive(Debug, Clone)]
pub struct EdgeCollection {
    edges: StringMap<Edge>,
    half_edges: StringMap<HalfEdge>,
    next_edge_index: usize,
    next_half_edge_index: usize,
}

impl EdgeCollection {
    pub closed spec fn edges(&self) -> Map<Seq<char>, Edge> {
        self.edges@
    }

    pub closed spec fn half_edges(&self) -> Map<Seq<char>, HalfEdge> {
        self.half_edges@
    }

    /// The ids of the edges, in the order in which they were added.
    pub closed spec fn edge_order(&self) -> Seq<Seq<char>> {
        self.edges.key_order()
    }

    /// The ids of the half-edges, in the order in which they were added.
    pub closed spec fn half_edge_order(&self) -> Seq<Seq<char>> {
        self.half_edges.key_order()
    }

    /// How many edge ids were given out.
    pub closed spec fn issued_edges(&self) -> nat {
        self.next_edge_index as nat
    }

    /// How many half-edge ids were given out.
    pub closed spec fn issued_half_edges(&self) -> nat {
        self.next_half_edge_index as nat
    }

    /// How many edges are of the given type.
    pub open spec fn edges_of(&self, edge_type: EdgeType) -> nat {
        count_in(self.edge_order(), self.edges(), |e: Edge| e.edge_type == edge_type)
    }

    pub fn new() -> (c: Self)
        ensures
            c.edges() == Map::<Seq<char>, Edge>::empty(),
            c.half_edges() == Map::<Seq<char>, HalfEdge>::empty(),
            c.edge_order().len() == 0,
            c.half_edge_order().len() == 0,
            c.issued_edges() == 0,
            c.issued_half_edges() == 0,
    {
        EdgeCollection {
            edges: StringMap::new(),
            half_edges: StringMap::new(),
            next_edge_index: 0,
            next_half_edge_index: 0,
        }
    }

    /// Adds an edge under the next edge id, and its two half-edges, each
    /// the other's twin, under the next two half-edge ids: the first runs
    /// from the edge's start as the edge does, the second from its end
    /// against it.
    pub fn add_edge(&mut self, edge: Edge) -> (r: KernelResult<EdgeId>)
        requires
            old(self).issued_edges() < usize::MAX,
            old(self).issued_half_edges() + 2 <= usize::MAX,
        ensures
            r is Ok,
            r->Ok_0@ == entity_id("e"@, old(self).issued_edges()),
            final(self).issued_edges() == old(self).issued_edges() + 1,
            final(self).issued_half_edges() == old(self).issued_half_edges() + 2,
            final(self).edges() == old(self).edges().insert(r->Ok_0@, edge),
            ({
                let first = entity_id("he"@, old(self).issued_half_edges());
                let second = entity_id("he"@, old(self).issued_half_edges() + 1);
                let forth = final(self).half_edges()[first];
                let back = final(self).half_edges()[second];
                &&& final(self).half_edges().dom() == old(self).half_edges().dom().insert(
                    first,
                ).insert(second)
                &&& forall|k: Seq<char>|
                    k != first && k != second && old(self).half_edges().contains_key(k)
                        ==> final(self).half_edges()[k] == old(self).half_edges()[k]
                &&& first != second
                &&& forth.edge_id@ == r->Ok_0@ && forth.vertex == edge.start_vertex
                    && forth.forward && twin_text(forth.twin) == Some(second) && forth.next is None
                    && forth.prev is None && forth.face is None
                &&& back.edge_id@ == r->Ok_0@ && back.vertex == edge.end_vertex && !back.forward
                    && twin_text(back.twin) == Some(first) && back.next is None && back.prev is None
                    && back.face is None
            }),
    {
        proof {
            lemma_entity_ids_differ(
                "he"@,
                self.issued_half_edges(),
                self.issued_half_edges() + 1,
            );
        }
        let number = decimal_text(self.next_edge_index);
        let text = join3("e", "_", number.as_str());
        self.next_edge_index += 1;
        let first_number = decimal_text(self.next_half_edge_index);
        let first = join3("he", "_", first_number.as_str());
        self.next_half_edge_index += 1;
        let second_number = decimal_text(self.next_half_edge_index);
        let second = join3("he", "_", second_number.as_str());
        self.next_half_edge_index += 1;
        let mut forth = HalfEdge::new(EdgeId::new(text.clone()), edge.start_vertex.clone(), true);
        let mut back = HalfEdge::new(EdgeId::new(text.clone()), edge.end_vertex.clone(), false);
        forth.twin = Some(HalfEdgeId::new(second.clone()));
        back.twin = Some(HalfEdgeId::new(first.clone()));
        let ghost before = self.half_edges@;
        self.half_edges.insert(first, forth);
        self.half_edges.insert(second, back);
        assert(self.half_edges@.dom() =~= before.dom().insert(first@).insert(second@));
        self.edges.insert(text.clone(), edge);
        Ok(EdgeId::new(text))
    }

    pub fn get_edge(&self, edge_id: &EdgeId) -> (r: Option<&Edge>)
        ensures
            match r {
                Some(edge) => self.edges().contains_key(edge_id@) && *edge == self.edges()[edge_id@],
                None => !self.edges().contains_key(edge_id@),
            },
    {
        self.edges.get(edge_id.as_str())
    }

    pub fn get_half_edge(&self, he_id: &HalfEdgeId) -> (r: Option<&HalfEdge>)
        ensures
            match r {
                Some(h) => self.half_edges().contains_key(he_id@) && *h == self.half_edges()[he_id@],
                None => !self.half_edges().contains_key(he_id@),
            },
    {
        self.half_edges.get(he_id.as_str())
    }

    /// The edges that start or end at the vertex, in the order in which
    /// they were added.
    pub fn edges_at_vertex(&self, vertex_id: &TopologyId) -> (found: Vec<EdgeId>)
        ensures
            Seq::new(found@.len(), |i: int| found@[i]@) == keys_where(
                self.edge_order(),
                self.edges(),
                |e: Edge| e.start_vertex@ == vertex_id@ || e.end_vertex@ == vertex_id@,
            ),
    {
        let ghost order = self.edges.key_order();
        let ghost holds = |e: Edge| e.start_vertex@ == vertex_id@ || e.end_vertex@ == vertex_id@;
        let mut found: Vec<EdgeId> = Vec::new();
        let n = self.edges.len();
        let mut i: usize = 0;
        assert(order.take(0) =~= Seq::<Seq<char>>::empty());
        assert(Seq::new(found@.len(), |i: int| found@[i]@) =~= Seq::<Seq<char>>::empty());
        while i < n
            invariant
                n == order.len(),
                order == self.edges.key_order(),
                holds == (|e: Edge| e.start_vertex@ == vertex_id@ || e.end_vertex@ == vertex_id@),
                i <= n,
                Seq::new(found@.len(), |i: int| found@[i]@) == keys_where(
                    order.take(i as int),
                    self.edges@,
                    holds,
                ),
            decreases n - i,
        {
            proof {
                assert(order.take(i + 1).drop_last() == order.take(i as int));
                assert(order.take(i + 1).last() == order[i as int]);
            }
            let edge = self.edges.value_at(i);
            if str_eq(edge.start_vertex.as_str(), vertex_id.as_str()) || str_eq(
                edge.end_vertex.as_str(),
                vertex_id.as_str(),
            ) {
                let ghost so_far = Seq::new(found@.len(), |i: int| found@[i]@);
                found.push(EdgeId::new(self.edges.key_at(i).clone()));
                assert(Seq::new(found@.len(), |i: int| found@[i]@) =~= so_far.push(order[i as int]));
            }
            i += 1;
        }
        assert(order.take(n as int) == order);
        found
    }

    /// Checks that each half-edge's twin is there and names the
    /// half-edge's edge as its own twin. The half-edges that `add_edge`
    /// makes name each other, not their edge: a collection that holds one
    /// does not pass.
    pub fn validate(&self) -> (r: KernelResult<()>)
        ensures
            match first_half_edge_fault(self.half_edge_order(), self.half_edges(), 0) {
                Some(message) => r is Err && r->Err_0.is_plain(ErrorCode::InternalError, message),
                None => r is Ok,
            },
    {
        let ghost order = self.half_edges.key_order();
        let ghost all = self.half_edges@;
        let n = self.half_edges.len();
        let mut i: usize = 0;
        while i < n
            invariant
                n == order.len(),
                order == self.half_edges.key_order(),
                all == self.half_edges@,
                i <= n,
                first_half_edge_fault(order, all, 0) == first_half_edge_fault(order, all, i as int),
            decreases n - i,
        {
            let h = self.half_edges.value_at(i);
            match &h.twin {
                Some(twin_id) => match self.half_edges.get(twin_id.as_str()) {
                    Some(twin) => {
                        let agrees = match &twin.twin {
                            Some(back) => str_eq(back.as_str(), h.edge_id.as_str()),
                            None => false,
                        };
                        if !agrees {
                            return Err(KernelError::internal("Half-edge twin relationship broken"));
                        }
                    },
                    None => {
                        return Err(KernelError::internal("Half-edge twin not found"));
                    },
                },
                None => {},
            }
            i += 1;
        }
        Ok(())
    }

    /// Counts the edges, the half-edges, and the edges of each type.
    pub fn stats(&self) -> (s: EdgeCollectionStats)
        ensures
            s.total_edges == self.edge_order().len(),
            s.total_half_edges == self.half_edge_order().len(),
            s.linear == self.edges_of(EdgeType::Linear),
            s.circular == self.edges_of(EdgeType::Circular),
            s.spline == self.edges_of(EdgeType::Spline),
            s.sharp == self.edges_of(EdgeType::Sharp),
    {
        let ghost order = self.edges.key_order();
        let n = self.edges.len();
        let mut linear: usize = 0;
        let mut circular: usize = 0;
        let mut spline: usize = 0;
        let mut sharp: usize = 0;
        let mut i: usize = 0;
        assert(order.take(0) =~= Seq::<Seq<char>>::empty());
        while i < n
            invariant
                n == order.len(),
                order == self.edges.key_order(),
                i <= n,
                linear <= i,
                circular <= i,
                spline <= i,
                sharp <= i,
                linear == count_in(
                    order.take(i as int),
                    self.edges@,
                    |e: Edge| e.edge_type == EdgeType::Linear,
                ),
                circular == count_in(
                    order.take(i as int),
                    self.edges@,
                    |e: Edge| e.edge_type == EdgeType::Circular,
                ),
                spline == count_in(
                    order.take(i as int),
                    self.edges@,
                    |e: Edge| e.edge_type == EdgeType::Spline,
                ),
                sharp == count_in(
                    order.take(i as int),
                    self.edges@,
                    |e: Edge| e.edge_type == EdgeType::Sharp,
                ),
            decreases n - i,
        {
            proof {
                assert(order.take(i + 1).drop_last() == order.take(i as int));
                assert(order.take(i + 1).last() == order[i as int]);
            }
            match self.edges.value_at(i).edge_type {
                EdgeType::Linear => {
                    linear += 1;
                },
                EdgeType::Circular => {
                    circular += 1;
                },
                EdgeType::Spline => {
                    spline += 1;
                },
                EdgeType::Sharp => {
                    sharp += 1;
                },
            }
            i += 1;
        }
        assert(order.take(n as int) == order);
        EdgeCollectionStats {
            total_edges: n,
            total_half_edges: self.half_edges.len(),
            linear,
            circular,
            spline,
            sharp,
        }
    }
}

/// Counts of the faces in a collection.
#[derive(Debug, Clone, Copy, PartialEq, Eq)]
pub struct FaceCollectionStats {
    pub total_faces: usize,
    pub planar: usize,
    pub cylindrical: usize,
    pub spherical: usize,
    pub parametric: usize,
    pub freeform: usize,
    pub manufacturable: usize,
}

/// Faces under their ids.
#[derive(Debug, Clone)]
pub struct FaceCollection {
    faces: StringMap<Face>,
    next_face_index: usize,
}

impl FaceCollection {
    pub closed spec fn faces(&self) -> Map<Seq<char>, Face> {
        self.faces@
    }

    /// The ids of the faces, in the order in which they were added.
    pub closed spec fn face_order(&self) -> Seq<Seq<char>> {
        self.faces.key_order()
    }

    /// How many face ids were given out.
    pub closed spec fn issued(&self) -> nat {
        self.next_face_index as nat
    }

    /// How many faces are of the given type.
    pub open spec fn faces_of(&self, face_type: FaceType) -> nat {
        count_in(self.face_order(), self.faces(), |f: Face| f.face_type == face_type)
    }

    pub fn new() -> (c: Self)
        ensures
            c.faces() == Map::<Seq<char>, Face>::empty(),
            c.face_order().len() == 0,
            c.issued() == 0,
    {
        FaceCollection { faces: StringMap::new(), next_face_index: 0 }
    }

    /// The map that backs the collection.
    pub fn as_map(&self) -> (m: &StringMap<Face>)
        ensures
            m@ == self.faces(),
            m.key_order() == self.face_order(),
    {
        &self.faces
    }

    /// Adds a face under the next face id. A face with fewer than three
    /// edges is refused; its id is spent all the same.
    pub fn add_face(&mut self, face: Face) -> (r: KernelResult<FaceId>)
        requires
            old(self).issued() < usize::MAX,
        ensures
            final(self).issued() == old(self).issued() + 1,
            r is Ok <==> face.boundary_edges@.len() >= 3,
            match r {
                Ok(id) => id@ == entity_id("f"@, old(self).issued()) && final(self).faces()
                    == old(self).faces().insert(id@, face),
                Err(e) => e.is_plain(
                    ErrorCode::InternalError,
                    "Face must have at least 3 boundary edges"@,
                ) && final(self).faces() == old(self).faces() && final(self).face_order()
                    == old(self).face_order(),
            },
    {
        let number = decimal_text(self.next_face_index);
        let text = join3("f", "_", number.as_str());
        self.next_face_index += 1;
        if !face.is_valid_loop() {
            return Err(KernelError::internal("Face must have at least 3 boundary edges"));
        }
        self.faces.insert(text.clone(), face);
        Ok(FaceId::new(text))
    }

    pub fn get_face(&self, face_id: &FaceId) -> (r: Option<&Face>)
        ensures
            match r {
                Some(face) => self.faces().contains_key(face_id@) && *face == self.faces()[face_id@],
                None => !self.faces().contains_key(face_id@),
            },
    {
        self.faces.get(face_id.as_str())
    }

    /// The faces that list the edge, in the order in which they were
    /// added.
    pub fn faces_with_edge(&self, edge_id: &EdgeId) -> (found: Vec<FaceId>)
        ensures
            Seq::new(found@.len(), |i: int| found@[i]@) == keys_where(
                self.face_order(),
                self.faces(),
                |f: Face| edge_texts(f.boundary_edges@).contains(edge_id@),
            ),
    {
        let ghost order = self.faces.key_order();
        let ghost holds = |f: Face| edge_texts(f.boundary_edges@).contains(edge_id@);
        let mut found: Vec<FaceId> = Vec::new();
        let n = self.faces.len();
        let mut i: usize = 0;
        assert(order.take(0) =~= Seq::<Seq<char>>::empty());
        assert(Seq::new(found@.len(), |i: int| found@[i]@) =~= Seq::<Seq<char>>::empty());
        while i < n
            invariant
                n == order.len(),
                order == self.faces.key_order(),
                holds == (|f: Face| edge_texts(f.boundary_edges@).contains(edge_id@)),
                i <= n,
                Seq::new(found@.len(), |i: int| found@[i]@) == keys_where(
                    order.take(i as int),
                    self.faces@,
                    holds,
                ),
            decreases n - i,
        {
            proof {
                assert(order.take(i + 1).drop_last() == order.take(i as int));
                assert(order.take(i + 1).last() == order[i as int]);
            }
            let face = self.faces.value_at(i);
            let ghost round = edge_texts(face.boundary_edges@);
            let m = face.boundary_edges.len();
            let mut lists = false;
            let mut j: usize = 0;
            while j < m
                invariant
                    m == face.boundary_edges@.len(),
                    round == edge_texts(face.boundary_edges@),
                    j <= m,
                    lists <==> exists|a: int| 0 <= a < j && round[a] == edge_id@,
                decreases m - j,
            {
                if str_eq(face.boundary_edges[j].as_str(), edge_id.as_str()) {
                    assert(round[j as int] == edge_id@);
                    lists = true;
                }
                j += 1;
            }
            assert(lists == round.contains(edge_id@));
            if lists {
                let ghost so_far = Seq::new(found@.len(), |i: int| found@[i]@);
                found.push(FaceId::new(self.faces.key_at(i).clone()));
                assert(Seq::new(found@.len(), |i: int| found@[i]@) =~= so_far.push(order[i as int]));
            }
            i += 1;
        }
        assert(order.take(n as int) == order);
        found
    }

    /// Checks that each face has at least three edges.
    pub fn validate(&self) -> (r: KernelResult<()>)
        ensures
            r is Ok <==> forall|i: int|
                0 <= i < self.face_order().len() ==> self.faces()[#[trigger] self.face_order()[i]].boundary_edges@.len()
                    >= 3,
            r is Err ==> r->Err_0.is_plain(
                ErrorCode::InternalError,
                "Invalid face boundary loop detected"@,
            ),
    {
        let n = self.faces.len();
        let mut i: usize = 0;
        while i < n
            invariant
                n == self.faces.key_order().len(),
                i <= n,
                forall|j: int|
                    0 <= j < i ==> self.faces@[#[trigger] self.faces.key_order()[j]].boundary_edges@.len()
                        >= 3,
            decreases n - i,
        {
            if !self.faces.value_at(i).is_valid_loop() {
                return Err(KernelError::internal("Invalid face boundary loop detected"));
            }
            i += 1;
        }
        Ok(())
    }

    /// Counts the faces, the faces of each type, and those that can be
    /// made.
    pub fn stats(&self) -> (s: FaceCollectionStats)
        ensures
            s.total_faces == self.face_order().len(),
            s.planar == self.faces_of(FaceType::Planar),
            s.cylindrical == self.faces_of(FaceType::Cylindrical),
            s.spherical == self.faces_of(FaceType::Spherical),
            s.parametric == self.faces_of(FaceType::Parametric),
            s.freeform == self.faces_of(FaceType::Freeform),
            s.manufacturable == count_in(
                self.face_order(),
                self.faces(),
                |f: Face| f.can_be_made(),
            ),
    {
        let ghost order = self.faces.key_order();
        let n = self.faces.len();
        let mut planar: usize = 0;
        let mut cylindrical: usize = 0;
        let mut spherical: usize = 0;
        let mut parametric: usize = 0;
        let mut freeform: usize = 0;
        let mut manufacturable: usize = 0;
        let mut i: usize = 0;
        assert(order.take(0) =~= Seq::<Seq<char>>::empty());
        while i < n
            invariant
                n == order.len(),
                order == self.faces.key_order(),
                i <= n,
                planar <= i,
                cylindrical <= i,
                spherical <= i,
                parametric <= i,
                freeform <= i,
                manufacturable <= i,
                planar == count_in(
                    order.take(i as int),
                    self.faces@,
                    |f: Face| f.face_type == FaceType::Planar,
                ),
                cylindrical == count_in(
                    order.take(i as int),
                    self.faces@,
                    |f: Face| f.face_type == FaceType::Cylindrical,
                ),
                spherical == count_in(
                    order.take(i as int),
                    self.faces@,
                    |f: Face| f.face_type == FaceType::Spherical,
                ),
                parametric == count_in(
                    order.take(i as int),
                    self.faces@,
                    |f: Face| f.face_type == FaceType::Parametric,
                ),
                freeform == count_in(
                    order.take(i as int),
                    self.faces@,
                    |f: Face| f.face_type == FaceType::Freeform,
                ),
                manufacturable == count_in(
                    order.take(i as int),
                    self.faces@,
                    |f: Face| f.can_be_made(),
                ),
            decreases n - i,
        {
            proof {
                assert(order.take(i + 1).drop_last() == order.take(i as int));
                assert(order.take(i + 1).last() == order[i as int]);
            }
            let face = self.faces.value_at(i);
            match face.face_type {
                FaceType::Planar => {
                    planar += 1;
                },
                FaceType::Cylindrical => {
                    cylindrical += 1;
                },
                FaceType::Spherical => {
                    spherical += 1;
                },
                FaceType::Parametric => {
                    parametric += 1;
                },
                FaceType::Freeform => {
                    freeform += 1;
                },
            }
            if face.is_manufacturable() {
                manufacturable += 1;
            }
            i += 1;
        }
        assert(order.take(n as int) == order);
        FaceCollectionStats {
            total_faces: n,
            planar,
            cylindrical,
            spherical,
            parametric,
            freeform,
            manufacturable,
        }
    }
}

/// Counts of the shells in a collection.
#[derive(Debug, Clone, Copy, PartialEq, Eq)]
pub struct ShellCollectionStats {
    pub total_shells: usize,
    pub closed: usize,
    pub open: usize,
    pub wire: usize,
    pub manifold: usize,
    pub manufacturable: usize,
}

/// Shells under their ids.
#[derive(Debug, Clone)]
pub struct ShellCollection {
    shells: StringMap<Shell>,
    next_shell_index: usize,
}

impl ShellCollection {
    pub closed spec fn shells(&self) -> Map<Seq<char>, Shell> {
        self.shells@
    }

    /// The ids of the shells, in the order in which they were added.
    pub closed spec fn shell_order(&self) -> Seq<Seq<char>> {
        self.shells.key_order()
    }

    /// How many shell ids were given out.
    pub closed spec fn issued(&self) -> nat {
        self.next_shell_index as nat
    }

    /// How many shells are of the given type.
    pub open spec fn shells_of(&self, shell_type: ShellType) -> nat {
        count_in(self.shell_order(), self.shells(), |s: Shell| s.shell_type == shell_type)
    }

    pub fn new() -> (c: Self)
        ensures
            c.shells() == Map::<Seq<char>, Shell>::empty(),
            c.shell_order().len() == 0,
            c.issued() == 0,
    {
        ShellCollection { shells: StringMap::new(), next_shell_index: 0 }
    }

    /// The map that backs the collection.
    pub fn as_map(&self) -> (m: &StringMap<Shell>)
        ensures
            m@ == self.shells(),
            m.key_order() == self.shell_order(),
    {
        &self.shells
    }

    /// Adds a shell under the next shell id. A shell without a face is
    /// refused; its id is spent all the same.
    pub fn add_shell(&mut self, shell: Shell) -> (r: KernelResult<ShellId>)
        requires
            old(self).issued() < usize::MAX,
        ensures
            final(self).issued() == old(self).issued() + 1,
            r is Ok <==> shell.faces@.len() > 0,
            match r {
                Ok(id) => id@ == entity_id("s"@, old(self).issued()) && final(self).shells()
                    == old(self).shells().insert(id@, shell),
                Err(e) => e.is_plain(ErrorCode::InternalError, "Shell must contain at least one face"@)
                    && final(self).shells() == old(self).shells() && final(self).shell_order()
                    == old(self).shell_order(),
            },
    {
        let number = decimal_text(self.next_shell_index);
        let text = join3("s", "_", number.as_str());
        self.next_shell_index += 1;
        if shell.faces.len() == 0 {
            return Err(KernelError::internal("Shell must contain at least one face"));
        }
        self.shells.insert(text.clone(), shell);
        Ok(ShellId::new(text))
    }

    pub fn get_shell(&self, shell_id: &ShellId) -> (r: Option<&Shell>)
        ensures
            match r {
                Some(shell) => self.shells().contains_key(shell_id@) && *shell
                    == self.shells()[shell_id@],
                None => !self.shells().contains_key(shell_id@),
            },
    {
        self.shells.get(shell_id.as_str())
    }

    /// The shells that list the face, in the order in which they were
    /// added.
    pub fn shells_with_face(&self, face_id: &FaceId) -> (found: Vec<ShellId>)
        ensures
            Seq::new(found@.len(), |i: int| found@[i]@) == keys_where(
                self.shell_order(),
                self.shells(),
                |s: Shell| face_ids(s.faces@).contains(face_id@),
            ),
    {
        let ghost order = self.shells.key_order();
        let ghost holds = |s: Shell| face_ids(s.faces@).contains(face_id@);
        let mut found: Vec<ShellId> = Vec::new();
        let n = self.shells.len();
        let mut i: usize = 0;
        assert(order.take(0) =~= Seq::<Seq<char>>::empty());
        assert(Seq::new(found@.len(), |i: int| found@[i]@) =~= Seq::<Seq<char>>::empty());
        while i < n
            invariant
                n == order.len(),
                order == self.shells.key_order(),
                holds == (|s: Shell| face_ids(s.faces@).contains(face_id@)),
                i <= n,
                Seq::new(found@.len(), |i: int| found@[i]@) == keys_where(
                    order.take(i as int),
                    self.shells@,
                    holds,
                ),
            decreases n - i,
        {
            proof {
                assert(order.take(i + 1).drop_last() == order.take(i as int));
                assert(order.take(i + 1).last() == order[i as int]);
            }
            let shell = self.shells.value_at(i);
            let ghost listed = face_ids(shell.faces@);
            let m = shell.faces.len();
            let mut lists = false;
            let mut j: usize = 0;
            while j < m
                invariant
                    m == shell.faces@.len(),
                    listed == face_ids(shell.faces@),
                    j <= m,
                    lists <==> exists|a: int| 0 <= a < j && listed[a] == face_id@,
                decreases m - j,
            {
                if str_eq(shell.faces[j].as_str(), face_id.as_str()) {
                    assert(listed[j as int] == face_id@);
                    lists = true;
                }
                j += 1;
            }
            assert(lists == listed.contains(face_id@));
            if lists {
                let ghost so_far = Seq::new(found@.len(), |i: int| found@[i]@);
                found.push(ShellId::new(self.shells.key_at(i).clone()));
                assert(Seq::new(found@.len(), |i: int| found@[i]@) =~= so_far.push(order[i as int]));
            }
            i += 1;
        }
        assert(order.take(n as int) == order);
        found
    }

    /// Checks each shell against the faces; the first fault is reported.
    pub fn validate(&self, face_collection: &StringMap<Face>) -> (r: KernelResult<()>)
        ensures
            match first_fault_among(self.shell_order(), self.shells(), face_collection@, 0) {
                Some(message) => r is Err && r->Err_0.is_plain(ErrorCode::InternalError, message),
                None => r is Ok,
            },
    {
        let ghost order = self.shells.key_order();
        let n = self.shells.len();
        let mut i: usize = 0;
        while i < n
            invariant
                n == order.len(),
                order == self.shells.key_order(),
                i <= n,
                first_fault_among(order, self.shells@, face_collection@, 0) == first_fault_among(
                    order,
                    self.shells@,
                    face_collection@,
                    i as int,
                ),
            decreases n - i,
        {
            match self.shells.value_at(i).validate(face_collection) {
                Err(e) => {
                    return Err(e);
                },
                Ok(_) => {},
            }
            i += 1;
        }
        Ok(())
    }

    /// Counts the shells, the shells of each type, those whose faces share
    /// their edges well, and those that can be made.
    pub fn stats(&self, face_collection: &StringMap<Face>) -> (s: ShellCollectionStats)
        ensures
            s.total_shells == self.shell_order().len(),
            s.closed == self.shells_of(ShellType::Closed),
            s.open == self.shells_of(ShellType::Open),
            s.wire == self.shells_of(ShellType::Wire),
            s.manifold == count_in(
                self.shell_order(),
                self.shells(),
                |s: Shell| s.shares_edges_well(face_collection@),
            ),
            s.manufacturable == count_in(
                self.shell_order(),
                self.shells(),
                |s: Shell| s.can_be_made(face_collection@),
            ),
    {
        let ghost order = self.shells.key_order();
        let n = self.shells.len();
        let mut closed: usize = 0;
        let mut open: usize = 0;
        let mut wire: usize = 0;
        let mut manifold: usize = 0;
        let mut manufacturable: usize = 0;
        let mut i: usize = 0;
        assert(order.take(0) =~= Seq::<Seq<char>>::empty());
        while i < n
            invariant
                n == order.len(),
                order == self.shells.key_order(),
                i <= n,
                closed <= i,
                open <= i,
                wire <= i,
                manifold <= i,
                manufacturable <= i,
                closed == count_in(
                    order.take(i as int),
                    self.shells@,
                    |s: Shell| s.shell_type == ShellType::Closed,
                ),
                open == count_in(
                    order.take(i as int),
                    self.shells@,
                    |s: Shell| s.shell_type == ShellType::Open,
                ),
                wire == count_in(
                    order.take(i as int),
                    self.shells@,
                    |s: Shell| s.shell_type == ShellType::Wire,
                ),
                manifold == count_in(
                    order.take(i as int),
                    self.shells@,
                    |s: Shell| s.shares_edges_well(face_collection@),
                ),
                manufacturable == count_in(
                    order.take(i as int),
                    self.shells@,
                    |s: Shell| s.can_be_made(face_collection@),
                ),
            decreases n - i,
        {
            proof {
                assert(order.take(i + 1).drop_last() == order.take(i as int));
                assert(order.take(i + 1).last() == order[i as int]);
            }
            let shell = self.shells.value_at(i);
            match shell.shell_type {
                ShellType::Closed => {
                    closed += 1;
                },
                ShellType::Open => {
                    open += 1;
                },
                ShellType::Wire => {
                    wire += 1;
                },
            }
            if shell.is_manifold(face_collection) {
                manifold += 1;
            }
            if shell.is_manufacturable(face_collection) {
                manufacturable += 1;
            }
            i += 1;
        }
        assert(order.take(n as int) == order);
        ShellCollectionStats { total_shells: n, closed, open, wire, manifold, manufacturable }
    }
}

/// Counts of the solids in a collection.
#[derive(Debug, Clone, Copy, PartialEq, Eq)]
pub struct SolidCollectionStats {
    pub total_solids: usize,
    pub simple: usize,
    pub composite: usize,
    pub assembly: usize,
    pub sheet: usize,
    pub wire: usize,
    pub manufacturable: usize,
}

/// Solids under their ids.
#[derive(Debug, Clone)]
pub struct TopologicalSolid {
    solids: StringMap<Solid>,
    next_solid_index: usize,
}

impl TopologicalSolid {
    pub closed spec fn solids(&self) -> Map<Seq<char>, Solid> {
        self.solids@
    }

    /// The ids of the solids, in the order in which they were added.
    pub closed spec fn solid_order(&self) -> Seq<Seq<char>> {
        self.solids.key_order()
    }

    /// How many solid ids were given out.
    pub closed spec fn issued(&self) -> nat {
        self.next_solid_index as nat
    }

    /// How many solids are of the given type.
    pub open spec fn solids_of(&self, solid_type: SolidType) -> nat {
        count_in(self.solid_order(), self.solids(), |s: Solid| s.solid_type == solid_type)
    }

    pub fn new() -> (c: Self)
        ensures
            c.solids() == Map::<Seq<char>, Solid>::empty(),
            c.solid_order().len() == 0,
            c.issued() == 0,
    {
        TopologicalSolid { solids: StringMap::new(), next_solid_index: 0 }
    }

    /// Adds a solid under the next solid id.
    pub fn add_solid(&mut self, solid: Solid) -> (r: KernelResult<SolidId>)
        requires
            old(self).issued() < usize::MAX,
        ensures
            r is Ok,
            r->Ok_0@ == entity_id("solid"@, old(self).issued()),
            final(self).issued() == old(self).issued() + 1,
            final(self).solids() == old(self).solids().insert(r->Ok_0@, solid),
    {
        let number = decimal_text(self.next_solid_index);
        let text = join3("solid", "_", number.as_str());
        self.next_solid_index += 1;
        self.solids.insert(text.clone(), solid);
        Ok(SolidId::new(text))
    }

    pub fn get_solid(&self, solid_id: &SolidId) -> (r: Option<&Solid>)
        ensures
            match r {
                Some(solid) => self.solids().contains_key(solid_id@) && *solid
                    == self.solids()[solid_id@],
                None => !self.solids().contains_key(solid_id@),
            },
    {
        self.solids.get(solid_id.as_str())
    }

    /// Checks each solid against the shells and the faces; the first fault
    /// is reported.
    pub fn validate(&self, shell_collection: &StringMap<Shell>, face_collection: &StringMap<Face>) -> (r:
        KernelResult<()>)
        ensures
            match first_solid_fault(
                self.solid_order(),
                self.solids(),
                shell_collection@,
                face_collection@,
                0,
            ) {
                Some(message) => r is Err && r->Err_0.is_plain(ErrorCode::InternalError, message),
                None => r is Ok,
            },
    {
        let ghost order = self.solids.key_order();
        let n = self.solids.len();
        let mut i: usize = 0;
        while i < n
            invariant
                n == order.len(),
                order == self.solids.key_order(),
                i <= n,
                first_solid_fault(order, self.solids@, shell_collection@, face_collection@, 0)
                    == first_solid_fault(
                    order,
                    self.solids@,
                    shell_collection@,
                    face_collection@,
                    i as int,
                ),
            decreases n - i,
        {
            match self.solids.value_at(i).validate(shell_collection, face_collection) {
                Err(e) => {
                    return Err(e);
                },
                Ok(_) => {},
            }
            i += 1;
        }
        Ok(())
    }

    /// Counts the solids, the solids of each type, and those that can be
    /// made.
    pub fn stats(&self, shell_collection: &StringMap<Shell>, face_collection: &StringMap<Face>) -> (s:
        SolidCollectionStats)
        ensures
            s.total_solids == self.solid_order().len(),
            s.simple == self.solids_of(SolidType::Simple),
            s.composite == self.solids_of(SolidType::Composite),
            s.assembly == self.solids_of(SolidType::Assembly),
            s.sheet == self.solids_of(SolidType::Sheet),
            s.wire == self.solids_of(SolidType::Wire),
            s.manufacturable == count_in(
                self.solid_order(),
                self.solids(),
                |s: Solid| s.can_be_made(shell_collection@, face_collection@),
            ),
    {
        let ghost order = self.solids.key_order();
        let n = self.solids.len();
        let mut simple: usize = 0;
        let mut composite: usize = 0;
        let mut assembly: usize = 0;
        let mut sheet: usize = 0;
        let mut wire: usize = 0;
        let mut manufacturable: usize = 0;
        let mut i: usize = 0;
        assert(order.take(0) =~= Seq::<Seq<char>>::empty());
        while i < n
            invariant
                n == order.len(),
                order == self.solids.key_order(),
                i <= n,
                simple <= i,
                composite <= i,
                assembly <= i,
                sheet <= i,
                wire <= i,
                manufacturable <= i,
                simple == count_in(
                    order.take(i as int),
                    self.solids@,
                    |s: Solid| s.solid_type == SolidType::Simple,
                ),
                composite == count_in(
                    order.take(i as int),
                    self.solids@,
                    |s: Solid| s.solid_type == SolidType::Composite,
                ),
                assembly == count_in(
                    order.take(i as int),
                    self.solids@,
                    |s: Solid| s.solid_type == SolidType::Assembly,
                ),
                sheet == count_in(
                    order.take(i as int),
                    self.solids@,
                    |s: Solid| s.solid_type == SolidType::Sheet,
                ),
                wire == count_in(
                    order.take(i as int),
                    self.solids@,
                    |s: Solid| s.solid_type == SolidType::Wire,
                ),
                manufacturable == count_in(
                    order.take(i as int),
                    self.solids@,
                    |s: Solid| s.can_be_made(shell_collection@, face_collection@),
                ),
            decreases n - i,
        {
            proof {
                assert(order.take(i + 1).drop_last() == order.take(i as int));
                assert(order.take(i + 1).last() == order[i as int]);
            }
            let solid = self.solids.value_at(i);
            match solid.solid_type {
                SolidType::Simple => {
                    simple += 1;
                },
                SolidType::Composite => {
                    composite += 1;
                },
                SolidType::Assembly => {
                    assembly += 1;
                },
                SolidType::Sheet => {
                    sheet += 1;
                },
                SolidType::Wire => {
                    wire += 1;
                },
            }
            if solid.is_manufacturable(shell_collection, face_collection) {
                manufacturable += 1;
            }
            i += 1;
        }
        assert(order.take(n as int) == order);
        SolidCollectionStats {
            total_solids: n,
            simple,
            composite,
            assembly,
            sheet,
            wire,
            manufacturable,
        }
    }
}

} // verus!
