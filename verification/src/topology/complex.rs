//! The complex: all vertices, edges, faces, shells and solids of a part,
//! each under its id, and which of them is next to which.

use vstd::prelude::*;
use vstd::string::*;
use crate::errors::{join3, ErrorCode, KernelError, KernelResult};
use crate::scalar::Scalar;
use crate::string_map::StringMap;
use crate::text::{decimal, decimal_text, lemma_decimal_injective};
use crate::topology::counting::{distinct, distinct_items, strs};
use crate::topology::edge::{Edge, Vertex, DEFAULT_TOLERANCE};
use crate::topology::face::{edge_texts, Face};
use crate::topology::shell::{face_ids, Shell};
use crate::topology::solid::Solid;
use crate::topology::{
    face_texts, faces_listing, vertex_texts, AdjacencyGraph, EdgeId, EdgeType, EdgeVertex, FaceEdge,
    FaceId, FaceType, ShellId, TopologyId,
};

verus! {

/// The id of the entity of a kind that is added when `count` of them are
/// there: the kind, an underscore, and the count.
pub open spec fn entity_id(kind: Seq<char>, count: nat) -> Seq<char> {
    kind + "_"@ + decimal(count)
}

/// Entities of one kind that were added at different counts have
/// different ids.
pub proof fn lemma_entity_ids_differ(kind: Seq<char>, a: nat, b: nat)
    requires
        a != b,
    ensures
        entity_id(kind, a) != entity_id(kind, b),
{
    let head = kind + "_"@;
    assert(entity_id(kind, a).skip(head.len() as int) =~= decimal(a));
    assert(entity_id(kind, b).skip(head.len() as int) =~= decimal(b));
    if entity_id(kind, a) == entity_id(kind, b) {
        lemma_decimal_injective(a, b);
    }
}

/// The order of the keys after `key` was put into a map.
pub open spec fn with_key(order: Seq<Seq<char>>, key: Seq<char>) -> Seq<Seq<char>> {
    if order.contains(key) {
        order
    } else {
        order.push(key)
    }
}

/// The relations between edges and vertices as pairs of ids.
pub open spec fn edge_vertex_pairs(relations: Seq<EdgeVertex>) -> Seq<(Seq<char>, Seq<char>)> {
    Seq::new(relations.len(), |i: int| (relations[i].edge@, relations[i].vertex@))
}

/// The relations between faces and edges as pairs of ids.
pub open spec fn face_edge_pairs(relations: Seq<FaceEdge>) -> Seq<(Seq<char>, Seq<char>)> {
    Seq::new(relations.len(), |i: int| (relations[i].face@, relations[i].edge@))
}

/// The first place from `from` on at which an id stands that is no key of
/// the map; the length of the list where there is none.
pub open spec fn known_run<V>(ids: Seq<Seq<char>>, known: Map<Seq<char>, V>, from: int) -> int
    decreases ids.len() - from,
{
    if from < 0 || from >= ids.len() || !known.contains_key(ids[from]) {
        from
    } else {
        known_run(ids, known, from + 1)
    }
}

/// The ends of the edges in the list, edge by edge. An edge that is not
/// known contributes none.
pub open spec fn ends_of(edges: Seq<Seq<char>>, known: Map<Seq<char>, Edge>) -> Seq<Seq<char>>
    decreases edges.len(),
{
    if edges.len() == 0 {
        Seq::empty()
    } else if known.contains_key(edges.last()) {
        ends_of(edges.drop_last(), known).push(known[edges.last()].start_vertex@).push(
            known[edges.last()].end_vertex@,
        )
    } else {
        ends_of(edges.drop_last(), known)
    }
}

/// The sum of a count over the known shells in the list.
pub open spec fn tally(
    ids: Seq<Seq<char>>,
    shells: Map<Seq<char>, Shell>,
    count: spec_fn(Shell) -> nat,
) -> nat
    decreases ids.len(),
{
    if ids.len() == 0 {
        0
    } else if shells.contains_key(ids.last()) {
        tally(ids.drop_last(), shells, count) + count(shells[ids.last()])
    } else {
        tally(ids.drop_last(), shells, count)
    }
}

/// How many vertices, edges and faces a shell has.
pub struct ShellCounts {
    pub vertices: usize,
    pub edges: usize,
    pub faces: usize,
}

/// All entities of a part.
#[derive(Debug, Clone)]
pub struct TopologicalComplex {
    pub vertices: StringMap<Vertex>,
    pub edges: StringMap<Edge>,
    pub faces: StringMap<Face>,
    pub shells: StringMap<Shell>,
    pub solids: StringMap<Solid>,
    pub adjacency: AdjacencyGraph,
}

impl TopologicalComplex {
    /// The number of different edges round the faces of a shell.
    pub open spec fn edge_count(self, shell: Shell) -> nat {
        distinct(shell.boundary(self.faces@)).len()
    }

    /// The number of different vertices at which the edges of a shell end.
    pub open spec fn vertex_count(self, shell: Shell) -> nat {
        distinct(ends_of(shell.boundary(self.faces@), self.edges@)).len()
    }

    /// Vertices less edges plus faces, over the known shells of a solid.
    pub open spec fn characteristic(self, solid: Solid) -> int {
        tally(solid.shells(), self.shells@, |s: Shell| self.vertex_count(s)) - tally(
            solid.shells(),
            self.shells@,
            |s: Shell| self.edge_count(s),
        ) + tally(solid.shells(), self.shells@, |s: Shell| s.faces@.len())
    }

    /// Whether every solid has at least the characteristic of a sphere.
    pub open spec fn solids_hold(self) -> bool {
        forall|i: int|
            0 <= i < self.solids.key_order().len() ==> self.characteristic(
                self.solids@[#[trigger] self.solids.key_order()[i]],
            ) >= 2
    }

    /// Whether no edge bounds more than two faces.
    pub open spec fn edges_bound_two(self) -> bool {
        forall|i: int|
            0 <= i < self.edges.key_order().len() ==> faces_listing(
                self.adjacency.face_edge_relations(),
                #[trigger] self.edges.key_order()[i],
            ).len() <= 2
    }

    /// A complex without entities.
    pub fn new() -> (c: Self)
        ensures
            c.vertices.key_order().len() == 0,
            c.edges.key_order().len() == 0,
            c.faces.key_order().len() == 0,
            c.shells.key_order().len() == 0,
            c.solids.key_order().len() == 0,
            c.vertices@ == Map::<Seq<char>, Vertex>::empty(),
            c.edges@ == Map::<Seq<char>, Edge>::empty(),
            c.faces@ == Map::<Seq<char>, Face>::empty(),
            c.shells@ == Map::<Seq<char>, Shell>::empty(),
            c.solids@ == Map::<Seq<char>, Solid>::empty(),
            c.adjacency.edge_vertex_relations().len() == 0,
            c.adjacency.face_edge_relations().len() == 0,
    {
        TopologicalComplex {
            vertices: StringMap::new(),
            edges: StringMap::new(),
            faces: StringMap::new(),
            shells: StringMap::new(),
            solids: StringMap::new(),
            adjacency: AdjacencyGraph::new(),
        }
    }

    /// Adds a vertex under the next vertex id.
    pub fn add_vertex(&mut self, vertex: Vertex) -> (r: KernelResult<TopologyId>)
        ensures
            r is Ok,
            r->Ok_0@ == entity_id("vertex"@, old(self).vertices.key_order().len()),
            final(self).vertices@ == old(self).vertices@.insert(r->Ok_0@, vertex),
            final(self).vertices.key_order() == with_key(old(self).vertices.key_order(), r->Ok_0@),
            final(self).edges == old(self).edges,
            final(self).faces == old(self).faces,
            final(self).shells == old(self).shells,
            final(self).solids == old(self).solids,
            final(self).adjacency == old(self).adjacency,
    {
        let id = TopologyId::new("vertex", self.vertices.len());
        self.vertices.insert(String::from_str(id.as_str()), vertex);
        Ok(id)
    }

    /// Adds an edge under the next edge id, and relates it to its ends.
    /// Both ends must be vertices of the complex.
    pub fn add_edge(&mut self, edge: Edge) -> (r: KernelResult<EdgeId>)
        ensures
            r is Ok <==> old(self).vertices@.contains_key(edge.start_vertex@)
                && old(self).vertices@.contains_key(edge.end_vertex@),
            match r {
                Ok(id) => {
                    &&& id@ == entity_id("edge"@, old(self).edges.key_order().len())
                    &&& final(self).edges@ == old(self).edges@.insert(id@, edge)
                    &&& final(self).edges.key_order() == with_key(old(self).edges.key_order(), id@)
                    &&& edge_vertex_pairs(final(self).adjacency.edge_vertex_relations())
                        == edge_vertex_pairs(old(self).adjacency.edge_vertex_relations()).push(
                        (id@, edge.start_vertex@),
                    ).push((id@, edge.end_vertex@))
                    &&& final(self).adjacency.face_edge_relations()
                        == old(self).adjacency.face_edge_relations()
                },
                Err(e) => {
                    &&& e.is_plain(ErrorCode::InternalError, "Edge vertices must exist in complex"@)
                    &&& final(self).edges == old(self).edges
                    &&& final(self).adjacency == old(self).adjacency
                },
            },
            final(self).vertices == old(self).vertices,
            final(self).faces == old(self).faces,
            final(self).shells == old(self).shells,
            final(self).solids == old(self).solids,
    {
        let number = decimal_text(self.edges.len());
        let text = join3("edge", "_", number.as_str());
        if !self.vertices.contains_key(edge.start_vertex.as_str()) || !self.vertices.contains_key(
            edge.end_vertex.as_str(),
        ) {
            return Err(KernelError::internal("Edge vertices must exist in complex"));
        }
        let ghost before = edge_vertex_pairs(self.adjacency.edge_vertex_relations());
        let _ = self.adjacency.add_edge_vertex_relation(
            EdgeId::new(text.clone()),
            edge.start_vertex.clone(),
        );
        let _ = self.adjacency.add_edge_vertex_relation(
            EdgeId::new(text.clone()),
            edge.end_vertex.clone(),
        );
        assert(edge_vertex_pairs(self.adjacency.edge_vertex_relations()) =~= before.push(
            (text@, edge.start_vertex@),
        ).push((text@, edge.end_vertex@)));
        self.edges.insert(text.clone(), edge);
        Ok(EdgeId::new(text))
    }

    /// Adds a face under the next face id, and relates it to the edges
    /// round it. The edges must be edges of the complex: at the first that
    /// is not, the face is refused, and the relations to the edges before
    /// it stay.
    pub fn add_face(&mut self, face: Face) -> (r: KernelResult<FaceId>)
        ensures
            r is Ok <==> known_run(edge_texts(face.boundary_edges@), old(self).edges@, 0)
                == face.boundary_edges@.len(),
            face_edge_pairs(final(self).adjacency.face_edge_relations()) == face_edge_pairs(
                old(self).adjacency.face_edge_relations(),
            ) + Seq::new(
                known_run(edge_texts(face.boundary_edges@), old(self).edges@, 0) as nat,
                |j: int|
                    (
                        entity_id("face"@, old(self).faces.key_order().len()),
                        face.boundary_edges@[j]@,
                    ),
            ),
            final(self).adjacency.edge_vertex_relations()
                == old(self).adjacency.edge_vertex_relations(),
            match r {
                Ok(id) => {
                    &&& id@ == entity_id("face"@, old(self).faces.key_order().len())
                    &&& final(self).faces@ == old(self).faces@.insert(id@, face)
                    &&& final(self).faces.key_order() == with_key(old(self).faces.key_order(), id@)
                },
                Err(e) => {
                    &&& e.is_plain(ErrorCode::InternalError, "Face edges must exist in complex"@)
                    &&& final(self).faces == old(self).faces
                },
            },
            final(self).vertices == old(self).vertices,
            final(self).edges == old(self).edges,
            final(self).shells == old(self).shells,
            final(self).solids == old(self).solids,
    {
        let number = decimal_text(self.faces.len());
        let text = join3("face", "_", number.as_str());
        let ghost round = edge_texts(face.boundary_edges@);
        let ghost before = face_edge_pairs(self.adjacency.face_edge_relations());
        let n = face.boundary_edges.len();
        let mut i: usize = 0;
        assert(face_edge_pairs(self.adjacency.face_edge_relations()) =~= before + Seq::new(
            0,
            |j: int| (text@, face.boundary_edges@[j]@),
        ));
        while i < n
            invariant
                n == face.boundary_edges@.len(),
                round == edge_texts(face.boundary_edges@),
                before == face_edge_pairs(old(self).adjacency.face_edge_relations()),
                i <= n,
                text@ == entity_id("face"@, old(self).faces.key_order().len()),
                known_run(round, self.edges@, 0) == known_run(round, self.edges@, i as int),
                face_edge_pairs(self.adjacency.face_edge_relations()) == before + Seq::new(
                    i as nat,
                    |j: int| (text@, face.boundary_edges@[j]@),
                ),
                self.adjacency.edge_vertex_relations()
                    == old(self).adjacency.edge_vertex_relations(),
                self.vertices == old(self).vertices,
                self.edges == old(self).edges,
                self.faces == old(self).faces,
                self.shells == old(self).shells,
                self.solids == old(self).solids,
            decreases n - i,
        {
            assert(round[i as int] == face.boundary_edges@[i as int]@);
            if !self.edges.contains_key(face.boundary_edges[i].as_str()) {
                assert(known_run(round, self.edges@, i as int) == i);
                assert(Seq::new(i as nat, |j: int| (text@, face.boundary_edges@[j]@)) =~= Seq::new(
                    i as nat,
                    |j: int|
                        (
                            entity_id("face"@, old(self).faces.key_order().len()),
                            face.boundary_edges@[j]@,
                        ),
                ));
                return Err(KernelError::internal("Face edges must exist in complex"));
            }
            let ghost so_far = face_edge_pairs(self.adjacency.face_edge_relations());
            let _ = self.adjacency.add_face_edge_relation(
                FaceId::new(text.clone()),
                face.boundary_edges[i].clone(),
            );
            assert(face_edge_pairs(self.adjacency.face_edge_relations()) =~= so_far.push(
                (text@, face.boundary_edges@[i as int]@),
            ));
            assert(before + Seq::new((i + 1) as nat, |j: int| (text@, face.boundary_edges@[j]@))
                =~= (before + Seq::new(i as nat, |j: int| (text@, face.boundary_edges@[j]@))).push(
                (text@, face.boundary_edges@[i as int]@),
            ));
            i += 1;
        }
        assert(Seq::new(n as nat, |j: int| (text@, face.boundary_edges@[j]@)) =~= Seq::new(
            n as nat,
            |j: int|
                (entity_id("face"@, old(self).faces.key_order().len()), face.boundary_edges@[j]@),
        ));
        self.faces.insert(text.clone(), face);
        Ok(FaceId::new(text))
    }

    /// The ends of an edge; none where the edge is not known.
    pub fn get_edge_vertices(&self, edge_id: &EdgeId) -> (ends: Vec<&TopologyId>)
        ensures
            vertex_texts(ends@) == if self.edges@.contains_key(edge_id@) {
                seq![self.edges@[edge_id@].start_vertex@, self.edges@[edge_id@].end_vertex@]
            } else {
                Seq::empty()
            },
    {
        let mut ends: Vec<&TopologyId> = Vec::new();
        match self.edges.get(edge_id.as_str()) {
            Some(edge) => {
                ends.push(&edge.start_vertex);
                ends.push(&edge.end_vertex);
                assert(vertex_texts(ends@) =~= seq![edge.start_vertex@, edge.end_vertex@]);
            },
            None => {
                assert(vertex_texts(ends@) =~= Seq::empty());
            },
        }
        ends
    }

    /// The edges round a face; none where the face is not known.
    pub fn get_face_edges(&self, face_id: &FaceId) -> (edges: Vec<&EdgeId>)
        ensures
            Seq::new(edges@.len(), |i: int| edges@[i]@) == if self.faces@.contains_key(face_id@) {
                edge_texts(self.faces@[face_id@].boundary_edges@)
            } else {
                Seq::empty()
            },
    {
        let mut edges: Vec<&EdgeId> = Vec::new();
        match self.faces.get(face_id.as_str()) {
            Some(face) => {
                let n = face.boundary_edges.len();
                let mut i: usize = 0;
                while i < n
                    invariant
                        n == face.boundary_edges@.len(),
                        i <= n,
                        edges@.len() == i,
                        forall|j: int| 0 <= j < i ==> edges@[j]@ == face.boundary_edges@[j]@,
                    decreases n - i,
                {
                    edges.push(&face.boundary_edges[i]);
                    i += 1;
                }
                assert(Seq::new(edges@.len(), |i: int| edges@[i]@) =~= edge_texts(
                    face.boundary_edges@,
                ));
            },
            None => {
                assert(Seq::new(edges@.len(), |i: int| edges@[i]@) =~= Seq::empty());
            },
        }
        edges
    }

    /// The faces of a shell; none where the shell is not known.
    pub fn get_shell_faces(&self, shell_id: &ShellId) -> (faces: Vec<&FaceId>)
        ensures
            face_texts(faces@) == if self.shells@.contains_key(shell_id@) {
                face_ids(self.shells@[shell_id@].faces@)
            } else {
                Seq::empty()
            },
    {
        let mut faces: Vec<&FaceId> = Vec::new();
        match self.shells.get(shell_id.as_str()) {
            Some(shell) => {
                let n = shell.faces.len();
                let mut i: usize = 0;
                while i < n
                    invariant
                        n == shell.faces@.len(),
                        i <= n,
                        faces@.len() == i,
                        forall|j: int| 0 <= j < i ==> faces@[j]@ == shell.faces@[j]@,
                    decreases n - i,
                {
                    faces.push(&shell.faces[i]);
                    i += 1;
                }
                assert(face_texts(faces@) =~= face_ids(shell.faces@));
            },
            None => {
                assert(face_texts(faces@) =~= Seq::empty());
            },
        }
        faces
    }

    /// Whether no edge of the complex bounds more than two faces.
    pub fn is_manifold(&self) -> (b: bool)
        ensures
            b == self.edges_bound_two(),
    {
        let n = self.edges.len();
        let mut i: usize = 0;
        while i < n
            invariant
                n == self.edges.key_order().len(),
                i <= n,
                forall|j: int|
                    0 <= j < i ==> faces_listing(
                        self.adjacency.face_edge_relations(),
                        #[trigger] self.edges.key_order()[j],
                    ).len() <= 2,
            decreases n - i,
        {
            let id = EdgeId::new(self.edges.key_at(i).clone());
            let faces = self.adjacency.get_faces_for_edge(&id);
            assert(face_texts(faces@).len() == faces@.len());
            if faces.len() > 2 {
                return false;
            }
            i += 1;
        }
        true
    }

    /// The number of handles. No complex is taken to have any.
    pub fn genus(&self) -> (g: usize)
        ensures
            g == 0,
    {
        0
    }

    /// Counts the vertices, edges and faces of a shell.
    pub fn shell_counts(&self, shell: &Shell) -> (c: ShellCounts)
        ensures
            c.vertices == self.vertex_count(*shell),
            c.edges == self.edge_count(*shell),
            c.faces == shell.faces@.len(),
    {
        let edges = shell.boundary_edges(&self.faces);
        let different = distinct_items(&edges);
        assert(strs(different@).len() == different@.len());
        let ghost all = strs(edges@);
        let mut ends: Vec<&str> = Vec::new();
        let mut i: usize = 0;
        assert(all.take(0) =~= Seq::<Seq<char>>::empty());
        assert(strs(ends@) =~= Seq::<Seq<char>>::empty());
        while i < edges.len()
            invariant
                all == strs(edges@),
                i <= edges.len(),
                strs(ends@) == ends_of(all.take(i as int), self.edges@),
            decreases edges.len() - i,
        {
            proof {
                assert(all.take(i + 1).drop_last() == all.take(i as int));
                assert(all.take(i + 1).last() == edges@[i as int]@);
            }
            match self.edges.get(edges[i]) {
                Some(edge) => {
                    let ghost so_far = strs(ends@);
                    ends.push(edge.start_vertex.as_str());
                    ends.push(edge.end_vertex.as_str());
                    assert(strs(ends@) =~= so_far.push(edge.start_vertex@).push(edge.end_vertex@));
                },
                None => {},
            }
            i += 1;
        }
        assert(all.take(edges.len() as int) == all);
        let corners = distinct_items(&ends);
        assert(strs(corners@).len() == corners@.len());
        ShellCounts { vertices: corners.len(), edges: different.len(), faces: shell.faces.len() }
    }

    /// Whether a solid has less than the characteristic of a sphere.
    pub fn is_below_sphere(&self, solid: &Solid) -> (b: bool)
        ensures
            b == (self.characteristic(*solid) < 2),
    {
        let ghost all = solid.shells();
        let ghost known = self.shells@;
        let ghost by_vertices = |s: Shell| self.vertex_count(s);
        let ghost by_edges = |s: Shell| self.edge_count(s);
        let ghost by_faces = |s: Shell| s.faces@.len();
        let mut v: u128 = 0;
        let mut e: u128 = 0;
        let mut f: u128 = 0;
        assert(all.take(1).drop_last() =~= Seq::<Seq<char>>::empty());
        assert(all.take(1).last() == solid.outer_shell@);
        assert(tally(Seq::<Seq<char>>::empty(), known, by_vertices) == 0);
        assert(tally(Seq::<Seq<char>>::empty(), known, by_edges) == 0);
        assert(tally(Seq::<Seq<char>>::empty(), known, by_faces) == 0);
        match self.shells.get(solid.outer_shell.as_str()) {
            Some(shell) => {
                let c = self.shell_counts(shell);
                v = c.vertices as u128;
                e = c.edges as u128;
                f = c.faces as u128;
            },
            None => {},
        }
        let n = solid.inner_shells.len();
        let mut i: usize = 0;
        while i < n
            invariant
                n == solid.inner_shells@.len(),
                all == solid.shells(),
                known == self.shells@,
                by_vertices == (|s: Shell| self.vertex_count(s)),
                by_edges == (|s: Shell| self.edge_count(s)),
                by_faces == (|s: Shell| s.faces@.len()),
                i <= n,
                v == tally(all.take(i + 1), known, by_vertices),
                e == tally(all.take(i + 1), known, by_edges),
                f == tally(all.take(i + 1), known, by_faces),
                v <= (i + 1) * 0xFFFF_FFFF_FFFF_FFFF,
                e <= (i + 1) * 0xFFFF_FFFF_FFFF_FFFF,
                f <= (i + 1) * 0xFFFF_FFFF_FFFF_FFFF,
            decreases n - i,
        {
            proof {
                assert(all.take(i + 2).drop_last() == all.take(i + 1));
                assert(all.take(i + 2).last() == solid.inner_shells@[i as int]@);
            }
            match self.shells.get(solid.inner_shells[i].as_str()) {
                Some(shell) => {
                    let c = self.shell_counts(shell);
                    v = v + c.vertices as u128;
                    e = e + c.edges as u128;
                    f = f + c.faces as u128;
                },
                None => {},
            }
            i += 1;
        }
        assert(all.take(n + 1) == all);
        if v >= e {
            let d = v - e;
            d < 2 && f < 2 - d
        } else {
            let d = e - v;
            f < 2 || f - 2 < d
        }
    }

    /// Checks the complex: every solid must have at least the
    /// characteristic of a sphere.
    pub fn validate(&self) -> (r: KernelResult<()>)
        ensures
            r is Ok <==> self.solids_hold(),
            r is Err ==> r->Err_0.is_plain(
                ErrorCode::InternalError,
                "Solid violates Euler characteristic - topology may be invalid"@,
            ),
    {
        let n = self.solids.len();
        let mut i: usize = 0;
        while i < n
            invariant
                n == self.solids.key_order().len(),
                i <= n,
                forall|j: int|
                    0 <= j < i ==> self.characteristic(
                        self.solids@[#[trigger] self.solids.key_order()[j]],
                    ) >= 2,
            decreases n - i,
        {
            if self.is_below_sphere(self.solids.value_at(i)) {
                return Err(
                    KernelError::internal(
                        "Solid violates Euler characteristic - topology may be invalid",
                    ),
                );
            }
            i += 1;
        }
        match self.adjacency.validate() {
            Ok(_) => Ok(()),
            Err(e) => Err(e),
        }
    }
}

/// A corner of the box about the origin with the given sides: the first
/// four lie below, the last four above, each four in a round.
pub open spec fn box_corner(i: int, width: Scalar, height: Scalar, depth: Scalar) -> Seq<Scalar> {
    let x = width.halved();
    let y = height.halved();
    let z = depth.halved();
    seq![
        if i == 0 || i == 3 || i == 4 || i == 7 {
            x.negated()
        } else {
            x
        },
        if i == 0 || i == 1 || i == 4 || i == 5 {
            y.negated()
        } else {
            y
        },
        if i < 4 {
            z.negated()
        } else {
            z
        },
    ]
}

/// The corner at which an edge of the box starts: four edges run round
/// the bottom, four round the top, and four stand upright.
pub open spec fn box_edge_start(i: int) -> int {
    if i < 8 {
        i
    } else {
        i - 8
    }
}

/// The corner at which an edge of the box ends.
pub open spec fn box_edge_end(i: int) -> int {
    if i < 4 {
        (i + 1) % 4
    } else if i < 8 {
        4 + (i + 1) % 4
    } else {
        i - 4
    }
}

/// The edges round each face of the box: bottom, top, front, back, left
/// and right.
pub open spec fn box_face_edges() -> Seq<Seq<int>> {
    seq![
        seq![0, 1, 2, 3],
        seq![4, 5, 6, 7],
        seq![0, 9, 4, 8],
        seq![2, 11, 6, 10],
        seq![3, 11, 7, 8],
        seq![1, 10, 5, 9],
    ]
}

/// Whether the vertices are the eight corners of the box, under the first
/// eight vertex ids.
pub open spec fn holds_box_corners(
    vertices: StringMap<Vertex>,
    count: int,
    width: Scalar,
    height: Scalar,
    depth: Scalar,
) -> bool {
    &&& vertices.key_order() == Seq::new(count as nat, |i: int| entity_id("vertex"@, i as nat))
    &&& forall|i: int|
        0 <= i < count ==> {
            let key = #[trigger] entity_id("vertex"@, i as nat);
            &&& vertices@.contains_key(key)
            &&& vertices@[key].position@ == box_corner(i, width, height, depth)
            &&& vertices@[key].tolerance.bits == DEFAULT_TOLERANCE
        }
}

/// Whether the edges are the first `count` edges of the box, straight and
/// not yet measured, under the first edge ids.
pub open spec fn holds_box_edges(edges: StringMap<Edge>, count: int) -> bool {
    &&& edges.key_order() == Seq::new(count as nat, |i: int| entity_id("edge"@, i as nat))
    &&& forall|i: int|
        0 <= i < count ==> {
            let key = #[trigger] entity_id("edge"@, i as nat);
            let edge = edges@[key];
            &&& edges@.contains_key(key)
            &&& edge.start_vertex@ == entity_id("vertex"@, box_edge_start(i) as nat)
            &&& edge.end_vertex@ == entity_id("vertex"@, box_edge_end(i) as nat)
            &&& edge.edge_type == EdgeType::Linear
            &&& edge.curve is None
            &&& edge.length.bits == 0
            &&& edge.manufacturing_constraints@.len() == 0
        }
}

/// Whether the faces are the first `count` faces of the box, planar and
/// not yet measured, under the first face ids.
pub open spec fn holds_box_faces(faces: StringMap<Face>, count: int) -> bool {
    &&& faces.key_order() == Seq::new(count as nat, |i: int| entity_id("face"@, i as nat))
    &&& forall|i: int|
        0 <= i < count ==> {
            let key = #[trigger] entity_id("face"@, i as nat);
            let face = faces@[key];
            &&& faces@.contains_key(key)
            &&& edge_texts(face.boundary_edges@) == Seq::new(
                4,
                |j: int| entity_id("edge"@, box_face_edges()[i][j] as nat),
            )
            &&& face.face_type == FaceType::Planar
            &&& face.surface is None
            &&& face.area.bits == 0
            &&& face.manufacturing_constraints@.len() == 0
        }
}

/// Whether the complex is the box about the origin with the given sides:
/// eight corners, twelve straight edges and six planar faces, and neither
/// shell nor solid.
pub open spec fn is_box(c: TopologicalComplex, width: Scalar, height: Scalar, depth: Scalar) -> bool {
    &&& holds_box_corners(c.vertices, 8, width, height, depth)
    &&& holds_box_edges(c.edges, 12)
    &&& holds_box_faces(c.faces, 6)
    &&& c.shells@ == Map::<Seq<char>, Shell>::empty()
    &&& c.solids@ == Map::<Seq<char>, Solid>::empty()
}

fn box_face_edge(face: usize, place: usize) -> (edge: usize)
    requires
        face < 6,
        place < 4,
    ensures
        edge == box_face_edges()[face as int][place as int],
        edge < 12,
{
    let row: [usize; 4] = if face == 0 {
        [0, 1, 2, 3]
    } else if face == 1 {
        [4, 5, 6, 7]
    } else if face == 2 {
        [0, 9, 4, 8]
    } else if face == 3 {
        [2, 11, 6, 10]
    } else if face == 4 {
        [3, 11, 7, 8]
    } else {
        [1, 10, 5, 9]
    };
    row[place]
}

/// The order of the keys of a map to which the entities of a kind were
/// added one after the other grows by the next id.
proof fn lemma_next_key(kind: Seq<char>, order: Seq<Seq<char>>, count: nat)
    requires
        order == Seq::new(count, |i: int| entity_id(kind, i as nat)),
    ensures
        with_key(order, entity_id(kind, count)) == Seq::new(
            count + 1,
            |i: int| entity_id(kind, i as nat),
        ),
{
    if order.contains(entity_id(kind, count)) {
        let j = choose|j: int| 0 <= j < order.len() && order[j] == entity_id(kind, count);
        lemma_entity_ids_differ(kind, j as nat, count);
    }
    assert(order.push(entity_id(kind, count)) =~= Seq::new(
        count + 1,
        |i: int| entity_id(kind, i as nat),
    ));
}

/// The box about the origin with the given sides.
pub fn create_box_topology(width: Scalar, height: Scalar, depth: Scalar) -> (r: KernelResult<
    TopologicalComplex,
>)
    ensures
        r is Ok,
        is_box(r->Ok_0, width, height, depth),
{
    let mut complex = TopologicalComplex::new();
    let x = width.halve();
    let y = height.halve();
    let z = depth.halve();
    let mut vertex_ids: Vec<TopologyId> = Vec::new();
    let mut i: usize = 0;
    assert(complex.vertices.key_order() =~= Seq::new(0, |i: int| entity_id("vertex"@, i as nat)));
    while i < 8
        invariant
            i <= 8,
            x == width.halved(),
            y == height.halved(),
            z == depth.halved(),
            vertex_ids@.len() == i,
            forall|j: int| 0 <= j < i ==> (#[trigger] vertex_ids@[j])@ == entity_id("vertex"@, j as nat),
            holds_box_corners(complex.vertices, i as int, width, height, depth),
            complex.edges.key_order().len() == 0,
            complex.faces.key_order().len() == 0,
            complex.edges@ == Map::<Seq<char>, Edge>::empty(),
            complex.faces@ == Map::<Seq<char>, Face>::empty(),
            complex.shells@ == Map::<Seq<char>, Shell>::empty(),
            complex.solids@ == Map::<Seq<char>, Solid>::empty(),
        decreases 8 - i,
    {
        let position = [
            if i == 0 || i == 3 || i == 4 || i == 7 {
                x.negate()
            } else {
                x
            },
            if i == 0 || i == 1 || i == 4 || i == 5 {
                y.negate()
            } else {
                y
            },
            if i < 4 {
                z.negate()
            } else {
                z
            },
        ];
        assert(position@ =~= box_corner(i as int, width, height, depth));
        let ghost before = complex.vertices;
        proof {
            lemma_next_key("vertex"@, before.key_order(), i as nat);
        }
        match complex.add_vertex(Vertex::new(position)) {
            Ok(id) => {
                proof {
                    assert forall|j: int| 0 <= j < i + 1 implies {
                        let key = #[trigger] entity_id("vertex"@, j as nat);
                        &&& complex.vertices@.contains_key(key)
                        &&& complex.vertices@[key].position@ == box_corner(j, width, height, depth)
                        &&& complex.vertices@[key].tolerance.bits == DEFAULT_TOLERANCE
                    } by {
                        if j < i {
                            lemma_entity_ids_differ("vertex"@, j as nat, i as nat);
                        }
                    }
                }
                vertex_ids.push(id);
            },
            Err(e) => {
                return Err(e);
            },
        }
        i += 1;
    }
    let mut edge_ids: Vec<EdgeId> = Vec::new();
    let mut k: usize = 0;
    assert(complex.edges.key_order() =~= Seq::new(0, |i: int| entity_id("edge"@, i as nat)));
    while k < 12
        invariant
            k <= 12,
            vertex_ids@.len() == 8,
            forall|j: int| 0 <= j < 8 ==> (#[trigger] vertex_ids@[j])@ == entity_id("vertex"@, j as nat),
            holds_box_corners(complex.vertices, 8, width, height, depth),
            edge_ids@.len() == k,
            forall|j: int| 0 <= j < k ==> (#[trigger] edge_ids@[j])@ == entity_id("edge"@, j as nat),
            holds_box_edges(complex.edges, k as int),
            complex.faces.key_order().len() == 0,
            complex.faces@ == Map::<Seq<char>, Face>::empty(),
            complex.shells@ == Map::<Seq<char>, Shell>::empty(),
            complex.solids@ == Map::<Seq<char>, Solid>::empty(),
        decreases 12 - k,
    {
        let start: usize = if k < 8 {
            k
        } else {
            k - 8
        };
        let end: usize = if k < 4 {
            (k + 1) % 4
        } else if k < 8 {
            4 + (k + 1) % 4
        } else {
            k - 4
        };
        let edge = Edge::new(vertex_ids[start].clone(), vertex_ids[end].clone(), EdgeType::Linear);
        let ghost before = complex.edges;
        proof {
            lemma_next_key("edge"@, before.key_order(), k as nat);
            assert(complex.vertices@.contains_key(entity_id("vertex"@, start as nat)));
            assert(complex.vertices@.contains_key(entity_id("vertex"@, end as nat)));
        }
        match complex.add_edge(edge) {
            Ok(id) => {
                proof {
                    assert forall|j: int| 0 <= j < k + 1 implies {
                        let key = #[trigger] entity_id("edge"@, j as nat);
                        let edge = complex.edges@[key];
                        &&& complex.edges@.contains_key(key)
                        &&& edge.start_vertex@ == entity_id("vertex"@, box_edge_start(j) as nat)
                        &&& edge.end_vertex@ == entity_id("vertex"@, box_edge_end(j) as nat)
                        &&& edge.edge_type == EdgeType::Linear
                        &&& edge.curve is None
                        &&& edge.length.bits == 0
                        &&& edge.manufacturing_constraints@.len() == 0
                    } by {
                        if j < k {
                            lemma_entity_ids_differ("edge"@, j as nat, k as nat);
                        }
                    }
                }
                edge_ids.push(id);
            },
            Err(e) => {
                return Err(e);
            },
        }
        k += 1;
    }
    let mut f: usize = 0;
    assert(complex.faces.key_order() =~= Seq::new(0, |i: int| entity_id("face"@, i as nat)));
    while f < 6
        invariant
            f <= 6,
            edge_ids@.len() == 12,
            forall|j: int| 0 <= j < 12 ==> (#[trigger] edge_ids@[j])@ == entity_id("edge"@, j as nat),
            holds_box_corners(complex.vertices, 8, width, height, depth),
            holds_box_edges(complex.edges, 12),
            holds_box_faces(complex.faces, f as int),
            complex.shells@ == Map::<Seq<char>, Shell>::empty(),
            complex.solids@ == Map::<Seq<char>, Solid>::empty(),
        decreases 6 - f,
    {
        let mut round: Vec<EdgeId> = Vec::new();
        let mut p: usize = 0;
        while p < 4
            invariant
                f < 6,
                p <= 4,
                edge_ids@.len() == 12,
                forall|j: int|
                    0 <= j < 12 ==> (#[trigger] edge_ids@[j])@ == entity_id("edge"@, j as nat),
                round@.len() == p,
                forall|j: int|
                    0 <= j < p ==> (#[trigger] round@[j])@ == entity_id(
                        "edge"@,
                        box_face_edges()[f as int][j] as nat,
                    ),
            decreases 4 - p,
        {
            let at = box_face_edge(f, p);
            round.push(edge_ids[at].clone());
            p += 1;
        }
        let face = Face::new(round, FaceType::Planar);
        let ghost texts = edge_texts(face.boundary_edges@);
        let ghost before = complex.faces;
        proof {
            lemma_next_key("face"@, before.key_order(), f as nat);
            assert(texts =~= Seq::new(
                4,
                |j: int| entity_id("edge"@, box_face_edges()[f as int][j] as nat),
            ));
            assert(complex.edges@.contains_key(texts[0])) by {
                assert(texts[0] == entity_id("edge"@, box_face_edges()[f as int][0] as nat));
            }
            assert(complex.edges@.contains_key(texts[1])) by {
                assert(texts[1] == entity_id("edge"@, box_face_edges()[f as int][1] as nat));
            }
            assert(complex.edges@.contains_key(texts[2])) by {
                assert(texts[2] == entity_id("edge"@, box_face_edges()[f as int][2] as nat));
            }
            assert(complex.edges@.contains_key(texts[3])) by {
                assert(texts[3] == entity_id("edge"@, box_face_edges()[f as int][3] as nat));
            }
            reveal_with_fuel(known_run, 5);
            assert(known_run(texts, complex.edges@, 0) == 4);
        }
        match complex.add_face(face) {
            Ok(id) => {
                proof {
                    assert forall|j: int| 0 <= j < f + 1 implies {
                        let key = #[trigger] entity_id("face"@, j as nat);
                        let face = complex.faces@[key];
                        &&& complex.faces@.contains_key(key)
                        &&& edge_texts(face.boundary_edges@) == Seq::new(
                            4,
                            |a: int| entity_id("edge"@, box_face_edges()[j][a] as nat),
                        )
                        &&& face.face_type == FaceType::Planar
                        &&& face.surface is None
                        &&& face.area.bits == 0
                        &&& face.manufacturing_constraints@.len() == 0
                    } by {
                        if j < f {
                            lemma_entity_ids_differ("face"@, j as nat, f as nat);
                        }
                    }
                }
            },
            Err(e) => {
                return Err(e);
            },
        }
        f += 1;
    }
    Ok(complex)
}

} // verus!
