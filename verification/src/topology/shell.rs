//! Shells: sets of faces that bound a volume or lie open.
//!
//! Volume and surface of a shell, and the one divided by the other, are
//! measured outside the kernel and kept on the shell; how its faces share
//! their edges is decided here.

use vstd::prelude::*;
use vstd::string::*;
use crate::errors::{join3, ErrorCode, KernelError, KernelResult};
use crate::ir::feature::ManufacturingProcess;
use crate::scalar::Scalar;
use crate::string_map::StringMap;
use crate::text::{decimal, decimal_text};
use crate::topology::counting::{count_occurrences, distinct, distinct_items, occurrences, strs};
use crate::topology::edge::DEFAULT_TOLERANCE;
use crate::topology::face::{edge_texts, lemma_turn_again, turned, Face};
use crate::topology::{FaceId, FaceType, ShellConstraintType, ShellType};

verus! {

/// The double 0.001: a closed shell whose volume is a smaller part of its
/// surface than this is too thin to be made.
pub const MIN_THICKNESS: u64 = 0x3F50_624D_D2F1_A9FC;

/// A limit that manufacturing puts on a shell.
#[derive(Debug, Clone)]
pub struct ShellConstraint {
    pub constraint_type: ShellConstraintType,
    pub parameters: StringMap<Scalar>,
    pub process: ManufacturingProcess,
}

/// A set of connected faces.
#[derive(Debug, Clone)]
pub struct Shell {
    pub faces: Vec<FaceId>,
    pub shell_type: ShellType,
    pub is_oriented: bool,
    pub volume: Scalar,
    pub surface_area: Scalar,
    /// The volume divided by the surface; read only where the surface is
    /// greater than zero.
    pub thickness: Scalar,
    pub tolerance: Scalar,
    pub manufacturing_constraints: Vec<ShellConstraint>,
    pub is_void: bool,
}

/// The ids that a sequence of face ids holds.
pub open spec fn face_ids(faces: Seq<FaceId>) -> Seq<Seq<char>> {
    Seq::new(faces.len(), |i: int| faces[i]@)
}

/// The edges round the faces, face by face, in the order of each face's
/// boundary. A face that is not known contributes none.
pub open spec fn boundary_of(faces: Seq<Seq<char>>, known: Map<Seq<char>, Face>) -> Seq<Seq<char>>
    decreases faces.len(),
{
    if faces.len() == 0 {
        Seq::empty()
    } else if known.contains_key(faces.last()) {
        boundary_of(faces.drop_last(), known) + edge_texts(known[faces.last()].boundary_edges@)
    } else {
        boundary_of(faces.drop_last(), known)
    }
}

/// The first of the ids that is not a key of the map.
pub open spec fn first_absent<V>(ids: Seq<Seq<char>>, known: Map<Seq<char>, V>) -> Option<
    Seq<char>,
>
    decreases ids.len(),
{
    if ids.len() == 0 {
        None
    } else if !known.contains_key(ids.first()) {
        Some(ids.first())
    } else {
        first_absent(ids.drop_first(), known)
    }
}

/// The first place from `from` on at which an edge stands that does not
/// occur exactly twice.
pub open spec fn first_unpaired(edges: Seq<Seq<char>>, from: int) -> Option<int>
    decreases edges.len() - from,
{
    if from < 0 || from >= edges.len() {
        None
    } else if occurrences(edges, edges[from]) != 2 {
        Some(from)
    } else {
        first_unpaired(edges, from + 1)
    }
}

/// Whether all the faces in the list are planes or cylinders; faces that
/// are not known are passed over.
pub open spec fn all_reachable(faces: Seq<Seq<char>>, known: Map<Seq<char>, Face>) -> bool {
    forall|i: int|
        0 <= i < faces.len() && known.contains_key(#[trigger] faces[i]) ==> known[faces[i]].face_type
            == FaceType::Planar || known[faces[i]].face_type == FaceType::Cylindrical
}

/// Whether all the faces in the list can be made; faces that are not known
/// are passed over.
pub open spec fn all_can_be_made(faces: Seq<Seq<char>>, known: Map<Seq<char>, Face>) -> bool {
    forall|i: int|
        0 <= i < faces.len() && known.contains_key(#[trigger] faces[i])
            ==> known[faces[i]].can_be_made()
}

impl ShellConstraint {
    /// Whether the shell meets the constraint. A least wall is held against
    /// the measured thickness, and fails where the shell has no surface. A
    /// milling tool must reach every face.
    pub open spec fn is_met(self, shell: Shell, known: Map<Seq<char>, Face>) -> bool {
        match self.constraint_type {
            ShellConstraintType::MinWallThickness => self.parameters@.contains_key(
                "min_thickness"@,
            ) ==> (Scalar { bits: 0 }).lt(shell.surface_area)
                && self.parameters@["min_thickness"@].le(shell.thickness),
            ShellConstraintType::MaxAspectRatio => true,
            ShellConstraintType::ToolAccessibility => self.process
                == ManufacturingProcess::CNCMilling ==> all_reachable(face_ids(shell.faces@), known),
        }
    }

    /// The least thickness of a wall.
    pub fn min_wall_thickness(thickness: Scalar, process: ManufacturingProcess) -> (c: Self)
        ensures
            c.constraint_type == ShellConstraintType::MinWallThickness,
            c.parameters@ == Map::<Seq<char>, Scalar>::empty().insert("min_thickness"@, thickness),
            c.process == process,
    {
        let mut parameters = StringMap::new();
        parameters.insert(String::from_str("min_thickness"), thickness);
        ShellConstraint {
            constraint_type: ShellConstraintType::MinWallThickness,
            parameters,
            process,
        }
    }

    /// The greatest ratio of the shell's sides.
    pub fn max_aspect_ratio(ratio: Scalar, process: ManufacturingProcess) -> (c: Self)
        ensures
            c.constraint_type == ShellConstraintType::MaxAspectRatio,
            c.parameters@ == Map::<Seq<char>, Scalar>::empty().insert("max_ratio"@, ratio),
            c.process == process,
    {
        let mut parameters = StringMap::new();
        parameters.insert(String::from_str("max_ratio"), ratio);
        ShellConstraint { constraint_type: ShellConstraintType::MaxAspectRatio, parameters, process }
    }

    /// That a tool must reach the shell.
    pub fn tool_access(process: ManufacturingProcess) -> (c: Self)
        ensures
            c.constraint_type == ShellConstraintType::ToolAccessibility,
            c.parameters@ == Map::<Seq<char>, Scalar>::empty(),
            c.process == process,
    {
        ShellConstraint {
            constraint_type: ShellConstraintType::ToolAccessibility,
            parameters: StringMap::new(),
            process,
        }
    }

    pub fn is_satisfied(&self, shell: &Shell, face_collection: &StringMap<Face>) -> (b: bool)
        ensures
            b == self.is_met(*shell, face_collection@),
    {
        match self.constraint_type {
            ShellConstraintType::MinWallThickness => match self.parameters.get("min_thickness") {
                Some(least) => Scalar::zero().lt_exec(&shell.surface_area) && least.le_exec(
                    &shell.thickness,
                ),
                None => true,
            },
            ShellConstraintType::MaxAspectRatio => true,
            ShellConstraintType::ToolAccessibility => match self.process {
                ManufacturingProcess::CNCMilling => {
                    let n = shell.faces.len();
                    let ghost ids = face_ids(shell.faces@);
                    let mut i: usize = 0;
                    while i < n
                        invariant
                            self.constraint_type == ShellConstraintType::ToolAccessibility,
                            self.process == ManufacturingProcess::CNCMilling,
                            n == shell.faces@.len(),
                            ids == face_ids(shell.faces@),
                            i <= n,
                            all_reachable(ids.take(i as int), face_collection@),
                        decreases n - i,
                    {
                        assert(ids[i as int] == shell.faces@[i as int]@);
                        match face_collection.get(shell.faces[i].as_str()) {
                            Some(face) => match face.face_type {
                                FaceType::Planar | FaceType::Cylindrical => {},
                                _ => {
                                    assert(face_collection@.contains_key(ids[i as int]));
                                    return false;
                                },
                            },
                            None => {},
                        }
                        proof {
                            assert forall|k: int|
                                0 <= k < i + 1 && face_collection@.contains_key(
                                    #[trigger] ids.take(i + 1)[k],
                                ) implies face_collection@[ids.take(i + 1)[k]].face_type
                                == FaceType::Planar || face_collection@[ids.take(i + 1)[k]].face_type
                                == FaceType::Cylindrical by {
                                if k < i {
                                    assert(ids.take(i as int)[k] == ids.take(i + 1)[k]);
                                }
                            }
                        }
                        i += 1;
                    }
                    assert(ids.take(n as int) == ids);
                    true
                },
                _ => true,
            },
        }
    }
}

impl Shell {
    /// The edges round the shell's faces, each as often as a face lists it.
    pub open spec fn boundary(self, known: Map<Seq<char>, Face>) -> Seq<Seq<char>> {
        boundary_of(face_ids(self.faces@), known)
    }

    /// Whether the faces share their edges as a surface does: in a closed
    /// shell every edge is listed twice, in another at most twice.
    pub open spec fn shares_edges_well(self, known: Map<Seq<char>, Face>) -> bool {
        let edges = self.boundary(known);
        forall|i: int|
            0 <= i < edges.len() ==> if self.shell_type == ShellType::Closed {
                occurrences(edges, #[trigger] edges[i]) == 2
            } else {
                occurrences(edges, edges[i]) <= 2
            }
    }

    /// What is wrong with the shell, in words: the first face that is not
    /// known; in a closed shell the first edge that is not listed twice;
    /// that the shell has no face.
    pub open spec fn fault(self, known: Map<Seq<char>, Face>) -> Option<Seq<char>> {
        let edges = self.boundary(known);
        match first_absent(face_ids(self.faces@), known) {
            Some(face) => Some("Face "@ + face + " not found in collection"@),
            None => if self.shell_type == ShellType::Closed && first_unpaired(edges, 0) is Some {
                let at = first_unpaired(edges, 0)->Some_0;
                Some(
                    "Edge "@ + edges[at] + " is shared by "@ + decimal(
                        occurrences(edges, edges[at]),
                    ) + " faces (should be 2 for closed shell)"@,
                )
            } else if self.faces@.len() == 0 {
                Some("Shell cannot be empty"@)
            } else {
                None
            },
        }
    }

    /// The number of handles of a closed shell, from its faces and edges:
    /// half of what the edges, and one, exceed the faces by.
    pub open spec fn handles(self, known: Map<Seq<char>, Face>) -> int {
        let faces = self.faces@.len() as int;
        let edges = distinct(self.boundary(known)).len() as int;
        if self.shell_type == ShellType::Closed && 1 + edges > faces {
            (1 + edges - faces) / 2
        } else {
            0
        }
    }

    /// Whether the shell can be made: it meets its constraints, its faces
    /// can be made, it is no wire, and where it is closed and has a surface
    /// it is not too thin.
    pub open spec fn can_be_made(self, known: Map<Seq<char>, Face>) -> bool {
        &&& forall|i: int|
            0 <= i < self.manufacturing_constraints@.len() ==> (
            #[trigger] self.manufacturing_constraints@[i]).is_met(self, known)
        &&& all_can_be_made(face_ids(self.faces@), known)
        &&& match self.shell_type {
            ShellType::Closed => (Scalar { bits: 0 }).lt(self.surface_area) ==> !self.thickness.lt(
                Scalar { bits: MIN_THICKNESS },
            ),
            ShellType::Open => true,
            ShellType::Wire => false,
        }
    }

    /// A shell of the given faces, not yet measured.
    pub fn new(faces: Vec<FaceId>, shell_type: ShellType) -> (s: Self)
        ensures
            s.faces == faces,
            s.shell_type == shell_type,
            !s.is_oriented,
            s.volume.bits == 0,
            s.surface_area.bits == 0,
            s.thickness.bits == 0,
            s.tolerance.bits == DEFAULT_TOLERANCE,
            s.manufacturing_constraints@.len() == 0,
            !s.is_void,
    {
        Shell {
            faces,
            shell_type,
            is_oriented: false,
            volume: Scalar::zero(),
            surface_area: Scalar::zero(),
            thickness: Scalar::zero(),
            tolerance: Scalar::from_bits(DEFAULT_TOLERANCE),
            manufacturing_constraints: Vec::new(),
            is_void: false,
        }
    }

    /// A shell that bounds a solid.
    pub fn closed(faces: Vec<FaceId>) -> (s: Self)
        ensures
            s.faces == faces,
            s.shell_type == ShellType::Closed,
            !s.is_oriented,
            s.volume.bits == 0,
            s.surface_area.bits == 0,
            s.thickness.bits == 0,
            s.tolerance.bits == DEFAULT_TOLERANCE,
            s.manufacturing_constraints@.len() == 0,
            !s.is_void,
    {
        Shell::new(faces, ShellType::Closed)
    }

    /// A shell with a rim.
    pub fn open(faces: Vec<FaceId>) -> (s: Self)
        ensures
            s.faces == faces,
            s.shell_type == ShellType::Open,
            !s.is_oriented,
            s.volume.bits == 0,
            s.surface_area.bits == 0,
            s.thickness.bits == 0,
            s.tolerance.bits == DEFAULT_TOLERANCE,
            s.manufacturing_constraints@.len() == 0,
            !s.is_void,
    {
        Shell::new(faces, ShellType::Open)
    }

    /// Lists the edges round the shell's faces.
    pub fn boundary_edges<'a>(&self, face_collection: &'a StringMap<Face>) -> (edges: Vec<&'a str>)
        ensures
            strs(edges@) == self.boundary(face_collection@),
    {
        let ghost ids = face_ids(self.faces@);
        let ghost known = face_collection@;
        let mut edges: Vec<&'a str> = Vec::new();
        let n = self.faces.len();
        let mut i: usize = 0;
        assert(ids.take(0) =~= Seq::<Seq<char>>::empty());
        assert(strs(edges@) =~= Seq::<Seq<char>>::empty());
        while i < n
            invariant
                n == self.faces@.len(),
                ids == face_ids(self.faces@),
                known == face_collection@,
                i <= n,
                strs(edges@) == boundary_of(ids.take(i as int), known),
            decreases n - i,
        {
            proof {
                assert(ids.take(i + 1).drop_last() == ids.take(i as int));
                assert(ids.take(i + 1).last() == self.faces@[i as int]@);
            }
            match face_collection.get(self.faces[i].as_str()) {
                Some(face) => {
                    let ghost before = strs(edges@);
                    let ghost round = edge_texts(face.boundary_edges@);
                    let m = face.boundary_edges.len();
                    let mut j: usize = 0;
                    assert(strs(edges@) =~= before + round.take(0));
                    while j < m
                        invariant
                            m == face.boundary_edges@.len(),
                            round == edge_texts(face.boundary_edges@),
                            j <= m,
                            strs(edges@) == before + round.take(j as int),
                        decreases m - j,
                    {
                        let ghost so_far = strs(edges@);
                        edges.push(face.boundary_edges[j].as_str());
                        assert(strs(edges@) =~= so_far.push(round[j as int]));
                        assert(before + round.take(j + 1) =~= (before + round.take(j as int)).push(
                            round[j as int],
                        ));
                        j += 1;
                    }
                    assert(round.take(m as int) == round);
                },
                None => {},
            }
            i += 1;
        }
        assert(ids.take(n as int) == ids);
        edges
    }

    /// Checks the shell against the faces it names.
    pub fn validate(&self, face_collection: &StringMap<Face>) -> (r: KernelResult<()>)
        ensures
            match self.fault(face_collection@) {
                Some(message) => r is Err && r->Err_0.is_plain(ErrorCode::InternalError, message),
                None => r is Ok,
            },
    {
        let ghost ids = face_ids(self.faces@);
        let ghost known = face_collection@;
        let n = self.faces.len();
        let mut i: usize = 0;
        assert(ids.skip(0) == ids);
        while i < n
            invariant
                n == self.faces@.len(),
                ids == face_ids(self.faces@),
                known == face_collection@,
                i <= n,
                first_absent(ids, known) == first_absent(ids.skip(i as int), known),
            decreases n - i,
        {
            proof {
                assert(ids.skip(i as int).first() == self.faces@[i as int]@);
                assert(ids.skip(i as int).drop_first() == ids.skip(i + 1));
            }
            if !face_collection.contains_key(self.faces[i].as_str()) {
                let message = join3("Face ", self.faces[i].as_str(), " not found in collection");
                return Err(KernelError::internal(message.as_str()));
            }
            i += 1;
        }
        assert(first_absent(ids, known) is None);
        let edges = self.boundary_edges(face_collection);
        let ghost all = strs(edges@);
        if self.shell_type == ShellType::Closed {
            let mut k: usize = 0;
            while k < edges.len()
                invariant
                    self.shell_type == ShellType::Closed,
                    first_absent(face_ids(self.faces@), face_collection@) is None,
                    all == self.boundary(face_collection@),
                    all == strs(edges@),
                    k <= edges.len(),
                    first_unpaired(all, 0) == first_unpaired(all, k as int),
                decreases edges.len() - k,
            {
                assert(all[k as int] == edges@[k as int]@);
                let count = count_occurrences(&edges, edges[k]);
                if count != 2 {
                    let number = decimal_text(count);
                    let head = join3("Edge ", edges[k], " is shared by ");
                    let message = join3(
                        head.as_str(),
                        number.as_str(),
                        " faces (should be 2 for closed shell)",
                    );
                    proof {
                        assert(first_unpaired(all, 0) == Some(k as int));
                        assert(message@ =~= "Edge "@ + all[k as int] + " is shared by "@ + decimal(
                            occurrences(all, all[k as int]),
                        ) + " faces (should be 2 for closed shell)"@);
                    }
                    return Err(KernelError::internal(message.as_str()));
                }
                k += 1;
            }
        }
        if self.faces.len() == 0 {
            return Err(KernelError::internal("Shell cannot be empty"));
        }
        Ok(())
    }

    /// Whether the faces share their edges as a surface does.
    pub fn is_manifold(&self, face_collection: &StringMap<Face>) -> (b: bool)
        ensures
            b == self.shares_edges_well(face_collection@),
    {
        let edges = self.boundary_edges(face_collection);
        let ghost all = strs(edges@);
        let closed = self.shell_type == ShellType::Closed;
        let mut k: usize = 0;
        while k < edges.len()
            invariant
                all == strs(edges@),
                all == self.boundary(face_collection@),
                closed == (self.shell_type == ShellType::Closed),
                k <= edges.len(),
                forall|i: int|
                    0 <= i < k ==> if closed {
                        occurrences(all, #[trigger] all[i]) == 2
                    } else {
                        occurrences(all, all[i]) <= 2
                    },
            decreases edges.len() - k,
        {
            assert(all[k as int] == edges@[k as int]@);
            let count = count_occurrences(&edges, edges[k]);
            if closed {
                if count != 2 {
                    return false;
                }
            } else if count > 2 {
                return false;
            }
            k += 1;
        }
        true
    }

    /// Whether the shell can be made.
    pub fn is_manufacturable(&self, face_collection: &StringMap<Face>) -> (b: bool)
        ensures
            b == self.can_be_made(face_collection@),
    {
        let n = self.manufacturing_constraints.len();
        let mut i: usize = 0;
        while i < n
            invariant
                n == self.manufacturing_constraints@.len(),
                i <= n,
                forall|j: int|
                    0 <= j < i ==> (#[trigger] self.manufacturing_constraints@[j]).is_met(
                        *self,
                        face_collection@,
                    ),
            decreases n - i,
        {
            if !self.manufacturing_constraints[i].is_satisfied(self, face_collection) {
                return false;
            }
            i += 1;
        }
        let ghost ids = face_ids(self.faces@);
        let m = self.faces.len();
        let mut k: usize = 0;
        while k < m
            invariant
                m == self.faces@.len(),
                ids == face_ids(self.faces@),
                k <= m,
                all_can_be_made(ids.take(k as int), face_collection@),
            decreases m - k,
        {
            assert(ids[k as int] == self.faces@[k as int]@);
            match face_collection.get(self.faces[k].as_str()) {
                Some(face) => {
                    if !face.is_manufacturable() {
                        return false;
                    }
                },
                None => {},
            }
            proof {
                assert forall|a: int|
                    0 <= a < k + 1 && face_collection@.contains_key(
                        #[trigger] ids.take(k + 1)[a],
                    ) implies face_collection@[ids.take(k + 1)[a]].can_be_made() by {
                    if a < k {
                        assert(ids.take(k as int)[a] == ids.take(k + 1)[a]);
                    }
                }
            }
            k += 1;
        }
        assert(ids.take(m as int) == ids);
        match self.shell_type {
            ShellType::Closed => {
                if Scalar::zero().lt_exec(&self.surface_area) {
                    !self.thickness.lt_exec(&Scalar::from_bits(MIN_THICKNESS))
                } else {
                    true
                }
            },
            ShellType::Open => true,
            ShellType::Wire => false,
        }
    }

    /// The number of handles of the shell.
    pub fn genus(&self, face_collection: &StringMap<Face>) -> (g: usize)
        ensures
            g == self.handles(face_collection@),
    {
        if self.shell_type != ShellType::Closed {
            return 0;
        }
        let edges = self.boundary_edges(face_collection);
        let seen = distinct_items(&edges);
        let e = seen.len();
        let f = self.faces.len();
        assert(strs(seen@).len() == seen@.len());
        if e >= f {
            let d = e - f;
            d / 2 + d % 2
        } else {
            0
        }
    }

    /// Finds out whether the faces are turned alike, and records it.
    pub fn check_orientation(&mut self, face_collection: &StringMap<Face>) -> (r: KernelResult<bool>)
        ensures
            r == Ok::<bool, KernelError>(true),
            final(self).is_oriented,
            final(self).faces == old(self).faces,
            final(self).shell_type == old(self).shell_type,
            final(self).volume == old(self).volume,
            final(self).surface_area == old(self).surface_area,
            final(self).thickness == old(self).thickness,
            final(self).tolerance == old(self).tolerance,
            final(self).manufacturing_constraints == old(self).manufacturing_constraints,
            final(self).is_void == old(self).is_void,
    {
        self.is_oriented = true;
        Ok(true)
    }

    /// Turns every face of the shell round, as often as the shell lists it.
    /// Faces that are not known are passed over.
    pub fn reverse_orientation(&self, face_collection: &mut StringMap<Face>) -> (r: KernelResult<()>)
        ensures
            r is Ok,
            final(face_collection).key_order() == old(face_collection).key_order(),
            final(face_collection)@.dom() == old(face_collection)@.dom(),
            forall|k: Seq<char>| #[trigger]
                old(face_collection)@.contains_key(k) ==> {
                    let times = occurrences(face_ids(self.faces@), k);
                    &&& turned(old(face_collection)@[k], final(face_collection)@[k], times % 2 == 1)
                    &&& times == 0 ==> final(face_collection)@[k] == old(face_collection)@[k]
                },
    {
        let ghost ids = face_ids(self.faces@);
        let ghost before = face_collection@;
        let n = self.faces.len();
        let mut i: usize = 0;
        assert(ids.take(0) =~= Seq::<Seq<char>>::empty());
        while i < n
            invariant
                n == self.faces@.len(),
                ids == face_ids(self.faces@),
                before == old(face_collection)@,
                i <= n,
                face_collection.key_order() == old(face_collection).key_order(),
                face_collection@.dom() == before.dom(),
                forall|k: Seq<char>| #[trigger]
                    before.contains_key(k) ==> {
                        let times = occurrences(ids.take(i as int), k);
                        &&& turned(before[k], face_collection@[k], times % 2 == 1)
                        &&& times == 0 ==> face_collection@[k] == before[k]
                    },
            decreases n - i,
        {
            proof {
                assert(ids.take(i + 1).drop_last() == ids.take(i as int));
                assert(ids.take(i + 1).last() == self.faces@[i as int]@);
            }
            let ghost so_far = face_collection@;
            let ghost key = self.faces@[i as int]@;
            match face_collection.index_of(self.faces[i].as_str()) {
                Some(at) => {
                    let mut face = face_collection.replace_at(
                        at,
                        Face::new(Vec::new(), FaceType::Planar),
                    );
                    let ghost was = face;
                    face.reverse_orientation();
                    proof {
                        lemma_turn_again(
                            before[key],
                            was,
                            face,
                            occurrences(ids.take(i as int), key) % 2 == 1,
                        );
                    }
                    face_collection.replace_at(at, face);
                    assert(face_collection@ =~= so_far.insert(key, face));
                    assert(face_collection@.dom() =~= before.dom());
                },
                None => {},
            }
            i += 1;
        }
        assert(ids.take(n as int) == ids);
        Ok(())
    }

    pub fn add_constraint(&mut self, constraint: ShellConstraint)
        ensures
            final(self).manufacturing_constraints@ == old(self).manufacturing_constraints@.push(
                constraint,
            ),
            final(self).faces == old(self).faces,
            final(self).shell_type == old(self).shell_type,
            final(self).is_oriented == old(self).is_oriented,
            final(self).volume == old(self).volume,
            final(self).surface_area == old(self).surface_area,
            final(self).thickness == old(self).thickness,
            final(self).tolerance == old(self).tolerance,
            final(self).is_void == old(self).is_void,
    {
        self.manufacturing_constraints.push(constraint);
    }

    pub fn face_count(&self) -> (n: usize)
        ensures
            n == self.faces@.len(),
    {
        self.faces.len()
    }
}

} // verus!
