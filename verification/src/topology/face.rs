//! Faces.
//!
//! The area of a face is measured outside the kernel and kept on the face;
//! whether the face can be made is decided here.

use vstd::prelude::*;
use vstd::string::*;
use crate::ir::feature::ManufacturingProcess;
use crate::scalar::Scalar;
use crate::string_map::StringMap;
use crate::topology::edge::DEFAULT_TOLERANCE;
use crate::topology::{EdgeId, FaceConstraintType, FaceOrientation, FaceType};

verus! {

/// The double 0.5: the least radius of a cylinder that a tool can reach.
pub const MIN_CYLINDER_RADIUS: u64 = 0x3FE0_0000_0000_0000;

/// The double 1.0: the least radius of a sphere that a tool can reach.
pub const MIN_SPHERE_RADIUS: u64 = 0x3FF0_0000_0000_0000;

/// The surface that a face lies on.
#[derive(Debug, Clone, PartialEq, Eq)]
pub enum FaceSurface {
    Plane { point: [Scalar; 3], normal: [Scalar; 3] },
    Cylinder { center: [Scalar; 3], axis: [Scalar; 3], radius: Scalar, height: Scalar },
    Sphere { center: [Scalar; 3], radius: Scalar },
    Cone { apex: [Scalar; 3], axis: [Scalar; 3], half_angle: Scalar },
    Parametric {
        u_range: [Scalar; 2],
        v_range: [Scalar; 2],
        control_points: Vec<Vec<[Scalar; 3]>>,
        u_degree: u32,
        v_degree: u32,
        u_knots: Vec<Scalar>,
        v_knots: Vec<Scalar>,
    },
}

/// A limit that manufacturing puts on a face.
#[derive(Debug, Clone)]
pub struct FaceConstraint {
    pub constraint_type: FaceConstraintType,
    pub parameters: StringMap<Scalar>,
    pub process: ManufacturingProcess,
}

impl FaceConstraint {
    /// Whether a face of the given kind and area meets the constraint: a
    /// least area is held against the area; a finish can be had on every
    /// face that is not freeform; a tool reaches planes and cylinders.
    pub open spec fn is_met(self, face_type: FaceType, area: Scalar) -> bool {
        match self.constraint_type {
            FaceConstraintType::MinArea => self.parameters@.contains_key("min_area"@)
                ==> self.parameters@["min_area"@].le(area),
            FaceConstraintType::SurfaceFinish => face_type != FaceType::Freeform,
            FaceConstraintType::DraftAngle => true,
            FaceConstraintType::ToolAccess => face_type == FaceType::Planar || face_type
                == FaceType::Cylindrical,
        }
    }

    fn with_parameter(
        constraint_type: FaceConstraintType,
        name: &str,
        value: Scalar,
        process: ManufacturingProcess,
    ) -> (c: Self)
        ensures
            c.constraint_type == constraint_type,
            c.parameters@ == Map::<Seq<char>, Scalar>::empty().insert(name@, value),
            c.process == process,
    {
        let mut parameters = StringMap::new();
        parameters.insert(String::from_str(name), value);
        FaceConstraint { constraint_type, parameters, process }
    }

    /// The least area of a face.
    pub fn min_area(area: Scalar, process: ManufacturingProcess) -> (c: Self)
        ensures
            c.constraint_type == FaceConstraintType::MinArea,
            c.parameters@ == Map::<Seq<char>, Scalar>::empty().insert("min_area"@, area),
            c.process == process,
    {
        FaceConstraint::with_parameter(FaceConstraintType::MinArea, "min_area", area, process)
    }

    /// The greatest roughness of a face.
    pub fn surface_finish(roughness: Scalar, process: ManufacturingProcess) -> (c: Self)
        ensures
            c.constraint_type == FaceConstraintType::SurfaceFinish,
            c.parameters@ == Map::<Seq<char>, Scalar>::empty().insert("max_roughness"@, roughness),
            c.process == process,
    {
        FaceConstraint::with_parameter(
            FaceConstraintType::SurfaceFinish,
            "max_roughness",
            roughness,
            process,
        )
    }

    /// The least draft of a face.
    pub fn draft_angle(angle: Scalar, process: ManufacturingProcess) -> (c: Self)
        ensures
            c.constraint_type == FaceConstraintType::DraftAngle,
            c.parameters@ == Map::<Seq<char>, Scalar>::empty().insert("min_draft_angle"@, angle),
            c.process == process,
    {
        FaceConstraint::with_parameter(
            FaceConstraintType::DraftAngle,
            "min_draft_angle",
            angle,
            process,
        )
    }

    pub fn is_satisfied(&self, face: &Face) -> (b: bool)
        ensures
            b == self.is_met(face.face_type, face.area),
    {
        match self.constraint_type {
            FaceConstraintType::MinArea => match self.parameters.get("min_area") {
                Some(least) => least.le_exec(&face.area),
                None => true,
            },
            FaceConstraintType::SurfaceFinish => match face.face_type {
                FaceType::Freeform => false,
                _ => true,
            },
            FaceConstraintType::DraftAngle => true,
            FaceConstraintType::ToolAccess => match face.face_type {
                FaceType::Planar | FaceType::Cylindrical => true,
                _ => false,
            },
        }
    }
}

/// A face bounded by edges.
#[derive(Debug, Clone)]
pub struct Face {
    pub boundary_edges: Vec<EdgeId>,
    pub face_type: FaceType,
    pub surface: Option<FaceSurface>,
    pub orientation: FaceOrientation,
    pub tolerance: Scalar,
    pub area: Scalar,
    pub manufacturing_constraints: Vec<FaceConstraint>,
    pub is_planar: bool,
    pub normal: Option<[Scalar; 3]>,
}

/// The ids that a sequence of edge ids holds.
pub open spec fn edge_texts(edges: Seq<EdgeId>) -> Seq<Seq<char>> {
    Seq::new(edges.len(), |i: int| edges[i]@)
}

/// The normal turned round.
pub open spec fn flipped(normal: Option<[Scalar; 3]>) -> Option<Seq<Scalar>> {
    match normal {
        Some(n) => Some(seq![n@[0].negated(), n@[1].negated(), n@[2].negated()]),
        None => None,
    }
}

/// The normal as a sequence.
pub open spec fn normal_of(normal: Option<[Scalar; 3]>) -> Option<Seq<Scalar>> {
    match normal {
        Some(n) => Some(n@),
        None => None,
    }
}

/// The other orientation.
pub open spec fn opposite(orientation: FaceOrientation) -> FaceOrientation {
    match orientation {
        FaceOrientation::Outward => FaceOrientation::Inward,
        FaceOrientation::Inward => FaceOrientation::Outward,
    }
}

/// Whether `after` is `before` turned round `odd`ly or evenly often: all
/// but orientation, the order of the edges and the normal is as it was;
/// those are as they were after an even number of turns, and the other way
/// round after an odd one.
pub open spec fn turned(before: Face, after: Face, odd: bool) -> bool {
    &&& after.face_type == before.face_type
    &&& after.surface == before.surface
    &&& after.tolerance == before.tolerance
    &&& after.area == before.area
    &&& after.manufacturing_constraints == before.manufacturing_constraints
    &&& after.is_planar == before.is_planar
    &&& if odd {
        &&& after.orientation == opposite(before.orientation)
        &&& edge_texts(after.boundary_edges@) == edge_texts(before.boundary_edges@).reverse()
        &&& normal_of(after.normal) == flipped(before.normal)
    } else {
        &&& after.orientation == before.orientation
        &&& edge_texts(after.boundary_edges@) == edge_texts(before.boundary_edges@)
        &&& normal_of(after.normal) == normal_of(before.normal)
    }
}

/// A face that was turned and is turned once more was turned the other
/// number of times.
pub proof fn lemma_turn_again(a: Face, b: Face, c: Face, odd: bool)
    requires
        turned(a, b, odd),
        turned(b, c, true),
    ensures
        turned(a, c, !odd),
{
    let texts = edge_texts(a.boundary_edges@);
    assert(texts.reverse().reverse() =~= texts);
    match a.normal {
        Some(n) => {
            assert(n@ =~= seq![n@[0], n@[1], n@[2]]);
            assert(n@[0].negated().negated() == n@[0]);
            assert(n@[1].negated().negated() == n@[1]);
            assert(n@[2].negated().negated() == n@[2]);
            let m = b.normal->Some_0;
            let k = c.normal->Some_0;
            assert(m@ =~= seq![m@[0], m@[1], m@[2]]);
            if odd {
                assert(k@ =~= n@);
            }
        },
        None => {},
    }
}

impl Face {
    /// Whether the face can be made: it meets its constraints, and it is a
    /// plane, or a cylinder or sphere that a tool can reach, or parametric.
    pub open spec fn can_be_made(self) -> bool {
        &&& forall|i: int|
            0 <= i < self.manufacturing_constraints@.len() ==> (
            #[trigger] self.manufacturing_constraints@[i]).is_met(self.face_type, self.area)
        &&& match self.face_type {
            FaceType::Planar => true,
            FaceType::Cylindrical => self.surface matches Some(
                FaceSurface::Cylinder { radius, .. },
            ) && (Scalar { bits: MIN_CYLINDER_RADIUS }).le(radius),
            FaceType::Spherical => self.surface matches Some(FaceSurface::Sphere { radius, .. })
                && (Scalar { bits: MIN_SPHERE_RADIUS }).le(radius),
            FaceType::Parametric => true,
            FaceType::Freeform => false,
        }
    }

    /// A face without a surface, facing outward, not yet measured.
    pub fn new(boundary_edges: Vec<EdgeId>, face_type: FaceType) -> (f: Self)
        ensures
            f.boundary_edges == boundary_edges,
            f.face_type == face_type,
            f.surface is None,
            f.orientation == FaceOrientation::Outward,
            f.tolerance.bits == DEFAULT_TOLERANCE,
            f.area.bits == 0,
            f.manufacturing_constraints@.len() == 0,
            f.is_planar == (face_type == FaceType::Planar),
            f.normal is None,
    {
        Face {
            boundary_edges,
            face_type,
            surface: None,
            orientation: FaceOrientation::Outward,
            tolerance: Scalar::from_bits(DEFAULT_TOLERANCE),
            area: Scalar::zero(),
            manufacturing_constraints: Vec::new(),
            is_planar: face_type == FaceType::Planar,
            normal: None,
        }
    }

    /// A face on a surface. A planar face on a plane takes the plane's
    /// normal.
    pub fn with_surface(boundary_edges: Vec<EdgeId>, face_type: FaceType, surface: FaceSurface) -> (f:
        Self)
        ensures
            f.boundary_edges == boundary_edges,
            f.face_type == face_type,
            f.surface == Some(surface),
            f.orientation == FaceOrientation::Outward,
            f.tolerance.bits == DEFAULT_TOLERANCE,
            f.area.bits == 0,
            f.manufacturing_constraints@.len() == 0,
            f.is_planar == (face_type == FaceType::Planar),
            f.normal == match surface {
                FaceSurface::Plane { normal, .. } if face_type == FaceType::Planar => Some(normal),
                _ => None,
            },
    {
        let is_planar = face_type == FaceType::Planar;
        let normal = if is_planar {
            match &surface {
                FaceSurface::Plane { normal, .. } => Some(*normal),
                _ => None,
            }
        } else {
            None
        };
        Face {
            boundary_edges,
            face_type,
            surface: Some(surface),
            orientation: FaceOrientation::Outward,
            tolerance: Scalar::from_bits(DEFAULT_TOLERANCE),
            area: Scalar::zero(),
            manufacturing_constraints: Vec::new(),
            is_planar,
            normal,
        }
    }

    /// Turns the face round: it faces the other way, its edges run in the
    /// opposite order, and its normal points the other way.
    pub fn reverse_orientation(&mut self)
        ensures
            turned(*old(self), *final(self), true),
    {
        self.orientation = match self.orientation {
            FaceOrientation::Outward => FaceOrientation::Inward,
            FaceOrientation::Inward => FaceOrientation::Outward,
        };
        let n = self.boundary_edges.len();
        let mut reversed: Vec<EdgeId> = Vec::new();
        let mut i: usize = 0;
        while i < n
            invariant
                n == self.boundary_edges@.len(),
                i <= n,
                reversed@.len() == i,
                forall|j: int|
                    0 <= j < i ==> (#[trigger] reversed@[j])@ == self.boundary_edges@[n - 1 - j]@,
            decreases n - i,
        {
            reversed.push(self.boundary_edges[n - 1 - i].clone());
            i += 1;
        }
        assert(edge_texts(reversed@) =~= edge_texts(self.boundary_edges@).reverse());
        self.boundary_edges = reversed;
        self.normal = match self.normal {
            Some(normal) => {
                let turned = [normal[0].negate(), normal[1].negate(), normal[2].negate()];
                assert(turned@ =~= seq![
                    normal@[0].negated(),
                    normal@[1].negated(),
                    normal@[2].negated(),
                ]);
                Some(turned)
            },
            None => None,
        };
    }

    /// Records the measured area.
    pub fn set_area(&mut self, area: Scalar)
        ensures
            final(self).area == area,
            final(self).boundary_edges == old(self).boundary_edges,
            final(self).face_type == old(self).face_type,
            final(self).surface == old(self).surface,
            final(self).orientation == old(self).orientation,
            final(self).tolerance == old(self).tolerance,
            final(self).manufacturing_constraints == old(self).manufacturing_constraints,
            final(self).is_planar == old(self).is_planar,
            final(self).normal == old(self).normal,
    {
        self.area = area;
    }

    pub fn is_manufacturable(&self) -> (b: bool)
        ensures
            b == self.can_be_made(),
    {
        let n = self.manufacturing_constraints.len();
        let mut i: usize = 0;
        while i < n
            invariant
                n == self.manufacturing_constraints@.len(),
                i <= n,
                forall|j: int|
                    0 <= j < i ==> (#[trigger] self.manufacturing_constraints@[j]).is_met(
                        self.face_type,
                        self.area,
                    ),
            decreases n - i,
        {
            if !self.manufacturing_constraints[i].is_satisfied(self) {
                return false;
            }
            i += 1;
        }
        match self.face_type {
            FaceType::Planar => true,
            FaceType::Cylindrical => match &self.surface {
                Some(FaceSurface::Cylinder { radius, .. }) => Scalar::from_bits(
                    MIN_CYLINDER_RADIUS,
                ).le_exec(radius),
                _ => false,
            },
            FaceType::Spherical => match &self.surface {
                Some(FaceSurface::Sphere { radius, .. }) => Scalar::from_bits(
                    MIN_SPHERE_RADIUS,
                ).le_exec(radius),
                _ => false,
            },
            FaceType::Parametric => true,
            FaceType::Freeform => false,
        }
    }

    pub fn add_constraint(&mut self, constraint: FaceConstraint)
        ensures
            final(self).manufacturing_constraints@ == old(self).manufacturing_constraints@.push(
                constraint,
            ),
            final(self).boundary_edges == old(self).boundary_edges,
            final(self).face_type == old(self).face_type,
            final(self).surface == old(self).surface,
            final(self).orientation == old(self).orientation,
            final(self).tolerance == old(self).tolerance,
            final(self).area == old(self).area,
            final(self).is_planar == old(self).is_planar,
            final(self).normal == old(self).normal,
    {
        self.manufacturing_constraints.push(constraint);
    }

    pub fn edge_count(&self) -> (n: usize)
        ensures
            n == self.boundary_edges@.len(),
    {
        self.boundary_edges.len()
    }

    /// Whether the edges can close a loop: there are at least three.
    pub fn is_valid_loop(&self) -> (b: bool)
        ensures
            b == (self.boundary_edges@.len() >= 3),
    {
        self.boundary_edges.len() >= 3
    }
}

} // verus!
