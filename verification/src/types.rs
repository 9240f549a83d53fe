//! The data that goes in and comes out: the intent as the host gives it,
//! triangle meshes, bounding boxes, and the result of a compilation.
//!
//! Coordinates of meshes are single-precision bit patterns; the kernel
//! moves them and counts them, it does not read them.

use vstd::prelude::*;
use vstd::string::*;
use crate::errors::{ErrorCode, Fault, KernelError, KernelResult};
use crate::scalar::Scalar;
use crate::string_map::StringMap;
use crate::text::str_eq;

verus! {

/// Kinds of primitive solid.
#[derive(Debug, Clone, Copy, PartialEq, Eq, Hash, Structural)]
pub enum PrimitiveType {
    Box,
    Cylinder,
    Sphere,
    Cone,
    Torus,
}

impl PrimitiveType {
    /// The name of the kind on the wire.
    pub open spec fn name(self) -> Seq<char> {
        match self {
            PrimitiveType::Box => "box"@,
            PrimitiveType::Cylinder => "cylinder"@,
            PrimitiveType::Sphere => "sphere"@,
            PrimitiveType::Cone => "cone"@,
            PrimitiveType::Torus => "torus"@,
        }
    }

    pub fn as_str(&self) -> (s: &'static str)
        ensures
            s@ == self.name(),
    {
        match self {
            PrimitiveType::Box => "box",
            PrimitiveType::Cylinder => "cylinder",
            PrimitiveType::Sphere => "sphere",
            PrimitiveType::Cone => "cone",
            PrimitiveType::Torus => "torus",
        }
    }

    /// The kind of the given name. A name that is none of the five is an
    /// unknown primitive.
    pub fn parse(name: &str) -> (r: KernelResult<PrimitiveType>)
        ensures
            match r {
                Ok(kind) => kind.name() == name@,
                Err(e) => (forall|kind: PrimitiveType| kind.name() != name@) && e.is_plain(
                    ErrorCode::UnknownPrimitive,
                    "Unknown primitive type: "@ + name@,
                ),
            },
    {
        if str_eq(name, "box") {
            Ok(PrimitiveType::Box)
        } else if str_eq(name, "cylinder") {
            Ok(PrimitiveType::Cylinder)
        } else if str_eq(name, "sphere") {
            Ok(PrimitiveType::Sphere)
        } else if str_eq(name, "cone") {
            Ok(PrimitiveType::Cone)
        } else if str_eq(name, "torus") {
            Ok(PrimitiveType::Torus)
        } else {
            Err(KernelError::unknown_primitive(name))
        }
    }
}

impl OperationType {
    /// The name of the operation on the wire.
    pub open spec fn name(self) -> Seq<char> {
        match self {
            OperationType::Union => "union"@,
            OperationType::Subtract => "subtract"@,
            OperationType::Intersect => "intersect"@,
            OperationType::Fillet => "fillet"@,
            OperationType::Hole => "hole"@,
            OperationType::Chamfer => "chamfer"@,
        }
    }

    pub fn as_str(&self) -> (s: &'static str)
        ensures
            s@ == self.name(),
    {
        match self {
            OperationType::Union => "union",
            OperationType::Subtract => "subtract",
            OperationType::Intersect => "intersect",
            OperationType::Fillet => "fillet",
            OperationType::Hole => "hole",
            OperationType::Chamfer => "chamfer",
        }
    }

    /// The operation of the given name. A name that is none of the six is
    /// an unknown operation.
    pub fn parse(name: &str) -> (r: KernelResult<OperationType>)
        ensures
            match r {
                Ok(kind) => kind.name() == name@,
                Err(e) => (forall|kind: OperationType| kind.name() != name@) && e.is_plain(
                    ErrorCode::UnknownOperation,
                    "Unknown operation type: "@ + name@,
                ),
            },
    {
        if str_eq(name, "union") {
            Ok(OperationType::Union)
        } else if str_eq(name, "subtract") {
            Ok(OperationType::Subtract)
        } else if str_eq(name, "intersect") {
            Ok(OperationType::Intersect)
        } else if str_eq(name, "fillet") {
            Ok(OperationType::Fillet)
        } else if str_eq(name, "hole") {
            Ok(OperationType::Hole)
        } else if str_eq(name, "chamfer") {
            Ok(OperationType::Chamfer)
        } else {
            Err(KernelError::unknown_operation(name))
        }
    }
}

/// Kinds of operation on solids.
#[derive(Debug, Clone, Copy, PartialEq, Eq, Hash, Structural)]
pub enum OperationType {
    Union,
    Subtract,
    Intersect,
    Fillet,
    Hole,
    Chamfer,
}

/// Kinds of manufacturing constraint.
#[derive(Debug, Clone, Copy, PartialEq, Eq, Hash, Structural)]
pub enum ConstraintType {
    MinWallThickness,
    ToolDiameter,
    MaxOverhang,
    Process,
    Material,
}

/// Where and how a primitive is placed. What is left out takes its
/// default: no move, no turn, unit scale.
#[derive(Debug, Clone, Copy, PartialEq, Eq)]
pub struct Transform {
    pub position: Option<[Scalar; 3]>,
    pub rotation: Option<[Scalar; 3]>,
    pub scale: Option<[Scalar; 3]>,
}

impl Transform {
    pub fn identity() -> (t: Self)
        ensures
            t.position matches Some(p) && forall|i: int| 0 <= i < 3 ==> p@[i].bits == 0,
            t.rotation matches Some(r) && forall|i: int| 0 <= i < 3 ==> r@[i].bits == 0,
            t.scale matches Some(s) && forall|i: int|
                0 <= i < 3 ==> s@[i].bits == 0x3FF0_0000_0000_0000,
    {
        Transform {
            position: Some([Scalar::zero(), Scalar::zero(), Scalar::zero()]),
            rotation: Some([Scalar::zero(), Scalar::zero(), Scalar::zero()]),
            scale: Some([Scalar::one(), Scalar::one(), Scalar::one()]),
        }
    }

    pub fn get_position(&self) -> (p: [Scalar; 3])
        ensures
            match self.position {
                Some(given) => p == given,
                None => forall|i: int| 0 <= i < 3 ==> p@[i].bits == 0,
            },
    {
        match self.position {
            Some(given) => given,
            None => [Scalar::zero(), Scalar::zero(), Scalar::zero()],
        }
    }

    pub fn get_rotation(&self) -> (r: [Scalar; 3])
        ensures
            match self.rotation {
                Some(given) => r == given,
                None => forall|i: int| 0 <= i < 3 ==> r@[i].bits == 0,
            },
    {
        match self.rotation {
            Some(given) => given,
            None => [Scalar::zero(), Scalar::zero(), Scalar::zero()],
        }
    }

    pub fn get_scale(&self) -> (s: [Scalar; 3])
        ensures
            match self.scale {
                Some(given) => s == given,
                None => forall|i: int| 0 <= i < 3 ==> s@[i].bits == 0x3FF0_0000_0000_0000,
            },
    {
        match self.scale {
            Some(given) => given,
            None => [Scalar::one(), Scalar::one(), Scalar::one()],
        }
    }
}

/// The request to make a primitive.
#[derive(Debug, Clone)]
pub struct PrimitiveIntent {
    pub id: String,
    pub type_: PrimitiveType,
    pub parameters: StringMap<Scalar>,
    pub transform: Option<Transform>,
    pub timestamp: Scalar,
}

/// The request to combine or modify what earlier requests made.
#[derive(Debug, Clone)]
pub struct OperationIntent {
    pub id: String,
    pub type_: OperationType,
    pub target: String,
    pub operand: Option<String>,
    /// Each parameter's value as JSON text.
    pub parameters: StringMap<String>,
    pub timestamp: Scalar,
}

/// One request of an intent.
#[derive(Debug, Clone)]
pub enum Intent {
    Primitive(PrimitiveIntent),
    Operation(OperationIntent),
}

/// The value of a manufacturing constraint: a number, or whatever else the
/// host wrote, as JSON text.
#[derive(Debug, Clone)]
pub enum ConstraintValue {
    Number(Scalar),
    Other(String),
}

/// A constraint that manufacturing puts on the part.
#[derive(Debug, Clone)]
pub struct ManufacturingConstraint {
    pub type_: ConstraintType,
    pub value: ConstraintValue,
}

/// The intent for one part: what to make, in order, and under which
/// constraints.
#[derive(Debug, Clone)]
pub struct GeometryIR {
    pub part: String,
    pub operations: Vec<Intent>,
    pub constraints: Vec<ManufacturingConstraint>,
}

/// A box with sides along the axes, by its least and greatest corner.
#[derive(Debug, Clone, Copy, PartialEq, Eq)]
pub struct BoundingBox {
    pub min: [Scalar; 3],
    pub max: [Scalar; 3],
}

impl BoundingBox {
    /// The point lies in the box, its faces included.
    pub open spec fn holds(self, point: [Scalar; 3]) -> bool {
        forall|i: int|
            0 <= i < 3 ==> self.min@[i].le(#[trigger] point@[i]) && point@[i].le(self.max@[i])
    }

    /// The two boxes have a point in common.
    pub open spec fn meets(self, other: BoundingBox) -> bool {
        forall|i: int|
            0 <= i < 3 ==> (#[trigger] self.min@[i]).le(other.max@[i]) && other.min@[i].le(
                self.max@[i],
            )
    }

    pub fn new(min: [Scalar; 3], max: [Scalar; 3]) -> (b: Self)
        ensures
            b.min == min,
            b.max == max,
    {
        BoundingBox { min, max }
    }

    /// The box that holds nothing: its least corner at plus infinity, its
    /// greatest at minus infinity.
    pub fn empty() -> (b: Self)
        ensures
            forall|i: int| 0 <= i < 3 ==> b.min@[i].bits == 0x7FF0_0000_0000_0000,
            forall|i: int| 0 <= i < 3 ==> b.max@[i].bits == 0xFFF0_0000_0000_0000,
    {
        let up = Scalar::from_bits(0x7FF0_0000_0000_0000);
        let down = Scalar::from_bits(0xFFF0_0000_0000_0000);
        BoundingBox { min: [up, up, up], max: [down, down, down] }
    }

    pub fn is_empty(&self) -> (e: bool)
        ensures
            e == self.max@[0].lt(self.min@[0]),
    {
        self.max[0].lt_exec(&self.min[0])
    }

    pub fn contains(&self, point: [Scalar; 3]) -> (c: bool)
        ensures
            c == self.holds(point),
    {
        let c = self.min[0].le_exec(&point[0]) && point[0].le_exec(&self.max[0])
            && self.min[1].le_exec(&point[1]) && point[1].le_exec(&self.max[1])
            && self.min[2].le_exec(&point[2]) && point[2].le_exec(&self.max[2]);
        proof {
            if c {
                assert forall|i: int| 0 <= i < 3 implies self.min@[i].le(#[trigger] point@[i])
                    && point@[i].le(self.max@[i]) by {
                    assert(i == 0 || i == 1 || i == 2);
                }
            } else {
                if self.holds(point) {
                    assert(self.min@[0].le(point@[0]) && point@[0].le(self.max@[0]));
                    assert(self.min@[1].le(point@[1]) && point@[1].le(self.max@[1]));
                    assert(self.min@[2].le(point@[2]) && point@[2].le(self.max@[2]));
                }
            }
        }
        c
    }

    pub fn intersects(&self, other: &BoundingBox) -> (c: bool)
        ensures
            c == self.meets(*other),
    {
        let c = self.min[0].le_exec(&other.max[0]) && other.min[0].le_exec(&self.max[0])
            && self.min[1].le_exec(&other.max[1]) && other.min[1].le_exec(&self.max[1])
            && self.min[2].le_exec(&other.max[2]) && other.min[2].le_exec(&self.max[2]);
        proof {
            if c {
                assert forall|i: int| 0 <= i < 3 implies (#[trigger] self.min@[i]).le(
                    other.max@[i],
                ) && other.min@[i].le(self.max@[i]) by {
                    assert(i == 0 || i == 1 || i == 2);
                }
            } else {
                if self.meets(*other) {
                    assert(self.min@[0].le(other.max@[0]) && other.min@[0].le(self.max@[0]));
                    assert(self.min@[1].le(other.max@[1]) && other.min@[1].le(self.max@[1]));
                    assert(self.min@[2].le(other.max@[2]) && other.min@[2].le(self.max@[2]));
                }
            }
        }
        c
    }
}

/// What a mesh holds, for contracts.
pub struct MeshData {
    pub vertices: Seq<u32>,
    pub indices: Seq<u32>,
    pub normals: Seq<u32>,
}

/// A triangle mesh: three coordinates per vertex, three vertex numbers per
/// triangle, and a normal per vertex.
#[derive(Debug, PartialEq, Eq)]
pub struct PreviewMesh {
    pub vertices: Vec<u32>,
    pub indices: Vec<u32>,
    pub normals: Vec<u32>,
}

impl View for PreviewMesh {
    type V = MeshData;

    open spec fn view(&self) -> MeshData {
        MeshData { vertices: self.vertices@, indices: self.indices@, normals: self.normals@ }
    }
}

impl Clone for PreviewMesh {
    fn clone(&self) -> (m: Self)
        ensures
            m@ == self@,
    {
        let m = PreviewMesh {
            vertices: self.vertices.clone(),
            indices: self.indices.clone(),
            normals: self.normals.clone(),
        };
        assert(m.vertices@ =~= self.vertices@);
        assert(m.indices@ =~= self.indices@);
        assert(m.normals@ =~= self.normals@);
        m
    }
}

impl MeshData {
    /// The arrays have the shape of a mesh: coordinates and indices come in
    /// threes, and there is a normal for every vertex.
    pub open spec fn is_structured(self) -> bool {
        &&& self.vertices.len() % 3 == 0
        &&& self.indices.len() % 3 == 0
        &&& self.normals.len() == self.vertices.len()
    }

    pub open spec fn empty() -> MeshData {
        MeshData { vertices: Seq::empty(), indices: Seq::empty(), normals: Seq::empty() }
    }

    /// What is wrong with the shape of the arrays, if anything: the
    /// vertices are looked at first, then the indices, then the normals.
    pub open spec fn shape_fault(self) -> Option<Fault> {
        if self.vertices.len() % 3 != 0 {
            Some(
                Fault {
                    code: ErrorCode::TopologyError,
                    message: "Vertex count must be multiple of 3"@,
                },
            )
        } else if self.indices.len() % 3 != 0 {
            Some(
                Fault {
                    code: ErrorCode::TopologyError,
                    message: "Index count must be multiple of 3"@,
                },
            )
        } else if self.normals.len() != self.vertices.len() {
            Some(
                Fault {
                    code: ErrorCode::TopologyError,
                    message: "Normal count must match vertex count"@,
                },
            )
        } else {
            None
        }
    }
}

impl PreviewMesh {
    pub fn new() -> (m: Self)
        ensures
            m@ == MeshData::empty(),
    {
        PreviewMesh { vertices: Vec::new(), indices: Vec::new(), normals: Vec::new() }
    }

    pub fn vertex_count(&self) -> (n: usize)
        ensures
            n == self@.vertices.len() / 3,
    {
        self.vertices.len() / 3
    }

    pub fn triangle_count(&self) -> (n: usize)
        ensures
            n == self@.indices.len() / 3,
    {
        self.indices.len() / 3
    }

    /// The three vertices of the `t`-th triangle, where the triangle is
    /// there and each of its indices names a vertex.
    pub fn triangle(&self, t: usize) -> (r: Option<(usize, usize, usize)>)
        ensures
            match r {
                Some((a, b, c)) => {
                    &&& 3 * t + 2 < self@.indices.len()
                    &&& a == self@.indices[3 * t]
                    &&& b == self@.indices[3 * t + 1]
                    &&& c == self@.indices[3 * t + 2]
                    &&& 3 * a + 2 < self@.vertices.len()
                    &&& 3 * b + 2 < self@.vertices.len()
                    &&& 3 * c + 2 < self@.vertices.len()
                },
                None => 3 * t + 2 >= self@.indices.len() || 3 * self@.indices[3 * t] + 2
                    >= self@.vertices.len() || 3 * self@.indices[3 * t + 1] + 2
                    >= self@.vertices.len() || 3 * self@.indices[3 * t + 2] + 2
                    >= self@.vertices.len(),
            },
    {
        let count = self.indices.len() / 3;
        if t >= count {
            return None;
        }
        let vertices = self.vertices.len() / 3;
        let a = self.indices[3 * t] as usize;
        let b = self.indices[3 * t + 1] as usize;
        let c = self.indices[3 * t + 2] as usize;
        if a >= vertices || b >= vertices || c >= vertices {
            return None;
        }
        Some((a, b, c))
    }

    /// Checks the shape of the arrays. The first fault found is reported:
    /// the vertices, then the indices, then the normals.
    pub fn is_valid(&self) -> (r: KernelResult<()>)
        ensures
            self@.is_structured() <==> self@.shape_fault() is None,
            match r {
                Ok(()) => self@.is_structured(),
                Err(e) => self@.shape_fault() matches Some(fault) && e.reports(fault),
            },
    {
        if self.vertices.len() % 3 != 0 {
            return Err(KernelError::topology_error("Vertex count must be multiple of 3"));
        }
        if self.indices.len() % 3 != 0 {
            return Err(KernelError::topology_error("Index count must be multiple of 3"));
        }
        if self.normals.len() != self.vertices.len() {
            return Err(KernelError::topology_error("Normal count must match vertex count"));
        }
        Ok(())
    }
}

/// Kinds of surface of a face.
#[derive(Debug, Clone, Copy, PartialEq, Eq, Structural)]
pub enum SurfaceType {
    Planar,
    Cylindrical,
    Spherical,
    Conical,
    Toroidal,
    NURBS,
}

/// A face of a boundary representation.
#[derive(Debug, Clone)]
pub struct Face {
    pub vertices: Vec<usize>,
    pub normal: [Scalar; 3],
    pub surface_type: SurfaceType,
}

/// A solid by its boundary: vertices, edges between them, and faces.
#[derive(Debug, Clone)]
pub struct CanonicalSolid {
    pub vertices: Vec<[Scalar; 3]>,
    pub edges: Vec<(usize, usize)>,
    pub faces: Vec<Face>,
    pub hash: String,
}

/// A STEP file and the number of its entities.
#[derive(Debug, Clone)]
pub struct StepExport {
    pub content: String,
    pub entity_count: usize,
}

/// How a compilation ended.
#[derive(Debug, Clone, Copy, PartialEq, Eq, Structural)]
pub enum CompileStatus {
    Compiled,
    Cached,
    Fallback,
    Error,
}

/// How grave a finding is.
#[derive(Debug, Clone, Copy, PartialEq, Eq, Structural)]
pub enum ViolationSeverity {
    Error,
    Warning,
    Info,
}

/// What was measured, or the limit it was held against: a real quantity
/// or a count.
#[derive(Debug, Clone, Copy, PartialEq, Eq, Structural)]
pub enum Measure {
    Real(Scalar),
    Count(usize),
}

/// A finding, for contracts.
pub struct Finding {
    pub type_: ConstraintType,
    pub severity: ViolationSeverity,
    pub message: Seq<char>,
    pub value: Measure,
    pub limit: Measure,
}

/// One finding of the manufacturability checks.
#[derive(Debug)]
pub struct ConstraintViolation {
    pub type_: ConstraintType,
    pub severity: ViolationSeverity,
    pub message: String,
    pub value: Measure,
    pub limit: Measure,
}

impl View for ConstraintViolation {
    type V = Finding;

    open spec fn view(&self) -> Finding {
        Finding {
            type_: self.type_,
            severity: self.severity,
            message: self.message@,
            value: self.value,
            limit: self.limit,
        }
    }
}

impl Clone for ConstraintViolation {
    fn clone(&self) -> (v: Self)
        ensures
            v@ == self@,
    {
        ConstraintViolation {
            type_: self.type_,
            severity: self.severity,
            message: self.message.clone(),
            value: self.value,
            limit: self.limit,
        }
    }
}

/// The findings that a sequence of violations holds.
pub open spec fn findings_of(violations: Seq<ConstraintViolation>) -> Seq<Finding> {
    Seq::new(violations.len(), |i: int| violations[i]@)
}

/// A report, for contracts.
pub struct ReportData {
    pub valid: bool,
    pub violations: Seq<Finding>,
    pub warnings: Seq<Finding>,
}

/// What the manufacturability checks found. The part is valid where no
/// finding is an error; warnings do not count.
#[derive(Debug)]
pub struct ManufacturabilityReport {
    pub valid: bool,
    pub violations: Vec<ConstraintViolation>,
    pub warnings: Vec<ConstraintViolation>,
}

impl View for ManufacturabilityReport {
    type V = ReportData;

    open spec fn view(&self) -> ReportData {
        ReportData {
            valid: self.valid,
            violations: findings_of(self.violations@),
            warnings: findings_of(self.warnings@),
        }
    }
}

impl Clone for ManufacturabilityReport {
    fn clone(&self) -> (r: Self)
        ensures
            r@ == self@,
    {
        let violations = self.violations.clone();
        let warnings = self.warnings.clone();
        assert(findings_of(violations@) =~= findings_of(self.violations@));
        assert(findings_of(warnings@) =~= findings_of(self.warnings@));
        ManufacturabilityReport { valid: self.valid, violations, warnings }
    }
}

/// Everything a compilation hands back.
#[derive(Debug, Clone)]
pub struct CompileResult {
    pub status: CompileStatus,
    pub intent_hash: String,
    pub mesh: Option<PreviewMesh>,
    pub step: Option<StepExport>,
    pub topology: Option<CanonicalSolid>,
    pub mfg_report: Option<ManufacturabilityReport>,
    pub error: Option<KernelError>,
}

/// Counts and measures of a mesh.
#[derive(Debug, Clone)]
pub struct MeshStatistics {
    pub vertex_count: usize,
    pub triangle_count: usize,
    pub edge_count: usize,
    pub bounds: BoundingBox,
    pub volume: Scalar,
    pub surface_area: Scalar,
}

} // verus!
