//! From the measures of a mesh to a manufacturability report.
//!
//! Measuring a mesh is arithmetic on coordinates and is done outside the
//! kernel. What the measures mean is decided here: each check holds one
//! measure against one limit and may add one finding to the report. Only a
//! finding about the integrity of the mesh is an error; all others advise.

use vstd::prelude::*;
use vstd::string::*;
use crate::scalar::Scalar;
use crate::types::{
    findings_of, ConstraintType, ConstraintViolation, Finding, ManufacturabilityReport, Measure,
    MeshData, PreviewMesh, ReportData, ViolationSeverity,
};

verus! {

/// The volume of a bounding box below which a part counts as very small:
/// the cube of half a millimetre, as a double.
pub const MIN_FEATURE_VOLUME_BITS: u64 = 0x3FC0_0000_0000_0000;

/// What was measured on a mesh.
#[derive(Debug, Clone, Copy, PartialEq, Eq)]
pub struct MeshMeasurements {
    /// The least length among the sampled triangle edges.
    pub min_edge_length: Scalar,
    /// The least side of the bounding box, where the mesh has one.
    pub min_dimension: Option<Scalar>,
    /// The greatest angle, in degrees, between a sampled normal and the
    /// vertical.
    pub max_overhang: Scalar,
    /// The volume of the bounding box, where the mesh has one.
    pub bbox_volume: Option<Scalar>,
    /// How many of the sampled triangles have next to no area.
    pub degenerate_triangles: usize,
    /// How many triangles were sampled.
    pub checked_triangles: usize,
}

/// The limits that an intent sets, by constraint type.
#[derive(Debug, Clone, Copy, PartialEq, Eq)]
pub struct ConstraintLimits {
    pub min_wall_thickness: Option<Scalar>,
    pub tool_diameter: Option<Scalar>,
    pub max_overhang: Option<Scalar>,
}

impl ConstraintLimits {
    /// The limit set for a constraint type. Process and material set none.
    pub open spec fn limit(self, type_: ConstraintType) -> Option<Scalar> {
        match type_ {
            ConstraintType::MinWallThickness => self.min_wall_thickness,
            ConstraintType::ToolDiameter => self.tool_diameter,
            ConstraintType::MaxOverhang => self.max_overhang,
            _ => None,
        }
    }

    /// The limits with one more set. A limit of another type than the
    /// three that are checked is not kept.
    pub open spec fn with(self, type_: ConstraintType, value: Scalar) -> ConstraintLimits {
        match type_ {
            ConstraintType::MinWallThickness => ConstraintLimits {
                min_wall_thickness: Some(value),
                ..self
            },
            ConstraintType::ToolDiameter => ConstraintLimits { tool_diameter: Some(value), ..self },
            ConstraintType::MaxOverhang => ConstraintLimits { max_overhang: Some(value), ..self },
            _ => self,
        }
    }

    /// No limit set.
    pub open spec fn none() -> ConstraintLimits {
        ConstraintLimits { min_wall_thickness: None, tool_diameter: None, max_overhang: None }
    }

    pub fn new() -> (limits: Self)
        ensures
            limits == ConstraintLimits::none(),
    {
        ConstraintLimits { min_wall_thickness: None, tool_diameter: None, max_overhang: None }
    }

    pub fn insert(&mut self, type_: ConstraintType, value: Scalar)
        ensures
            *final(self) == old(self).with(type_, value),
    {
        match type_ {
            ConstraintType::MinWallThickness => {
                self.min_wall_thickness = Some(value);
            },
            ConstraintType::ToolDiameter => {
                self.tool_diameter = Some(value);
            },
            ConstraintType::MaxOverhang => {
                self.max_overhang = Some(value);
            },
            _ => {},
        }
    }

    pub fn get(&self, type_: ConstraintType) -> (r: Option<Scalar>)
        ensures
            r == self.limit(type_),
    {
        match type_ {
            ConstraintType::MinWallThickness => self.min_wall_thickness,
            ConstraintType::ToolDiameter => self.tool_diameter,
            ConstraintType::MaxOverhang => self.max_overhang,
            _ => None,
        }
    }
}

/// A finding that advises.
pub open spec fn advice(
    type_: ConstraintType,
    severity: ViolationSeverity,
    message: Seq<char>,
    value: Scalar,
    limit: Scalar,
) -> Finding {
    Finding { type_, severity, message, value: Measure::Real(value), limit: Measure::Real(limit) }
}

/// Walls: the least sampled edge is shorter than the least thickness.
pub open spec fn wall_finding(
    mesh: MeshData,
    measured: MeshMeasurements,
    limits: ConstraintLimits,
) -> Option<Finding> {
    match limits.min_wall_thickness {
        Some(least) if mesh.vertices.len() > 0 && measured.min_edge_length.lt(least) => Some(
            advice(
                ConstraintType::MinWallThickness,
                ViolationSeverity::Warning,
                "Minimum edge length is below recommended thickness"@,
                measured.min_edge_length,
                least,
            ),
        ),
        _ => None,
    }
}

/// Tool: the least side of the bounding box is less than the tool is wide.
pub open spec fn tool_finding(
    mesh: MeshData,
    measured: MeshMeasurements,
    limits: ConstraintLimits,
) -> Option<Finding> {
    match (limits.tool_diameter, measured.min_dimension) {
        (Some(diameter), Some(side)) if mesh.vertices.len() > 0 && side.lt(diameter) => Some(
            advice(
                ConstraintType::ToolDiameter,
                ViolationSeverity::Warning,
                "Minimum dimension is smaller than tool diameter"@,
                side,
                diameter,
            ),
        ),
        _ => None,
    }
}

/// Overhang: the steepest sampled normal leans further than allowed.
pub open spec fn overhang_finding(
    mesh: MeshData,
    measured: MeshMeasurements,
    limits: ConstraintLimits,
) -> Option<Finding> {
    match limits.max_overhang {
        Some(most) if mesh.normals.len() > 0 && most.lt(measured.max_overhang) => Some(
            advice(
                ConstraintType::MaxOverhang,
                ViolationSeverity::Warning,
                "Maximum overhang exceeds limit. Consider adding supports."@,
                measured.max_overhang,
                most,
            ),
        ),
        _ => None,
    }
}

/// Size: the bounding box is smaller than the least feature.
pub open spec fn size_finding(mesh: MeshData, measured: MeshMeasurements) -> Option<Finding> {
    match measured.bbox_volume {
        Some(volume) if mesh.vertices.len() > 0 && volume.lt(
            Scalar { bits: MIN_FEATURE_VOLUME_BITS },
        ) => Some(
            advice(
                ConstraintType::MinWallThickness,
                ViolationSeverity::Info,
                "Part volume is very small. Verify feature size."@,
                volume,
                Scalar { bits: MIN_FEATURE_VOLUME_BITS },
            ),
        ),
        _ => None,
    }
}

/// A finding about counts.
pub open spec fn count_fault(message: Seq<char>, value: usize, limit: usize) -> Finding {
    Finding {
        type_: ConstraintType::MinWallThickness,
        severity: ViolationSeverity::Error,
        message,
        value: Measure::Count(value),
        limit: Measure::Count(limit),
    }
}

/// Integrity: the arrays have not the shape of a mesh, or more than a
/// tenth of the sampled triangles are degenerate.
pub open spec fn integrity_finding(mesh: MeshData, measured: MeshMeasurements) -> Option<Finding> {
    if mesh.vertices.len() % 3 != 0 {
        Some(count_fault("Vertex count is not a multiple of 3"@, mesh.vertices.len() as usize, 0))
    } else if mesh.indices.len() % 3 != 0 {
        Some(count_fault("Index count is not a multiple of 3"@, mesh.indices.len() as usize, 0))
    } else if mesh.normals.len() != mesh.vertices.len() {
        Some(
            count_fault(
                "Normal count does not match vertex count"@,
                mesh.normals.len() as usize,
                mesh.vertices.len() as usize,
            ),
        )
    } else if measured.degenerate_triangles > measured.checked_triangles / 10 {
        Some(
            count_fault(
                "Mesh contains too many degenerate triangles"@,
                measured.degenerate_triangles,
                measured.checked_triangles,
            ),
        )
    } else {
        None
    }
}

/// A sequence of none or one.
pub open spec fn listed(finding: Option<Finding>) -> Seq<Finding> {
    match finding {
        Some(f) => seq![f],
        None => Seq::empty(),
    }
}

/// The findings that advise, in the order of the checks.
pub open spec fn advisory_findings(
    mesh: MeshData,
    measured: MeshMeasurements,
    limits: ConstraintLimits,
) -> Seq<Finding> {
    listed(wall_finding(mesh, measured, limits)) + listed(tool_finding(mesh, measured, limits))
        + listed(overhang_finding(mesh, measured, limits)) + listed(size_finding(mesh, measured))
}

fn make_violation(
    type_: ConstraintType,
    severity: ViolationSeverity,
    message: &str,
    value: Measure,
    limit: Measure,
) -> (v: ConstraintViolation)
    ensures
        v@ == (Finding { type_, severity, message: message@, value, limit }),
{
    ConstraintViolation { type_, severity, message: String::from_str(message), value, limit }
}

pub fn check_wall_thickness(
    mesh: &PreviewMesh,
    measured: &MeshMeasurements,
    limits: &ConstraintLimits,
) -> (r: Option<ConstraintViolation>)
    ensures
        match r {
            Some(v) => wall_finding(mesh@, *measured, *limits) == Some(v@),
            None => wall_finding(mesh@, *measured, *limits) is None,
        },
{
    match limits.min_wall_thickness {
        Some(least) => {
            if mesh.vertices.len() > 0 && measured.min_edge_length.lt_exec(&least) {
                Some(
                    make_violation(
                        ConstraintType::MinWallThickness,
                        ViolationSeverity::Warning,
                        "Minimum edge length is below recommended thickness",
                        Measure::Real(measured.min_edge_length),
                        Measure::Real(least),
                    ),
                )
            } else {
                None
            }
        },
        None => None,
    }
}

pub fn check_tool_diameter(
    mesh: &PreviewMesh,
    measured: &MeshMeasurements,
    limits: &ConstraintLimits,
) -> (r: Option<ConstraintViolation>)
    ensures
        match r {
            Some(v) => tool_finding(mesh@, *measured, *limits) == Some(v@),
            None => tool_finding(mesh@, *measured, *limits) is None,
        },
{
    match (limits.tool_diameter, measured.min_dimension) {
        (Some(diameter), Some(side)) => {
            if mesh.vertices.len() > 0 && side.lt_exec(&diameter) {
                Some(
                    make_violation(
                        ConstraintType::ToolDiameter,
                        ViolationSeverity::Warning,
                        "Minimum dimension is smaller than tool diameter",
                        Measure::Real(side),
                        Measure::Real(diameter),
                    ),
                )
            } else {
                None
            }
        },
        _ => None,
    }
}

pub fn check_overhang_angle(
    mesh: &PreviewMesh,
    measured: &MeshMeasurements,
    limits: &ConstraintLimits,
) -> (r: Option<ConstraintViolation>)
    ensures
        match r {
            Some(v) => overhang_finding(mesh@, *measured, *limits) == Some(v@),
            None => overhang_finding(mesh@, *measured, *limits) is None,
        },
{
    match limits.max_overhang {
        Some(most) => {
            if mesh.normals.len() > 0 && most.lt_exec(&measured.max_overhang) {
                Some(
                    make_violation(
                        ConstraintType::MaxOverhang,
                        ViolationSeverity::Warning,
                        "Maximum overhang exceeds limit. Consider adding supports.",
                        Measure::Real(measured.max_overhang),
                        Measure::Real(most),
                    ),
                )
            } else {
                None
            }
        },
        None => None,
    }
}

pub fn check_feature_size(mesh: &PreviewMesh, measured: &MeshMeasurements) -> (r: Option<
    ConstraintViolation,
>)
    ensures
        match r {
            Some(v) => size_finding(mesh@, *measured) == Some(v@),
            None => size_finding(mesh@, *measured) is None,
        },
{
    let floor = Scalar::from_bits(MIN_FEATURE_VOLUME_BITS);
    match measured.bbox_volume {
        Some(volume) => {
            if mesh.vertices.len() > 0 && volume.lt_exec(&floor) {
                Some(
                    make_violation(
                        ConstraintType::MinWallThickness,
                        ViolationSeverity::Info,
                        "Part volume is very small. Verify feature size.",
                        Measure::Real(volume),
                        Measure::Real(floor),
                    ),
                )
            } else {
                None
            }
        },
        None => None,
    }
}

pub fn check_mesh_integrity(mesh: &PreviewMesh, measured: &MeshMeasurements) -> (r: Option<
    ConstraintViolation,
>)
    ensures
        match r {
            Some(v) => integrity_finding(mesh@, *measured) == Some(v@),
            None => integrity_finding(mesh@, *measured) is None,
        },
{
    if mesh.vertices.len() % 3 != 0 {
        return Some(
            make_violation(
                ConstraintType::MinWallThickness,
                ViolationSeverity::Error,
                "Vertex count is not a multiple of 3",
                Measure::Count(mesh.vertices.len()),
                Measure::Count(0),
            ),
        );
    }
    if mesh.indices.len() % 3 != 0 {
        return Some(
            make_violation(
                ConstraintType::MinWallThickness,
                ViolationSeverity::Error,
                "Index count is not a multiple of 3",
                Measure::Count(mesh.indices.len()),
                Measure::Count(0),
            ),
        );
    }
    if mesh.normals.len() != mesh.vertices.len() {
        return Some(
            make_violation(
                ConstraintType::MinWallThickness,
                ViolationSeverity::Error,
                "Normal count does not match vertex count",
                Measure::Count(mesh.normals.len()),
                Measure::Count(mesh.vertices.len()),
            ),
        );
    }
    if measured.degenerate_triangles > measured.checked_triangles / 10 {
        return Some(
            make_violation(
                ConstraintType::MinWallThickness,
                ViolationSeverity::Error,
                "Mesh contains too many degenerate triangles",
                Measure::Count(measured.degenerate_triangles),
                Measure::Count(measured.checked_triangles),
            ),
        );
    }
    None
}

fn push_finding(list: &mut Vec<ConstraintViolation>, found: Option<ConstraintViolation>, Ghost(
    finding,
): Ghost<Option<Finding>>)
    requires
        match found {
            Some(v) => finding == Some(v@),
            None => finding is None,
        },
    ensures
        findings_of(final(list)@) == findings_of(old(list)@) + listed(finding),
{
    let ghost before = findings_of(list@);
    match found {
        Some(v) => {
            list.push(v);
            assert(findings_of(list@) =~= before + listed(finding));
        },
        None => {
            assert(findings_of(list@) =~= before + listed(finding));
        },
    }
}

/// The report on a mesh with the given measures under the given limits.
pub open spec fn report_on(
    mesh: MeshData,
    measured: MeshMeasurements,
    limits: ConstraintLimits,
) -> ReportData {
    ReportData {
        valid: integrity_finding(mesh, measured) is None,
        violations: listed(integrity_finding(mesh, measured)),
        warnings: advisory_findings(mesh, measured, limits),
    }
}

/// A report is valid exactly where it holds no violation; its warnings
/// have no say in that.
pub proof fn lemma_validity_is_no_violation(
    mesh: MeshData,
    measured: MeshMeasurements,
    limits: ConstraintLimits,
)
    ensures
        report_on(mesh, measured, limits).valid <==> report_on(
            mesh,
            measured,
            limits,
        ).violations.len() == 0,
{
}

/// Holds the measures of a mesh against the limits and reports what was
/// found. The report is valid unless the mesh fails the integrity check.
pub fn validate_constraints(
    mesh: &PreviewMesh,
    measured: &MeshMeasurements,
    constraints: &ConstraintLimits,
) -> (report: ManufacturabilityReport)
    ensures
        report@ == report_on(mesh@, *measured, *constraints),
{
    let mut violations: Vec<ConstraintViolation> = Vec::new();
    let mut warnings: Vec<ConstraintViolation> = Vec::new();
    assert(findings_of(warnings@) =~= Seq::<Finding>::empty());
    assert(findings_of(violations@) =~= Seq::<Finding>::empty());
    push_finding(
        &mut warnings,
        check_wall_thickness(mesh, measured, constraints),
        Ghost(wall_finding(mesh@, *measured, *constraints)),
    );
    push_finding(
        &mut warnings,
        check_tool_diameter(mesh, measured, constraints),
        Ghost(tool_finding(mesh@, *measured, *constraints)),
    );
    push_finding(
        &mut warnings,
        check_overhang_angle(mesh, measured, constraints),
        Ghost(overhang_finding(mesh@, *measured, *constraints)),
    );
    push_finding(
        &mut warnings,
        check_feature_size(mesh, measured),
        Ghost(size_finding(mesh@, *measured)),
    );
    push_finding(
        &mut violations,
        check_mesh_integrity(mesh, measured),
        Ghost(integrity_finding(mesh@, *measured)),
    );
    assert(findings_of(warnings@) =~= advisory_findings(mesh@, *measured, *constraints));
    assert(findings_of(violations@) =~= listed(integrity_finding(mesh@, *measured)));
    let valid = violations.len() == 0;
    ManufacturabilityReport { valid, violations, warnings }
}

} // verus!
