//! Kinds of parametric feature, and the constraints that manufacturing
//! puts on them.

use vstd::prelude::*;
use vstd::string::*;
use crate::errors::{ErrorCode, KernelError, KernelResult};
use crate::ir::node::{NodeId, Transform};
use crate::scalar::Scalar;
use crate::string_map::StringMap;

verus! {

/// Kinds of parametric feature.
#[derive(Debug, Clone, Copy, PartialEq, Eq, Structural)]
pub enum FeatureType {
    Extrude,
    Revolve,
    Hole,
    Fillet,
    Chamfer,
    Shell,
    Draft,
    Pattern,
    Mirror,
    Sweep,
    Loft,
}

/// Kinds of constraint on a feature.
#[derive(Debug, Clone, Copy, PartialEq, Eq, Structural)]
pub enum ConstraintType {
    MinFeatureSize,
    MaxAspectRatio,
    DraftAngle,
    WallThickness,
}

/// Ways of making a part.
#[derive(Debug, Clone, Copy, PartialEq, Eq, Structural)]
pub enum ManufacturingProcess {
    CNCMilling,
    CNCTurning,
    Printing3D,
    InjectionMolding,
    DieCasting,
    SheetMetal,
}

/// Grades of tolerance, from the finest to the coarsest.
#[derive(Debug, Clone, Copy, PartialEq, Eq, Structural)]
pub enum ToleranceGrade {
    IT5,
    IT6,
    IT7,
    IT8,
    IT9,
    IT10,
    IT11,
}

impl ConstraintType {
    /// The parameter that a constraint of this type must have.
    pub open spec fn required_parameter(self) -> Seq<char> {
        match self {
            ConstraintType::MinFeatureSize => "min_size"@,
            ConstraintType::MaxAspectRatio => "max_ratio"@,
            ConstraintType::DraftAngle => "min_angle"@,
            ConstraintType::WallThickness => "min_thickness"@,
        }
    }

    pub fn required_parameter_name(&self) -> (name: &'static str)
        ensures
            name@ == self.required_parameter(),
    {
        match self {
            ConstraintType::MinFeatureSize => "min_size",
            ConstraintType::MaxAspectRatio => "max_ratio",
            ConstraintType::DraftAngle => "min_angle",
            ConstraintType::WallThickness => "min_thickness",
        }
    }
}

/// A constraint that manufacturing puts on a feature.
#[derive(Debug, Clone)]
pub struct ManufacturingConstraint {
    pub constraint_type: ConstraintType,
    pub parameters: StringMap<Scalar>,
    pub applicable_processes: Vec<ManufacturingProcess>,
}

impl ManufacturingConstraint {
    /// Checks that the constraint has the parameter its type needs.
    pub fn validate(&self) -> (r: KernelResult<()>)
        ensures
            match r {
                Ok(()) => self.parameters@.contains_key(self.constraint_type.required_parameter()),
                Err(e) => !self.parameters@.contains_key(
                    self.constraint_type.required_parameter(),
                ) && e.is_plain(
                    ErrorCode::MissingParameter,
                    "Missing required parameter: "@ + self.constraint_type.required_parameter(),
                ),
            },
    {
        let name = self.constraint_type.required_parameter_name();
        if !self.parameters.contains_key(name) {
            return Err(KernelError::missing_parameter(name));
        }
        Ok(())
    }

    /// Whether the process meets the constraint. Every process meets
    /// every constraint: no process has rules of its own yet.
    pub fn is_satisfied_by(&self, process: &ManufacturingProcess) -> (r: KernelResult<bool>)
        ensures
            r == Ok::<bool, KernelError>(true),
    {
        Ok(true)
    }
}

/// How a hole is made.
#[derive(Debug, Clone, PartialEq, Eq)]
pub enum HoleType {
    Through,
    Blind,
    Counterbore { cb_diameter: Scalar, cb_depth: Scalar },
    Countersink { cs_diameter: Scalar, cs_angle: Scalar },
    Threaded { thread_pitch: Scalar, thread_class: String },
}

/// Which edges a feature works on.
#[derive(Debug, Clone, PartialEq, Eq)]
pub enum EdgeSelection {
    AllEdges,
    EdgeIndices(Vec<u32>),
    EdgesByCriteria {
        min_length: Option<Scalar>,
        max_length: Option<Scalar>,
        convex_only: bool,
        concave_only: bool,
    },
}

/// How a fillet blends.
#[derive(Debug, Clone, Copy, PartialEq, Eq)]
pub enum BlendType {
    Constant,
    Variable,
    Conic { rho: Scalar },
}

/// How a pattern repeats.
#[derive(Debug, Clone, Copy, PartialEq, Eq)]
pub enum PatternType {
    Linear,
    Circular { axis: [Scalar; 3], center: [Scalar; 3] },
}

/// The parameters of a feature, by kind. Lengths are in millimetres,
/// angles in degrees.
#[derive(Debug, Clone)]
pub enum FeatureParameters {
    Extrude {
        distance: Scalar,
        direction: [Scalar; 3],
        draft_angle: Option<Scalar>,
        taper_angle: Option<Scalar>,
    },
    Revolve { angle: Scalar, axis: [Scalar; 3], axis_point: [Scalar; 3] },
    Hole {
        diameter: Scalar,
        depth: Scalar,
        position: [Scalar; 3],
        direction: [Scalar; 3],
        hole_type: HoleType,
    },
    Fillet { radius: Scalar, edge_selection: EdgeSelection, blend_type: BlendType },
    Chamfer { distance: Scalar, angle: Scalar, edge_selection: EdgeSelection },
    Shell { thickness: Scalar, faces_to_remove: Vec<i32> },
    Draft { angle: Scalar, pull_direction: [Scalar; 3], neutral_plane: [Scalar; 4] },
    Pattern { count: u32, spacing: Scalar, direction: [Scalar; 3], pattern_type: PatternType },
    Mirror { plane_normal: [Scalar; 3], plane_point: [Scalar; 3] },
    Sweep { path_points: Vec<[Scalar; 3]>, twist_angle: Option<Scalar>, scale_factor: Option<Scalar> },
    Loft { profiles: Vec<NodeId>, guide_curves: Vec<NodeId> },
}

/// What takes arithmetic to know of a feature, worked out by the host.
#[derive(Debug, Clone, Copy, PartialEq, Eq)]
pub struct FeatureMeasures {
    /// The length of the vector that directs the feature: the direction
    /// of an extrusion, the axis of a revolution, the normal of a mirror
    /// plane.
    pub vector_length: Scalar,
    /// The depth of a hole over its diameter.
    pub aspect_ratio: Scalar,
    /// The diameter of the tool that a fillet needs: twice its radius.
    pub tool_diameter: Scalar,
}

/// What a tool must be like to reach a feature.
#[derive(Debug, Clone, Copy, PartialEq, Eq)]
pub struct ToolAccessRequirement {
    pub access_direction: [Scalar; 3],
    pub min_diameter: Scalar,
    pub min_length: Scalar,
    pub aspect_ratio_limit: Option<Scalar>,
    pub tolerance_grade: ToleranceGrade,
}

/// What is recorded of a feature besides its parameters.
#[derive(Debug, Clone)]
pub struct FeatureMetadata {
    pub created_at: Scalar,
    pub created_by: Option<String>,
    pub description: Option<String>,
    pub manufacturing_notes: Vec<String>,
}

/// A parametric feature on a target node.
#[derive(Debug, Clone)]
pub struct Feature {
    pub id: String,
    pub feature_type: FeatureType,
    pub target_node: NodeId,
    pub parameters: FeatureParameters,
    pub post_transform: Option<Transform>,
    pub manufacturing_constraints: Vec<ManufacturingConstraint>,
    pub metadata: FeatureMetadata,
}

/// A fault of a feature: the code of the error and what it says.
pub struct FeatureFault {
    pub code: ErrorCode,
    pub message: Seq<char>,
}

/// The fault of a parameter that has a value it may not have.
pub open spec fn bad(parameter: Seq<char>, why: Seq<char>) -> Option<FeatureFault> {
    Some(
        FeatureFault {
            code: ErrorCode::InvalidParameter,
            message: "Invalid parameter '"@ + parameter + "': "@ + why,
        },
    )
}

/// The fault of a feature that cannot be made.
pub open spec fn beyond(message: Seq<char>) -> Option<FeatureFault> {
    Some(FeatureFault { code: ErrorCode::ConstraintViolation, message })
}

/// The double of the given bits.
pub open spec fn number(bits: u64) -> Scalar {
    Scalar { bits }
}

pub const ZERO: u64 = 0;

/// The double 360.0.
pub const FULL_TURN: u64 = 0x4076_8000_0000_0000;

/// The double 90.0.
pub const RIGHT_ANGLE: u64 = 0x4056_8000_0000_0000;

/// The double 45.0.
pub const MAX_DRAFT: u64 = 0x4046_8000_0000_0000;

/// The double 10.0.
pub const MAX_ASPECT_RATIO: u64 = 0x4024_0000_0000_0000;

/// The double 0.5.
pub const MIN_FILLET_RADIUS: u64 = 0x3FE0_0000_0000_0000;

/// The double 0.8.
pub const MIN_SHELL_THICKNESS: u64 = 0x3FE9_9999_9999_999A;

/// The double 1e-9.
pub const MIN_VECTOR_LENGTH: u64 = 0x3E11_2E0B_E826_D695;

impl FeatureType {
    /// The name of the kind in lower case.
    pub open spec fn name(self) -> Seq<char> {
        match self {
            FeatureType::Extrude => "extrude"@,
            FeatureType::Revolve => "revolve"@,
            FeatureType::Hole => "hole"@,
            FeatureType::Fillet => "fillet"@,
            FeatureType::Chamfer => "chamfer"@,
            FeatureType::Shell => "shell"@,
            FeatureType::Draft => "draft"@,
            FeatureType::Pattern => "pattern"@,
            FeatureType::Mirror => "mirror"@,
            FeatureType::Sweep => "sweep"@,
            FeatureType::Loft => "loft"@,
        }
    }

    pub fn as_str(&self) -> (s: &'static str)
        ensures
            s@ == self.name(),
    {
        match self {
            FeatureType::Extrude => "extrude",
            FeatureType::Revolve => "revolve",
            FeatureType::Hole => "hole",
            FeatureType::Fillet => "fillet",
            FeatureType::Chamfer => "chamfer",
            FeatureType::Shell => "shell",
            FeatureType::Draft => "draft",
            FeatureType::Pattern => "pattern",
            FeatureType::Mirror => "mirror",
            FeatureType::Sweep => "sweep",
            FeatureType::Loft => "loft",
        }
    }
}

/// The fault of parameters that are not those of the feature's kind.
pub open spec fn wrong_kind(kind: FeatureType) -> Option<FeatureFault> {
    bad(kind.name() + "_parameters"@, "Invalid parameters for "@ + kind.name() + " feature"@)
}

/// The first rule that the parameters of a feature break.
pub open spec fn parameter_fault(
    kind: FeatureType,
    parameters: FeatureParameters,
    measures: FeatureMeasures,
) -> Option<FeatureFault> {
    let zero = number(ZERO);
    let short = measures.vector_length.lt(number(MIN_VECTOR_LENGTH));
    match (kind, parameters) {
        (FeatureType::Extrude, FeatureParameters::Extrude { distance, .. }) => if distance.le(
            zero,
        ) {
            bad("extrude_distance"@, "Distance must be positive"@)
        } else if short {
            bad("extrude_direction"@, "Direction vector cannot be zero"@)
        } else {
            None
        },
        (FeatureType::Revolve, FeatureParameters::Revolve { angle, .. }) => if angle.le(zero)
            || number(FULL_TURN).lt(angle) {
            bad("revolve_angle"@, "Angle must be between 0 and 360 degrees"@)
        } else if short {
            bad("revolve_axis"@, "Axis vector cannot be zero"@)
        } else {
            None
        },
        (FeatureType::Hole, FeatureParameters::Hole { diameter, depth, .. }) => if diameter.le(
            zero,
        ) {
            bad("hole_diameter"@, "Diameter must be positive"@)
        } else if depth.le(zero) {
            bad("hole_depth"@, "Depth must be positive"@)
        } else if number(MAX_ASPECT_RATIO).lt(measures.aspect_ratio) {
            beyond("Hole aspect ratio exceeds manufacturing limits (max 10:1)"@)
        } else {
            None
        },
        (FeatureType::Fillet, FeatureParameters::Fillet { radius, .. }) => if radius.le(zero) {
            bad("fillet_radius"@, "Radius must be positive"@)
        } else if radius.lt(number(MIN_FILLET_RADIUS)) {
            beyond("Fillet radius below minimum manufacturing limit (0.5mm)"@)
        } else {
            None
        },
        (FeatureType::Chamfer, FeatureParameters::Chamfer { distance, angle, .. }) => if distance.le(
            zero,
        ) {
            bad("chamfer_distance"@, "Distance must be positive"@)
        } else if angle.le(zero) || number(RIGHT_ANGLE).le(angle) {
            bad("chamfer_angle"@, "Angle must be between 0 and 90 degrees"@)
        } else {
            None
        },
        (FeatureType::Shell, FeatureParameters::Shell { thickness, .. }) => if thickness.le(
            zero,
        ) {
            bad("shell_thickness"@, "Thickness must be positive"@)
        } else if thickness.lt(number(MIN_SHELL_THICKNESS)) {
            beyond("Shell thickness below minimum manufacturing limit (0.8mm)"@)
        } else {
            None
        },
        (FeatureType::Draft, FeatureParameters::Draft { angle, .. }) => if angle.le(zero)
            || number(MAX_DRAFT).lt(angle) {
            bad("draft_angle"@, "Draft angle must be between 0 and 45 degrees"@)
        } else {
            None
        },
        (FeatureType::Pattern, FeatureParameters::Pattern { count, spacing, .. }) => if count
            < 2 {
            bad("pattern_count"@, "Pattern count must be at least 2"@)
        } else if spacing.le(zero) {
            bad("pattern_spacing"@, "Pattern spacing must be positive"@)
        } else {
            None
        },
        (FeatureType::Mirror, FeatureParameters::Mirror { .. }) => if short {
            bad("mirror_plane_normal"@, "Plane normal cannot be zero"@)
        } else {
            None
        },
        (FeatureType::Sweep, FeatureParameters::Sweep { path_points, .. }) => if path_points@.len()
            < 2 {
            bad("sweep_path"@, "Sweep path must have at least 2 points"@)
        } else {
            None
        },
        (FeatureType::Loft, FeatureParameters::Loft { profiles, .. }) => if profiles@.len() < 2 {
            bad("loft_profiles"@, "Loft must have at least 2 profiles"@)
        } else {
            None
        },
        _ => wrong_kind(kind),
    }
}

/// The first of the constraints from `from` on that lacks the parameter
/// of its type.
pub open spec fn constraint_fault(constraints: Seq<ManufacturingConstraint>, from: int) -> Option<
    FeatureFault,
>
    decreases constraints.len() - from,
{
    if from < 0 || from >= constraints.len() {
        None
    } else if !constraints[from].parameters@.contains_key(
        constraints[from].constraint_type.required_parameter(),
    ) {
        Some(
            FeatureFault {
                code: ErrorCode::MissingParameter,
                message: "Missing required parameter: "@
                    + constraints[from].constraint_type.required_parameter(),
            },
        )
    } else {
        constraint_fault(constraints, from + 1)
    }
}

/// The first fault of a feature: of its parameters, else of its
/// constraints.
pub open spec fn feature_fault(feature: Feature, measures: FeatureMeasures) -> Option<FeatureFault> {
    match parameter_fault(feature.feature_type, feature.parameters, measures) {
        Some(fault) => Some(fault),
        None => constraint_fault(feature.manufacturing_constraints@, 0),
    }
}

fn bad_parameter(parameter: &str, why: &str) -> (r: KernelResult<()>)
    ensures
        r matches Err(e) && bad(parameter@, why@) matches Some(fault) && e.is_plain(
            fault.code,
            fault.message,
        ),
{
    Err(KernelError::invalid_parameter(parameter, why))
}

fn cannot_be_made(message: &str) -> (r: KernelResult<()>)
    ensures
        r matches Err(e) && beyond(message@) matches Some(fault) && e.is_plain(
            fault.code,
            fault.message,
        ),
{
    Err(KernelError::constraint_violation(message))
}

impl Feature {
    /// A feature without constraints, made at `created_at`.
    pub fn new(
        id: String,
        feature_type: FeatureType,
        target_node: NodeId,
        parameters: FeatureParameters,
        created_at: Scalar,
    ) -> (f: Self)
        ensures
            f.id == id,
            f.feature_type == feature_type,
            f.target_node == target_node,
            f.parameters == parameters,
            f.post_transform is None,
            f.manufacturing_constraints@.len() == 0,
            f.metadata.created_at == created_at,
    {
        Feature {
            id,
            feature_type,
            target_node,
            parameters,
            post_transform: None,
            manufacturing_constraints: Vec::new(),
            metadata: FeatureMetadata {
                created_at,
                created_by: None,
                description: None,
                manufacturing_notes: Vec::new(),
            },
        }
    }

    /// Checks the parameters against the rules of the feature's kind, and
    /// then every constraint for the parameter of its type. The first
    /// fault is reported.
    pub fn validate(&self, measures: &FeatureMeasures) -> (r: KernelResult<()>)
        ensures
            match r {
                Ok(()) => feature_fault(*self, *measures) is None,
                Err(e) => feature_fault(*self, *measures) matches Some(fault) && e.is_plain(
                    fault.code,
                    fault.message,
                ),
            },
    {
        self.validate_parameters(measures)?;
        let n = self.manufacturing_constraints.len();
        let mut i: usize = 0;
        while i < n
            invariant
                n == self.manufacturing_constraints@.len(),
                i <= n,
                parameter_fault(self.feature_type, self.parameters, *measures) is None,
                constraint_fault(self.manufacturing_constraints@, 0) == constraint_fault(
                    self.manufacturing_constraints@,
                    i as int,
                ),
            decreases n - i,
        {
            self.manufacturing_constraints[i].validate()?;
            i += 1;
        }
        Ok(())
    }

    fn validate_parameters(&self, measures: &FeatureMeasures) -> (r: KernelResult<()>)
        ensures
            match r {
                Ok(()) => parameter_fault(self.feature_type, self.parameters, *measures) is None,
                Err(e) => parameter_fault(
                    self.feature_type,
                    self.parameters,
                    *measures,
                ) matches Some(fault) && e.is_plain(fault.code, fault.message),
            },
    {
        let zero = Scalar::from_bits(ZERO);
        let short = measures.vector_length.lt_exec(&Scalar::from_bits(MIN_VECTOR_LENGTH));
        match (self.feature_type, &self.parameters) {
            (FeatureType::Extrude, FeatureParameters::Extrude { distance, .. }) => {
                if distance.le_exec(&zero) {
                    return bad_parameter("extrude_distance", "Distance must be positive");
                }
                if short {
                    return bad_parameter("extrude_direction", "Direction vector cannot be zero");
                }
            },
            (FeatureType::Revolve, FeatureParameters::Revolve { angle, .. }) => {
                if angle.le_exec(&zero) || Scalar::from_bits(FULL_TURN).lt_exec(angle) {
                    return bad_parameter(
                        "revolve_angle",
                        "Angle must be between 0 and 360 degrees",
                    );
                }
                if short {
                    return bad_parameter("revolve_axis", "Axis vector cannot be zero");
                }
            },
            (FeatureType::Hole, FeatureParameters::Hole { diameter, depth, .. }) => {
                if diameter.le_exec(&zero) {
                    return bad_parameter("hole_diameter", "Diameter must be positive");
                }
                if depth.le_exec(&zero) {
                    return bad_parameter("hole_depth", "Depth must be positive");
                }
                if Scalar::from_bits(MAX_ASPECT_RATIO).lt_exec(&measures.aspect_ratio) {
                    return cannot_be_made(
                        "Hole aspect ratio exceeds manufacturing limits (max 10:1)",
                    );
                }
            },
            (FeatureType::Fillet, FeatureParameters::Fillet { radius, .. }) => {
                if radius.le_exec(&zero) {
                    return bad_parameter("fillet_radius", "Radius must be positive");
                }
                if radius.lt_exec(&Scalar::from_bits(MIN_FILLET_RADIUS)) {
                    return cannot_be_made(
                        "Fillet radius below minimum manufacturing limit (0.5mm)",
                    );
                }
            },
            (FeatureType::Chamfer, FeatureParameters::Chamfer { distance, angle, .. }) => {
                if distance.le_exec(&zero) {
                    return bad_parameter("chamfer_distance", "Distance must be positive");
                }
                if angle.le_exec(&zero) || Scalar::from_bits(RIGHT_ANGLE).le_exec(angle) {
                    return bad_parameter("chamfer_angle", "Angle must be between 0 and 90 degrees");
                }
            },
            (FeatureType::Shell, FeatureParameters::Shell { thickness, .. }) => {
                if thickness.le_exec(&zero) {
                    return bad_parameter("shell_thickness", "Thickness must be positive");
                }
                if thickness.lt_exec(&Scalar::from_bits(MIN_SHELL_THICKNESS)) {
                    return cannot_be_made(
                        "Shell thickness below minimum manufacturing limit (0.8mm)",
                    );
                }
            },
            (FeatureType::Draft, FeatureParameters::Draft { angle, .. }) => {
                if angle.le_exec(&zero) || Scalar::from_bits(MAX_DRAFT).lt_exec(angle) {
                    return bad_parameter(
                        "draft_angle",
                        "Draft angle must be between 0 and 45 degrees",
                    );
                }
            },
            (FeatureType::Pattern, FeatureParameters::Pattern { count, spacing, .. }) => {
                if *count < 2 {
                    return bad_parameter("pattern_count", "Pattern count must be at least 2");
                }
                if spacing.le_exec(&zero) {
                    return bad_parameter("pattern_spacing", "Pattern spacing must be positive");
                }
            },
            (FeatureType::Mirror, FeatureParameters::Mirror { .. }) => {
                if short {
                    return bad_parameter("mirror_plane_normal", "Plane normal cannot be zero");
                }
            },
            (FeatureType::Sweep, FeatureParameters::Sweep { path_points, .. }) => {
                if path_points.len() < 2 {
                    return bad_parameter("sweep_path", "Sweep path must have at least 2 points");
                }
            },
            (FeatureType::Loft, FeatureParameters::Loft { profiles, .. }) => {
                if profiles.len() < 2 {
                    return bad_parameter("loft_profiles", "Loft must have at least 2 profiles");
                }
            },
            (kind, _) => {
                let mut parameter = String::from_str(kind.as_str());
                parameter.append("_parameters");
                let mut why = String::from_str("Invalid parameters for ");
                why.append(kind.as_str());
                why.append(" feature");
                return bad_parameter(parameter.as_str(), why.as_str());
            },
        }
        Ok(())
    }

    /// Whether the process can make the feature: whether it meets every
    /// constraint. Every process does.
    pub fn is_manufacturable(&self, process: &ManufacturingProcess) -> (r: KernelResult<bool>)
        ensures
            r == Ok::<bool, KernelError>(true),
    {
        let n = self.manufacturing_constraints.len();
        let mut i: usize = 0;
        while i < n
            invariant
                n == self.manufacturing_constraints@.len(),
                i <= n,
            decreases n - i,
        {
            match self.manufacturing_constraints[i].is_satisfied_by(process) {
                Ok(met) => {
                    if !met {
                        return Ok(false);
                    }
                },
                Err(e) => {
                    return Err(e);
                },
            }
            i += 1;
        }
        Ok(true)
    }

    /// The direction from which a tool reaches the feature: from above.
    pub open spec fn access_direction() -> Seq<Scalar> {
        seq![number(ZERO), number(ZERO), number(0x3FF0_0000_0000_0000)]
    }

    /// What a tool must be like to reach the feature. A hole needs a tool
    /// of its diameter and depth, to the seventh grade; a fillet one of
    /// twice its radius, to the eighth; other features ask for nothing.
    pub fn tool_access_requirements(&self, measures: &FeatureMeasures) -> (r: Vec<
        ToolAccessRequirement,
    >)
        ensures
            match (self.feature_type, self.parameters) {
                (FeatureType::Hole, FeatureParameters::Hole { diameter, depth, .. }) => r@.len()
                    == 1 && r@[0].access_direction@ == Feature::access_direction()
                    && r@[0].min_diameter == diameter && r@[0].min_length == depth
                    && r@[0].aspect_ratio_limit == Some(measures.aspect_ratio)
                    && r@[0].tolerance_grade == ToleranceGrade::IT7,
                (FeatureType::Fillet, FeatureParameters::Fillet { .. }) => r@.len() == 1
                    && r@[0].access_direction@ == Feature::access_direction()
                    && r@[0].min_diameter == measures.tool_diameter && r@[0].min_length == number(
                    ZERO,
                ) && r@[0].aspect_ratio_limit is None && r@[0].tolerance_grade
                    == ToleranceGrade::IT8,
                _ => r@.len() == 0,
            },
    {
        let up = [Scalar::zero(), Scalar::zero(), Scalar::one()];
        assert(up@ =~= Feature::access_direction());
        let mut requirements: Vec<ToolAccessRequirement> = Vec::new();
        match (self.feature_type, &self.parameters) {
            (FeatureType::Hole, FeatureParameters::Hole { diameter, depth, .. }) => {
                requirements.push(
                    ToolAccessRequirement {
                        access_direction: up,
                        min_diameter: *diameter,
                        min_length: *depth,
                        aspect_ratio_limit: Some(measures.aspect_ratio),
                        tolerance_grade: ToleranceGrade::IT7,
                    },
                );
            },
            (FeatureType::Fillet, FeatureParameters::Fillet { .. }) => {
                requirements.push(
                    ToolAccessRequirement {
                        access_direction: up,
                        min_diameter: measures.tool_diameter,
                        min_length: Scalar::zero(),
                        aspect_ratio_limit: None,
                        tolerance_grade: ToleranceGrade::IT8,
                    },
                );
            },
            _ => {},
        }
        requirements
    }
}

} // verus!
