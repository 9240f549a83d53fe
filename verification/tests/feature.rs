use geometry_kernel::errors::ErrorCode;
use geometry_kernel::ir::feature::{
    BlendType, ConstraintType, EdgeSelection, Feature, FeatureMeasures, FeatureParameters,
    FeatureType, HoleType, ManufacturingConstraint, ManufacturingProcess, PatternType,
    ToleranceGrade,
};
use geometry_kernel::ir::new_validator;
use geometry_kernel::ir::node::NodeId;
use geometry_kernel::ir::validate::ValidationErrorType;
use geometry_kernel::scalar::Scalar;
use geometry_kernel::string_map::StringMap;

fn scalar(value: f64) -> Scalar {
    Scalar::from_bits(value.to_bits())
}

fn vector(x: f64, y: f64, z: f64) -> [Scalar; 3] {
    [scalar(x), scalar(y), scalar(z)]
}

fn double(value: Scalar) -> f64 {
    f64::from_bits(value.to_bits())
}

fn length(v: &[Scalar; 3]) -> f64 {
    (double(v[0]).powi(2) + double(v[1]).powi(2) + double(v[2]).powi(2)).sqrt()
}

/// What a host would measure of the feature.
fn measure(feature: &Feature) -> FeatureMeasures {
    let mut measures = FeatureMeasures {
        vector_length: scalar(f64::INFINITY),
        aspect_ratio: scalar(0.0),
        tool_diameter: scalar(0.0),
    };
    match &feature.parameters {
        FeatureParameters::Extrude { direction, .. } => {
            measures.vector_length = scalar(length(direction))
        }
        FeatureParameters::Revolve { axis, .. } => measures.vector_length = scalar(length(axis)),
        FeatureParameters::Mirror { plane_normal, .. } => {
            measures.vector_length = scalar(length(plane_normal))
        }
        FeatureParameters::Hole { diameter, depth, .. } => {
            measures.aspect_ratio = scalar(double(*depth) / double(*diameter))
        }
        FeatureParameters::Fillet { radius, .. } => {
            measures.tool_diameter = scalar(double(*radius) * 2.0)
        }
        _ => {}
    }
    measures
}

fn hole(diameter: f64, depth: f64, hole_type: HoleType) -> Feature {
    let params = FeatureParameters::Hole {
        diameter: scalar(diameter),
        depth: scalar(depth),
        position: vector(0.0, 0.0, 0.0),
        direction: vector(0.0, 0.0, 1.0),
        hole_type,
    };
    Feature::new(
        "hole1".to_string(),
        FeatureType::Hole,
        NodeId::from_user_string("box1"),
        params,
        scalar(0.0),
    )
}

fn feature(feature_type: FeatureType, parameters: FeatureParameters) -> Feature {
    Feature::new(
        "f".to_string(),
        feature_type,
        NodeId::from_user_string("box1"),
        parameters,
        scalar(0.0),
    )
}

fn fault(f: &Feature) -> Option<(String, String)> {
    f.validate(&measure(f)).err().map(|e| (e.code, e.message))
}

fn invalid(parameter: &str, why: &str) -> Option<(String, String)> {
    Some((
        ErrorCode::InvalidParameter.to_string(),
        format!("Invalid parameter '{}': {}", parameter, why),
    ))
}

fn unmakeable(message: &str) -> Option<(String, String)> {
    Some((ErrorCode::ConstraintViolation.to_string(), message.to_string()))
}

#[test]
fn test_feature_creation() {
    let feature = hole(5.0, 10.0, HoleType::Through);

    assert_eq!(feature.feature_type, FeatureType::Hole);
    assert!(feature.validate(&measure(&feature)).is_ok());
}

#[test]
fn test_invalid_hole_parameters() {
    let feature = hole(-5.0, 10.0, HoleType::Through);

    assert!(feature.validate(&measure(&feature)).is_err());
}

#[test]
fn test_aspect_ratio_constraint() {
    let feature = hole(1.0, 15.0, HoleType::Blind);

    assert!(feature.validate(&measure(&feature)).is_err());
}

#[test]
fn test_manufacturing_constraint_validation() {
    let mut constraint = ManufacturingConstraint {
        constraint_type: ConstraintType::MinFeatureSize,
        parameters: StringMap::new(),
        applicable_processes: vec![ManufacturingProcess::CNCMilling],
    };

    assert!(constraint.validate().is_err());

    constraint.parameters.insert("min_size".to_string(), scalar(0.5));
    assert!(constraint.validate().is_ok());
}

#[test]
fn test_tool_access_requirements() {
    let feature = hole(8.0, 20.0, HoleType::Through);
    let requirements = feature.tool_access_requirements(&measure(&feature));

    assert_eq!(requirements.len(), 1);
    assert_eq!(requirements[0].min_diameter, scalar(8.0));
    assert_eq!(requirements[0].min_length, scalar(20.0));
}

#[test]
fn test_feature_integration() {
    let feature = hole(5.0, 10.0, HoleType::Through);
    let feature = Feature { id: "test_hole".to_string(), ..feature };

    let validator = new_validator();
    let result = validator.validate_feature(&feature, &measure(&feature)).unwrap();

    assert!(result.is_valid, "Feature should be valid");
}

#[test]
fn every_kind_of_feature_has_its_rules() {
    let extrude = |distance: f64, direction: [Scalar; 3]| {
        feature(
            FeatureType::Extrude,
            FeatureParameters::Extrude { distance: scalar(distance), direction, draft_angle: None, taper_angle: None },
        )
    };
    assert_eq!(fault(&extrude(5.0, vector(0.0, 0.0, 1.0))), None);
    assert_eq!(
        fault(&extrude(0.0, vector(0.0, 0.0, 1.0))),
        invalid("extrude_distance", "Distance must be positive")
    );
    assert_eq!(
        fault(&extrude(5.0, vector(0.0, 1e-10, 0.0))),
        invalid("extrude_direction", "Direction vector cannot be zero")
    );

    let revolve = |angle: f64, axis: [Scalar; 3]| {
        feature(FeatureType::Revolve, FeatureParameters::Revolve { angle: scalar(angle), axis, axis_point: vector(0.0, 0.0, 0.0) })
    };
    assert_eq!(fault(&revolve(360.0, vector(1.0, 0.0, 0.0))), None);
    for angle in [0.0, -90.0, 360.5] {
        assert_eq!(
            fault(&revolve(angle, vector(1.0, 0.0, 0.0))),
            invalid("revolve_angle", "Angle must be between 0 and 360 degrees")
        );
    }
    assert_eq!(
        fault(&revolve(90.0, vector(0.0, 0.0, 0.0))),
        invalid("revolve_axis", "Axis vector cannot be zero")
    );

    assert_eq!(fault(&hole(1.0, 10.0, HoleType::Blind)), None);
    assert_eq!(
        fault(&hole(0.0, 10.0, HoleType::Blind)),
        invalid("hole_diameter", "Diameter must be positive")
    );
    assert_eq!(
        fault(&hole(1.0, -1.0, HoleType::Blind)),
        invalid("hole_depth", "Depth must be positive")
    );
    assert_eq!(
        fault(&hole(1.0, 10.5, HoleType::Blind)),
        unmakeable("Hole aspect ratio exceeds manufacturing limits (max 10:1)")
    );

    let fillet = |radius: f64| {
        feature(
            FeatureType::Fillet,
            FeatureParameters::Fillet {
                radius: scalar(radius),
                edge_selection: EdgeSelection::AllEdges,
                blend_type: BlendType::Constant,
            },
        )
    };
    assert_eq!(fault(&fillet(0.5)), None);
    assert_eq!(fault(&fillet(-1.0)), invalid("fillet_radius", "Radius must be positive"));
    assert_eq!(
        fault(&fillet(0.49)),
        unmakeable("Fillet radius below minimum manufacturing limit (0.5mm)")
    );

    let chamfer = |distance: f64, angle: f64| {
        feature(
            FeatureType::Chamfer,
            FeatureParameters::Chamfer {
                distance: scalar(distance),
                angle: scalar(angle),
                edge_selection: EdgeSelection::EdgeIndices(vec![1, 2]),
            },
        )
    };
    assert_eq!(fault(&chamfer(1.0, 45.0)), None);
    assert_eq!(fault(&chamfer(0.0, 45.0)), invalid("chamfer_distance", "Distance must be positive"));
    for angle in [0.0, 90.0, 120.0] {
        assert_eq!(
            fault(&chamfer(1.0, angle)),
            invalid("chamfer_angle", "Angle must be between 0 and 90 degrees")
        );
    }

    let shell = |thickness: f64| {
        feature(FeatureType::Shell, FeatureParameters::Shell { thickness: scalar(thickness), faces_to_remove: vec![0] })
    };
    assert_eq!(fault(&shell(0.8)), None);
    assert_eq!(fault(&shell(0.0)), invalid("shell_thickness", "Thickness must be positive"));
    assert_eq!(
        fault(&shell(0.79)),
        unmakeable("Shell thickness below minimum manufacturing limit (0.8mm)")
    );

    let draft = |angle: f64| {
        feature(
            FeatureType::Draft,
            FeatureParameters::Draft {
                angle: scalar(angle),
                pull_direction: vector(0.0, 0.0, 1.0),
                neutral_plane: [scalar(0.0), scalar(0.0), scalar(1.0), scalar(0.0)],
            },
        )
    };
    assert_eq!(fault(&draft(45.0)), None);
    for angle in [0.0, 45.5] {
        assert_eq!(
            fault(&draft(angle)),
            invalid("draft_angle", "Draft angle must be between 0 and 45 degrees")
        );
    }

    let pattern = |count: u32, spacing: f64| {
        feature(
            FeatureType::Pattern,
            FeatureParameters::Pattern {
                count,
                spacing: scalar(spacing),
                direction: vector(1.0, 0.0, 0.0),
                pattern_type: PatternType::Linear,
            },
        )
    };
    assert_eq!(fault(&pattern(2, 1.0)), None);
    assert_eq!(fault(&pattern(1, 1.0)), invalid("pattern_count", "Pattern count must be at least 2"));
    assert_eq!(
        fault(&pattern(2, 0.0)),
        invalid("pattern_spacing", "Pattern spacing must be positive")
    );

    let mirror = |normal: [Scalar; 3]| {
        feature(FeatureType::Mirror, FeatureParameters::Mirror { plane_normal: normal, plane_point: vector(0.0, 0.0, 0.0) })
    };
    assert_eq!(fault(&mirror(vector(0.0, 1.0, 0.0))), None);
    assert_eq!(
        fault(&mirror(vector(0.0, 0.0, 0.0))),
        invalid("mirror_plane_normal", "Plane normal cannot be zero")
    );

    let sweep = |points: usize| {
        feature(
            FeatureType::Sweep,
            FeatureParameters::Sweep {
                path_points: vec![vector(0.0, 0.0, 0.0); points],
                twist_angle: None,
                scale_factor: None,
            },
        )
    };
    assert_eq!(fault(&sweep(2)), None);
    assert_eq!(fault(&sweep(1)), invalid("sweep_path", "Sweep path must have at least 2 points"));

    let loft = |profiles: usize| {
        feature(
            FeatureType::Loft,
            FeatureParameters::Loft {
                profiles: (0..profiles).map(|i| NodeId::from_user_string(&i.to_string())).collect(),
                guide_curves: vec![],
            },
        )
    };
    assert_eq!(fault(&loft(2)), None);
    assert_eq!(fault(&loft(0)), invalid("loft_profiles", "Loft must have at least 2 profiles"));

    // Parameters of another kind than the feature's.
    let mixed = feature(FeatureType::Fillet, FeatureParameters::Shell { thickness: scalar(1.0), faces_to_remove: vec![] });
    assert_eq!(
        fault(&mixed),
        invalid("fillet_parameters", "Invalid parameters for fillet feature")
    );
}

#[test]
fn constraints_are_checked_after_the_parameters() {
    let lacking = |constraint_type| ManufacturingConstraint {
        constraint_type,
        parameters: StringMap::new(),
        applicable_processes: vec![],
    };
    let mut good = hole(1.0, 5.0, HoleType::Through);
    let mut sound = lacking(ConstraintType::DraftAngle);
    sound.parameters.insert("min_angle".to_string(), scalar(1.0));
    good.manufacturing_constraints =
        vec![sound, lacking(ConstraintType::WallThickness), lacking(ConstraintType::MaxAspectRatio)];
    assert_eq!(
        fault(&good),
        Some((
            ErrorCode::MissingParameter.to_string(),
            "Missing required parameter: min_thickness".to_string()
        ))
    );
    assert_eq!(good.is_manufacturable(&ManufacturingProcess::DieCasting).unwrap(), true);

    let validator = new_validator();
    let result = validator.validate_feature(&good, &measure(&good)).unwrap();
    assert!(!result.is_valid);
    let kinds: Vec<ValidationErrorType> = result.errors.iter().map(|e| e.error_type).collect();
    assert_eq!(
        kinds,
        vec![
            ValidationErrorType::InvalidParameter,
            ValidationErrorType::ManufacturingConstraint,
            ValidationErrorType::ManufacturingConstraint,
        ]
    );
    assert_eq!(result.errors[0].node_id, Some(NodeId::from_user_string("hole1")));
    assert_eq!(
        result.errors[0].message,
        "[MISSING_PARAMETER] Missing required parameter: min_thickness"
    );
    assert_eq!(result.metrics.features_validated, 1);

    let mut bad = hole(-1.0, 5.0, HoleType::Through);
    bad.manufacturing_constraints = vec![lacking(ConstraintType::MinFeatureSize)];
    assert_eq!(fault(&bad), invalid("hole_diameter", "Diameter must be positive"));
}

#[test]
fn tools_are_asked_for_by_holes_and_fillets_only() {
    let up = vector(0.0, 0.0, 1.0);
    let deep = hole(8.0, 20.0, HoleType::Through);
    let needs = deep.tool_access_requirements(&measure(&deep));
    assert_eq!(needs[0].access_direction, up);
    assert_eq!(needs[0].aspect_ratio_limit, Some(scalar(2.5)));
    assert_eq!(needs[0].tolerance_grade, ToleranceGrade::IT7);

    let round = feature(
        FeatureType::Fillet,
        FeatureParameters::Fillet {
            radius: scalar(1.5),
            edge_selection: EdgeSelection::AllEdges,
            blend_type: BlendType::Conic { rho: scalar(0.5) },
        },
    );
    let needs = round.tool_access_requirements(&measure(&round));
    assert_eq!(needs.len(), 1);
    assert_eq!(needs[0].min_diameter, scalar(3.0));
    assert_eq!(needs[0].min_length, scalar(0.0));
    assert_eq!(needs[0].aspect_ratio_limit, None);
    assert_eq!(needs[0].tolerance_grade, ToleranceGrade::IT8);

    let flat = feature(
        FeatureType::Shell,
        FeatureParameters::Shell { thickness: scalar(1.0), faces_to_remove: vec![] },
    );
    assert!(flat.tool_access_requirements(&measure(&flat)).is_empty());
    // A hole by kind with the parameters of a fillet asks for nothing.
    let mixed = Feature { feature_type: FeatureType::Hole, ..round };
    assert!(mixed.tool_access_requirements(&measure(&mixed)).is_empty());
}
