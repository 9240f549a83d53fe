use geometry_kernel::errors::ErrorCode;
use geometry_kernel::geometry::bounding::{
    bboxes_intersect, compute_bounding_box, get_bbox_corners, merge, merge_bboxes, point_in_bbox,
};
use geometry_kernel::geometry::constraints::{
    check_feature_size, check_mesh_integrity, check_overhang_angle, check_tool_diameter,
    check_wall_thickness, validate_constraints, ConstraintLimits, MeshMeasurements,
};
use geometry_kernel::geometry::operations::{
    boolean_operation, boxes_intersect, intersect_meshes, subtract_meshes, union_meshes,
    BooleanOperation,
};
use geometry_kernel::geometry::validation::{
    validate_box_dimensions, validate_chamfer_distance, validate_cylinder, validate_dimension,
    validate_fillet_radius, validate_hole, validate_radius, validate_segments, validate_sphere,
    validate_cone, validate_torus, ValidationError,
};
use geometry_kernel::scalar::Scalar;
use geometry_kernel::types::{
    BoundingBox, ConstraintType, Measure, PreviewMesh, Transform, ViolationSeverity,
};

fn scalar(value: f64) -> Scalar {
    Scalar::from_bits(value.to_bits())
}

fn point(x: f64, y: f64, z: f64) -> [Scalar; 3] {
    [scalar(x), scalar(y), scalar(z)]
}

fn bits(values: &[f32]) -> Vec<u32> {
    values.iter().map(|v| v.to_bits()).collect()
}

/// A box of eight vertices and twelve triangles.
fn box_mesh(size: f32) -> PreviewMesh {
    let h = size / 2.0;
    let vertices = bits(&[
        -h, -h, -h, h, -h, -h, h, h, -h, -h, h, -h, -h, -h, h, h, -h, h, h, h, h, -h, h, h,
    ]);
    let normals = bits(&[
        0.0, 0.0, -1.0, 0.0, 0.0, -1.0, 0.0, 0.0, -1.0, 0.0, 0.0, -1.0, 0.0, 0.0, 1.0, 0.0, 0.0,
        1.0, 0.0, 0.0, 1.0, 0.0, 0.0, 1.0,
    ]);
    let indices = vec![
        0, 2, 1, 0, 3, 2, 4, 5, 6, 4, 6, 7, 0, 1, 5, 0, 5, 4, 2, 3, 7, 2, 7, 6, 0, 4, 7, 0, 7, 3, 1,
        2, 6, 1, 6, 5,
    ];
    PreviewMesh { vertices, indices, normals }
}

/// What a box of the given size measures.
fn measure_box(size: f64) -> MeshMeasurements {
    MeshMeasurements {
        min_edge_length: scalar(size),
        min_dimension: Some(scalar(size)),
        max_overhang: scalar(0.0),
        bbox_volume: Some(scalar(size * size * size)),
        degenerate_triangles: 0,
        checked_triangles: 12,
    }
}

fn no_measures() -> MeshMeasurements {
    MeshMeasurements {
        min_edge_length: scalar(f64::MAX),
        min_dimension: None,
        max_overhang: scalar(0.0),
        bbox_volume: None,
        degenerate_triangles: 0,
        checked_triangles: 0,
    }
}

fn double(value: Scalar) -> f64 {
    f64::from_bits(value.to_bits())
}

fn reals(values: [Scalar; 3]) -> [f64; 3] {
    [double(values[0]), double(values[1]), double(values[2])]
}

#[test]
fn test_compute_bounding_box() {
    let h = [0.5f32, 1.0, 1.5];
    let mesh = PreviewMesh {
        vertices: bits(&[-h[0], -h[1], -h[2], h[0], h[1], h[2], h[0], -h[1], h[2]]),
        indices: vec![0, 1, 2],
        normals: bits(&[0.0; 9]),
    };
    let bbox = compute_bounding_box(&mesh);

    assert!(!bbox.is_empty());

    let (min, max) = (reals(bbox.min), reals(bbox.max));
    let size = [max[0] - min[0], max[1] - min[1], max[2] - min[2]];
    assert!((size[0] - 1.0).abs() < 0.1);
    assert!((size[1] - 2.0).abs() < 0.1);
    assert!((size[2] - 3.0).abs() < 0.1);
}

#[test]
fn the_bounding_box_is_the_least_and_greatest_of_every_axis() {
    let coordinates: Vec<f32> =
        vec![1.5, -2.0, 0.25, -7.0, 3.0, 0.0, 4.0, 3.5, -0.0, 0.1, f32::NAN, 9.0, 99.0, 99.0];
    let mesh = PreviewMesh { vertices: bits(&coordinates), indices: vec![], normals: vec![] };
    let bbox = compute_bounding_box(&mesh);
    // The last two coordinates make no whole vertex; a coordinate that is
    // no number is passed over.
    assert_eq!(reals(bbox.min), [-7.0, -2.0, 0.0]);
    assert_eq!(reals(bbox.max), [4.0, 3.5, 9.0]);
    assert_eq!(double(bbox.max[0]), 4.0f32 as f64);
    assert_eq!(double(bbox.min[0]).to_bits(), (0.1f32 as f64).min(-7.0).to_bits());
    let tenth = PreviewMesh { vertices: bits(&[0.1, 0.1, 0.1]), indices: vec![], normals: vec![] };
    assert_eq!(reals(compute_bounding_box(&tenth).min), [0.1f32 as f64; 3]);

    let empty = compute_bounding_box(&PreviewMesh::new());
    assert_eq!(empty, BoundingBox::empty());
    assert!(empty.is_empty());
}

#[test]
fn boxes_merge_into_the_least_box_that_holds_them() {
    let a = BoundingBox::new(point(0.0, 0.0, 0.0), point(1.0, 1.0, 1.0));
    let b = BoundingBox::new(point(-1.0, 0.5, 0.25), point(0.5, 3.0, 0.75));
    let both = merge(&a, &b);
    assert_eq!(reals(both.min), [-1.0, 0.0, 0.0]);
    assert_eq!(reals(both.max), [1.0, 3.0, 1.0]);
    assert_eq!(merge(&a, &BoundingBox::empty()), a);
    assert_eq!(merge(&BoundingBox::empty(), &a), a);
    assert_eq!(merge_bboxes(&[]), BoundingBox::empty());
    assert_eq!(merge_bboxes(&[b]), b);
    let c = BoundingBox::new(point(5.0, 5.0, 5.0), point(6.0, 6.0, 6.0));
    let all = merge_bboxes(&[a, b, c]);
    assert_eq!(reals(all.min), [-1.0, 0.0, 0.0]);
    assert_eq!(reals(all.max), [6.0, 6.0, 6.0]);
    assert!(point_in_bbox(point(0.0, 2.0, 0.5), &both));
    assert!(!point_in_bbox(point(0.0, 2.0, 0.5), &a));
    assert!(bboxes_intersect(&a, &b));
    assert!(!bboxes_intersect(&a, &c));
    let corners: Vec<[f64; 3]> = get_bbox_corners(&b).into_iter().map(reals).collect();
    assert_eq!(
        corners,
        vec![
            [-1.0, 0.5, 0.25],
            [0.5, 0.5, 0.25],
            [0.5, 3.0, 0.25],
            [-1.0, 3.0, 0.25],
            [-1.0, 0.5, 0.75],
            [0.5, 0.5, 0.75],
            [0.5, 3.0, 0.75],
            [-1.0, 3.0, 0.75],
        ]
    );
}

#[test]
fn test_union_meshes() {
    let mesh1 = box_mesh(1.0);
    let mesh2 = box_mesh(1.0);

    let result = union_meshes(&mesh1, &mesh2).unwrap();

    assert_eq!(result.vertex_count(), mesh1.vertex_count() + mesh2.vertex_count());
    assert_eq!(result.triangle_count(), mesh1.triangle_count() + mesh2.triangle_count());
}

#[test]
fn test_boxes_intersect() {
    let bbox1 = BoundingBox::new(point(0.0, 0.0, 0.0), point(1.0, 1.0, 1.0));
    let bbox2 = BoundingBox::new(point(0.5, 0.5, 0.5), point(1.5, 1.5, 1.5));
    let bbox3 = BoundingBox::new(point(2.0, 2.0, 2.0), point(3.0, 3.0, 3.0));

    assert!(boxes_intersect(&bbox1, &bbox2));
    assert!(!boxes_intersect(&bbox1, &bbox3));
}

#[test]
fn test_validate_empty_mesh() {
    let mesh = PreviewMesh::new();
    let constraints = ConstraintLimits::new();

    let report = validate_constraints(&mesh, &no_measures(), &constraints);
    assert!(report.valid);
    assert!(report.violations.is_empty());
    assert!(report.warnings.is_empty());
}

#[test]
fn test_validate_box() {
    let mesh = box_mesh(10.0);
    let mut constraints = ConstraintLimits::new();
    constraints.insert(ConstraintType::MinWallThickness, scalar(1.0));
    constraints.insert(ConstraintType::ToolDiameter, scalar(2.0));
    constraints.insert(ConstraintType::MaxOverhang, scalar(45.0));

    let report = validate_constraints(&mesh, &measure_box(10.0), &constraints);
    assert!(report.valid);
}

#[test]
fn test_wall_thickness_warning() {
    let mesh = box_mesh(0.1);
    let mut constraints = ConstraintLimits::new();
    constraints.insert(ConstraintType::MinWallThickness, scalar(1.0));

    let report = validate_constraints(&mesh, &measure_box(0.1), &constraints);
    assert!(!report.warnings.is_empty());
}

#[test]
fn union_puts_meshes_side_by_side() {
    let a = PreviewMesh {
        vertices: bits(&[0.0, 0.0, 0.0, 1.0, 0.0, 0.0, 0.0, 1.0, 0.0]),
        indices: vec![0, 1, 2],
        normals: bits(&[0.0, 0.0, 1.0, 0.0, 0.0, 1.0, 0.0, 0.0, 1.0]),
    };
    let b = PreviewMesh {
        vertices: bits(&[5.0, 5.0, 5.0, 6.0, 5.0, 5.0, 5.0, 6.0, 5.0, 5.0, 5.0, 6.0]),
        indices: vec![0, 1, 2, 0, 2, 3],
        normals: bits(&[1.0, 0.0, 0.0, 1.0, 0.0, 0.0, 1.0, 0.0, 0.0, 1.0, 0.0, 0.0]),
    };
    let both = boolean_operation(&a, &b, BooleanOperation::Union).unwrap();
    assert_eq!(both.vertices.len(), a.vertices.len() + b.vertices.len());
    assert_eq!(both.indices.len(), a.indices.len() + b.indices.len());
    assert_eq!(both.normals.len(), a.normals.len() + b.normals.len());
    assert_eq!(both.vertices[..9], a.vertices[..]);
    assert_eq!(both.vertices[9..], b.vertices[..]);
    assert_eq!(both.normals[9..], b.normals[..]);
    assert_eq!(both.indices, vec![0, 1, 2, 3, 4, 5, 3, 5, 6]);
    assert!(both.is_valid().is_ok());
    // The same solid twice is there twice.
    let twice = union_meshes(&a, &a).unwrap();
    assert_eq!(twice.indices, vec![0, 1, 2, 3, 4, 5]);
    assert_eq!(twice.vertex_count(), 6);
}

#[test]
fn boolean_operations_on_what_is_no_mesh_are_topology_errors() {
    let good = box_mesh(1.0);
    let odd_vertices = PreviewMesh { vertices: vec![0; 7], indices: vec![], normals: vec![0; 7] };
    let odd_indices = PreviewMesh { vertices: vec![], indices: vec![0, 1], normals: vec![] };
    let few_normals = PreviewMesh { vertices: vec![0; 3], indices: vec![], normals: vec![] };
    for operation in [BooleanOperation::Union, BooleanOperation::Subtract, BooleanOperation::Intersect] {
        for bad in [&odd_vertices, &odd_indices, &few_normals] {
            let error = boolean_operation(bad, &good, operation).unwrap_err();
            assert_eq!(error.code, ErrorCode::TopologyError.to_string());
            let error = boolean_operation(&good, bad, operation).unwrap_err();
            assert_eq!(error.code, ErrorCode::TopologyError.to_string());
        }
    }
    assert_eq!(odd_indices.is_valid().unwrap_err().message, "Index count must be multiple of 3");
    assert_eq!(
        few_normals.is_valid().unwrap_err().message,
        "Normal count must match vertex count"
    );
}

#[test]
fn a_union_whose_indices_would_not_fit_is_a_csg_error() {
    let first = box_mesh(1.0);
    let far = PreviewMesh { vertices: vec![], indices: vec![0, 1, u32::MAX - 7], normals: vec![] };
    let error = boolean_operation(&first, &far, BooleanOperation::Union).unwrap_err();
    assert_eq!(error.code, ErrorCode::CsgError.to_string());
    let near = PreviewMesh { vertices: vec![], indices: vec![0, 1, u32::MAX - 8], normals: vec![] };
    let joined = boolean_operation(&first, &near, BooleanOperation::Union).unwrap();
    assert_eq!(joined.indices[38], u32::MAX);
    // The placeholders do not renumber anything.
    assert!(boolean_operation(&first, &far, BooleanOperation::Subtract).is_ok());
    assert!(boolean_operation(&first, &far, BooleanOperation::Intersect).is_ok());
}

#[test]
fn placeholders_hand_back_the_target_and_nothing() {
    let a = box_mesh(1.0);
    let b = box_mesh(2.0);
    assert_eq!(subtract_meshes(&a, &b), a);
    assert_eq!(intersect_meshes(&a, &b), PreviewMesh::new());
    assert_eq!(boolean_operation(&a, &b, BooleanOperation::Subtract).unwrap(), a);
    assert_eq!(boolean_operation(&a, &b, BooleanOperation::Intersect).unwrap(), PreviewMesh::new());
}

#[test]
fn each_check_holds_one_measure_against_one_limit() {
    let mesh = box_mesh(1.0);
    let mut limits = ConstraintLimits::new();
    limits.insert(ConstraintType::MinWallThickness, scalar(2.0));
    limits.insert(ConstraintType::ToolDiameter, scalar(3.0));
    limits.insert(ConstraintType::MaxOverhang, scalar(45.0));
    limits.insert(ConstraintType::Process, scalar(9.0));
    assert_eq!(limits.get(ConstraintType::Process), None);
    let measured = MeshMeasurements {
        min_edge_length: scalar(1.0),
        min_dimension: Some(scalar(1.0)),
        max_overhang: scalar(60.0),
        bbox_volume: Some(scalar(0.1)),
        degenerate_triangles: 2,
        checked_triangles: 12,
    };

    let wall = check_wall_thickness(&mesh, &measured, &limits).unwrap();
    assert_eq!(wall.type_, ConstraintType::MinWallThickness);
    assert_eq!(wall.severity, ViolationSeverity::Warning);
    assert_eq!(wall.value, Measure::Real(scalar(1.0)));
    assert_eq!(wall.limit, Measure::Real(scalar(2.0)));

    let tool = check_tool_diameter(&mesh, &measured, &limits).unwrap();
    assert_eq!(tool.type_, ConstraintType::ToolDiameter);
    assert_eq!(tool.limit, Measure::Real(scalar(3.0)));

    let overhang = check_overhang_angle(&mesh, &measured, &limits).unwrap();
    assert_eq!(overhang.type_, ConstraintType::MaxOverhang);
    assert_eq!(overhang.value, Measure::Real(scalar(60.0)));

    let size = check_feature_size(&mesh, &measured).unwrap();
    assert_eq!(size.severity, ViolationSeverity::Info);
    assert_eq!(size.limit, Measure::Real(scalar(0.125)));

    // A tenth of twelve is one, in whole triangles; two are more.
    let integrity = check_mesh_integrity(&mesh, &measured).unwrap();
    assert_eq!(integrity.severity, ViolationSeverity::Error);
    assert_eq!(integrity.value, Measure::Count(2));
    assert_eq!(integrity.limit, Measure::Count(12));
    let one = MeshMeasurements { degenerate_triangles: 1, ..measured };
    assert!(check_mesh_integrity(&mesh, &one).is_none());

    let report = validate_constraints(&mesh, &measured, &limits);
    assert!(!report.valid);
    assert_eq!(report.violations.len(), 1);
    let kinds: Vec<(ConstraintType, ViolationSeverity)> =
        report.warnings.iter().map(|w| (w.type_, w.severity)).collect();
    assert_eq!(
        kinds,
        vec![
            (ConstraintType::MinWallThickness, ViolationSeverity::Warning),
            (ConstraintType::ToolDiameter, ViolationSeverity::Warning),
            (ConstraintType::MaxOverhang, ViolationSeverity::Warning),
            (ConstraintType::MinWallThickness, ViolationSeverity::Info),
        ]
    );
}

#[test]
fn measures_at_the_limit_give_no_finding() {
    let mesh = box_mesh(1.0);
    let mut limits = ConstraintLimits::new();
    limits.insert(ConstraintType::MinWallThickness, scalar(1.0));
    limits.insert(ConstraintType::ToolDiameter, scalar(1.0));
    limits.insert(ConstraintType::MaxOverhang, scalar(45.0));
    let measured = MeshMeasurements {
        min_edge_length: scalar(1.0),
        min_dimension: Some(scalar(1.0)),
        max_overhang: scalar(45.0),
        bbox_volume: Some(scalar(0.125)),
        degenerate_triangles: 100,
        checked_triangles: 1000,
    };
    let report = validate_constraints(&mesh, &measured, &limits);
    assert!(report.valid);
    assert!(report.warnings.is_empty());
    assert!(report.violations.is_empty());
    // Without limits only size and integrity are looked at.
    let small = MeshMeasurements { bbox_volume: Some(scalar(0.01)), ..measured };
    let report = validate_constraints(&mesh, &small, &ConstraintLimits::new());
    assert!(report.valid);
    assert_eq!(report.warnings.len(), 1);
    let bad = MeshMeasurements { degenerate_triangles: 101, ..measured };
    assert!(!validate_constraints(&mesh, &bad, &limits).valid);
    // A measure that is no number falls below no limit.
    let nan = MeshMeasurements { min_edge_length: scalar(f64::NAN), ..measured };
    assert!(check_wall_thickness(&mesh, &nan, &limits).is_none());
}

#[test]
fn integrity_reports_the_counts_that_do_not_fit() {
    let measured = measure_box(1.0);
    let odd = PreviewMesh { vertices: vec![0; 7], indices: vec![0; 4], normals: vec![] };
    let found = check_mesh_integrity(&odd, &measured).unwrap();
    assert_eq!(found.message, "Vertex count is not a multiple of 3");
    assert_eq!((found.value, found.limit), (Measure::Count(7), Measure::Count(0)));
    let odd = PreviewMesh { vertices: vec![0; 6], indices: vec![0; 4], normals: vec![] };
    let found = check_mesh_integrity(&odd, &measured).unwrap();
    assert_eq!(found.message, "Index count is not a multiple of 3");
    assert_eq!((found.value, found.limit), (Measure::Count(4), Measure::Count(0)));
    let odd = PreviewMesh { vertices: vec![0; 6], indices: vec![0; 3], normals: vec![0; 3] };
    let found = check_mesh_integrity(&odd, &measured).unwrap();
    assert_eq!(found.message, "Normal count does not match vertex count");
    assert_eq!((found.value, found.limit), (Measure::Count(3), Measure::Count(6)));
    let report = validate_constraints(&odd, &measured, &ConstraintLimits::new());
    assert!(!report.valid);
    assert_eq!(report.violations.len(), 1);
}

#[test]
fn bounding_boxes_hold_points_and_meet_each_other() {
    let unit = BoundingBox::new(point(0.0, 0.0, 0.0), point(1.0, 1.0, 1.0));
    assert!(unit.contains(point(0.5, 0.5, 0.5)));
    assert!(unit.contains(point(0.0, 1.0, 0.0)));
    assert!(unit.contains(point(-0.0, 1.0, 0.0)));
    assert!(!unit.contains(point(0.5, 1.5, 0.5)));
    assert!(!unit.contains(point(0.5, 0.5, -0.001)));
    assert!(!unit.contains(point(f64::NAN, 0.5, 0.5)));
    assert!(!unit.is_empty());
    let touching = BoundingBox::new(point(1.0, 1.0, 1.0), point(2.0, 2.0, 2.0));
    assert!(unit.intersects(&touching));
    let apart = BoundingBox::new(point(0.0, 0.0, 1.5), point(1.0, 1.0, 2.0));
    assert!(!unit.intersects(&apart));
    let empty = BoundingBox::empty();
    assert!(empty.is_empty());
    assert_eq!(empty.min, point(f64::INFINITY, f64::INFINITY, f64::INFINITY));
    assert_eq!(empty.max, point(f64::NEG_INFINITY, f64::NEG_INFINITY, f64::NEG_INFINITY));
    assert!(!empty.contains(point(0.0, 0.0, 0.0)));
    assert!(!empty.intersects(&unit));
}

#[test]
fn a_transform_fills_in_what_is_left_out() {
    let identity = Transform::identity();
    assert_eq!(identity.get_position(), point(0.0, 0.0, 0.0));
    assert_eq!(identity.get_rotation(), point(0.0, 0.0, 0.0));
    assert_eq!(identity.get_scale(), point(1.0, 1.0, 1.0));
    let bare = Transform { position: None, rotation: Some(point(1.0, 2.0, 3.0)), scale: None };
    assert_eq!(bare.get_position(), point(0.0, 0.0, 0.0));
    assert_eq!(bare.get_rotation(), point(1.0, 2.0, 3.0));
    assert_eq!(bare.get_scale(), point(1.0, 1.0, 1.0));
}

#[test]
fn dimensions_are_held_to_their_limits() {
    let message = |r: Result<(), ValidationError>| r.unwrap_err().message;
    assert!(validate_dimension(scalar(1.0), "width").is_ok());
    assert!(validate_dimension(scalar(0.01), "width").is_ok());
    assert!(validate_dimension(scalar(10000.0), "width").is_ok());
    assert_eq!(message(validate_dimension(scalar(0.0), "width")), "width must be positive");
    assert_eq!(message(validate_dimension(scalar(-3.0), "width")), "width must be positive");
    assert_eq!(message(validate_dimension(scalar(1e-10), "width")), "width must be positive");
    assert_eq!(message(validate_dimension(scalar(0.009), "depth")), "depth must be at least 0.01mm");
    assert_eq!(
        message(validate_dimension(scalar(10000.5), "depth")),
        "depth must not exceed 10000mm"
    );
    assert_eq!(message(validate_radius(scalar(-1.0), "radius")), "radius must be positive");
    assert!(validate_dimension(scalar(f64::NAN), "width").is_ok());

    assert!(validate_segments(3, 3).is_ok());
    assert!(validate_segments(1000, 3).is_ok());
    assert_eq!(message(validate_segments(2, 3)), "Segments must be at least 3 (got 2)");
    assert_eq!(message(validate_segments(1001, 3)), "Segments must not exceed 1000 (got 1001)");
    assert_eq!(message(validate_segments(0, 12)), "Segments must be at least 12 (got 0)");

    assert!(validate_box_dimensions(scalar(1.0), scalar(2.0), scalar(3.0)).is_ok());
    assert_eq!(
        message(validate_box_dimensions(scalar(1.0), scalar(0.0), scalar(-3.0))),
        "height must be positive"
    );
    assert!(validate_cylinder(scalar(1.0), scalar(2.0), 16).is_ok());
    assert!(validate_cylinder(scalar(1.0), scalar(2.0), 2).is_err());
    assert!(validate_sphere(scalar(1.0), 8, 8).is_ok());
    assert!(validate_sphere(scalar(1.0), 8, 1001).is_err());
    assert!(validate_torus(scalar(5.0), scalar(1.0), 8, 8).is_ok());
    assert_eq!(
        message(validate_torus(scalar(1.0), scalar(1.0), 8, 8)),
        "Minor radius must be less than major radius"
    );
    assert!(validate_hole(scalar(1000.0), scalar(5.0)).is_ok());
    assert!(validate_hole(scalar(1000.5), scalar(5.0)).is_err());
    assert!(validate_fillet_radius(scalar(100.0)).is_ok());
    assert!(validate_fillet_radius(scalar(100.5)).is_err());
    assert!(validate_chamfer_distance(scalar(0.5)).is_ok());
    assert!(validate_chamfer_distance(scalar(0.0)).is_err());
    assert_eq!(ValidationError::new("told").message, "told");
}

#[test]
fn a_cone_is_at_most_twice_as_wide_as_high() {
    assert!(validate_cone(scalar(2.0), scalar(1.0), 8).is_ok());
    assert_eq!(
        validate_cone(scalar(2.5), scalar(1.0), 8),
        Err(ValidationError::new("Cone radius should not exceed twice the height"))
    );
    assert!(validate_cone(scalar(1.0), scalar(1.0), 2).is_err());
    assert!(validate_cone(scalar(0.0), scalar(1.0), 8).is_err());
    assert!(validate_cone(scalar(1.0), scalar(0.001), 8).is_err());
}
