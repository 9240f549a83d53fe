use geometry_kernel::errors::ErrorCode;
use geometry_kernel::ir::feature::ManufacturingProcess;
use geometry_kernel::scalar::Scalar;
use geometry_kernel::string_map::StringMap;
use geometry_kernel::topology::collections::{
    EdgeCollection, FaceCollection, ShellCollection, TopologicalSolid,
};
use geometry_kernel::topology::{
    create_box_topology, AssemblyInfo, Edge, EdgeConstraint, EdgeConstraintType, EdgeCurve, EdgeId,
    EdgeType, Face, FaceConstraint, FaceConstraintType, FaceId, FaceOrientation, FaceSurface,
    FaceType, HalfEdgeId, MaterialSpec, Shell, ShellConstraint, ShellConstraintType, ShellId,
    ShellType, Solid, SolidConstraint, SolidConstraintType, SolidType, TopologicalComplex,
    TopologyId, Vertex,
};

fn scalar(value: f64) -> Scalar {
    Scalar::from_bits(value.to_bits())
}

fn double(value: Scalar) -> f64 {
    f64::from_bits(value.to_bits())
}

fn point(x: f64, y: f64, z: f64) -> [Scalar; 3] {
    [scalar(x), scalar(y), scalar(z)]
}

fn doubles(p: &[Scalar; 3]) -> [f64; 3] {
    [double(p[0]), double(p[1]), double(p[2])]
}

fn edge_ids(names: &[&str]) -> Vec<EdgeId> {
    names.iter().map(|n| EdgeId::new(n.to_string())).collect()
}

fn create_test_face(id: &str) -> (FaceId, Face) {
    let face_id = FaceId::new(id.to_string());
    let face = Face::new(edge_ids(&["e1", "e2", "e3"]), FaceType::Planar);
    (face_id, face)
}

fn faces_of(entries: Vec<(FaceId, Face)>) -> StringMap<Face> {
    let mut map = StringMap::new();
    for (id, face) in entries {
        map.insert(id.as_str().to_string(), face);
    }
    map
}

fn message_of<T>(r: Result<T, geometry_kernel::errors::KernelError>) -> String {
    match r {
        Ok(_) => panic!("an error was expected"),
        Err(e) => {
            assert_eq!(e.code, ErrorCode::InternalError.as_str());
            e.message
        }
    }
}

#[test]
fn test_edge_creation() {
    let start = TopologyId::new("vertex", 0);
    let end = TopologyId::new("vertex", 1);
    let edge = Edge::new(start, end, EdgeType::Linear);

    assert_eq!(edge.edge_type, EdgeType::Linear);
    assert!(edge.oriented);
    assert_eq!(double(edge.length), 0.0);
}

#[test]
fn test_edge_constraint() {
    let constraint = EdgeConstraint::min_radius(scalar(1.0), ManufacturingProcess::CNCMilling);
    assert_eq!(constraint.constraint_type, EdgeConstraintType::MinRadius);
    assert_eq!(double(constraint.min_value), 1.0);
    assert_eq!(double(constraint.max_value), f64::INFINITY);
}

#[test]
fn test_edge_collection() {
    let mut collection = EdgeCollection::new();
    let start = TopologyId::new("vertex", 0);
    let end = TopologyId::new("vertex", 1);
    let edge = Edge::new(start, end, EdgeType::Linear);

    let edge_id = collection.add_edge(edge).unwrap();
    assert!(collection.get_edge(&edge_id).is_some());

    let stats = collection.stats();
    assert_eq!(stats.total_edges, 1);
    assert_eq!(stats.total_half_edges, 2);
}

#[test]
fn test_edge_manufacturability() {
    let start = TopologyId::new("vertex", 0);
    let end = TopologyId::new("vertex", 1);
    let edge = Edge::new(start, end, EdgeType::Linear);

    assert!(edge.is_manufacturable());

    let sharp_edge = Edge::new(
        TopologyId::new("vertex", 0),
        TopologyId::new("vertex", 1),
        EdgeType::Sharp,
    );
    assert!(!sharp_edge.is_manufacturable());
}

#[test]
fn test_edge_reversal() {
    let start = TopologyId::new("vertex", 0);
    let end = TopologyId::new("vertex", 1);
    let mut edge = Edge::new(start.clone(), end.clone(), EdgeType::Linear);

    edge.reverse();
    assert_eq!(edge.start_vertex, end);
    assert_eq!(edge.end_vertex, start);
}

#[test]
fn test_face_creation() {
    let face = Face::new(edge_ids(&["e1", "e2", "e3"]), FaceType::Planar);
    assert_eq!(face.face_type, FaceType::Planar);
    assert_eq!(face.orientation, FaceOrientation::Outward);
    assert!(face.is_planar);
    assert_eq!(face.edge_count(), 3);
}

#[test]
fn test_face_with_surface() {
    let surface = FaceSurface::Plane { point: point(0.0, 0.0, 0.0), normal: point(0.0, 0.0, 1.0) };

    let face = Face::with_surface(edge_ids(&["e1"]), FaceType::Planar, surface);
    assert!(face.surface.is_some());
    assert_eq!(face.normal.map(|n| doubles(&n)), Some([0.0, 0.0, 1.0]));
}

#[test]
fn test_face_orientation_reversal() {
    let mut face = Face::new(edge_ids(&["e1", "e2", "e3"]), FaceType::Planar);
    face.normal = Some(point(0.0, 0.0, 1.0));

    assert_eq!(face.orientation, FaceOrientation::Outward);

    face.reverse_orientation();
    assert_eq!(face.orientation, FaceOrientation::Inward);
    assert_eq!(face.normal.map(|n| doubles(&n)), Some([0.0, 0.0, -1.0]));
    let round: Vec<&str> = face.boundary_edges.iter().map(|e| e.as_str()).collect();
    assert_eq!(round, vec!["e3", "e2", "e1"]);
}

#[test]
fn test_face_manufacturability() {
    let planar_face = Face::new(edge_ids(&["e1"]), FaceType::Planar);
    assert!(planar_face.is_manufacturable());

    let freeform_face = Face::new(edge_ids(&["e1"]), FaceType::Freeform);
    assert!(!freeform_face.is_manufacturable());
}

#[test]
fn test_face_constraint() {
    let constraint = FaceConstraint::min_area(scalar(10.0), ManufacturingProcess::CNCMilling);
    assert_eq!(constraint.constraint_type, FaceConstraintType::MinArea);

    let face = Face::new(edge_ids(&["e1"]), FaceType::Planar);
    assert!(!constraint.is_satisfied(&face));
}

#[test]
fn test_face_collection() {
    let mut collection = FaceCollection::new();
    let face = Face::new(edge_ids(&["e1", "e2", "e3"]), FaceType::Planar);

    let face_id = collection.add_face(face).unwrap();
    assert!(collection.get_face(&face_id).is_some());

    let stats = collection.stats();
    assert_eq!(stats.total_faces, 1);
}

#[test]
fn test_face_validation() {
    let face = Face::new(edge_ids(&["e1"]), FaceType::Planar);
    assert!(!face.is_valid_loop());

    let valid_face = Face::new(edge_ids(&["e1", "e2", "e3"]), FaceType::Planar);
    assert!(valid_face.is_valid_loop());
}

#[test]
fn test_topological_complex_creation() {
    let complex = TopologicalComplex::new();
    assert_eq!(complex.vertices.len(), 0);
    assert_eq!(complex.edges.len(), 0);
    assert_eq!(complex.faces.len(), 0);
}

#[test]
fn test_vertex_addition() {
    let mut complex = TopologicalComplex::new();
    let vertex = Vertex::new(point(1.0, 2.0, 3.0));

    let vertex_id = complex.add_vertex(vertex).unwrap();
    assert_eq!(complex.vertices.len(), 1);

    let stored_vertex = complex.vertices.get(vertex_id.as_str()).unwrap();
    assert_eq!(doubles(&stored_vertex.position), [1.0, 2.0, 3.0]);
}

#[test]
fn test_box_topology_creation() {
    let result = create_box_topology(scalar(2.0), scalar(3.0), scalar(4.0));
    assert!(result.is_ok());

    let complex = result.unwrap();
    assert_eq!(complex.vertices.len(), 8);
    assert_eq!(complex.edges.len(), 12);
    assert_eq!(complex.faces.len(), 6);
}

#[test]
fn mod_test_manifold_check() {
    let complex = create_box_topology(scalar(1.0), scalar(1.0), scalar(1.0)).unwrap();
    assert!(complex.is_manifold());
}

#[test]
fn test_shell_creation() {
    let (face_id, _) = create_test_face("f1");
    let shell = Shell::new(vec![face_id], ShellType::Closed);

    assert_eq!(shell.shell_type, ShellType::Closed);
    assert_eq!(shell.face_count(), 1);
    assert!(!shell.is_void);
}

#[test]
fn test_closed_shell() {
    let faces = vec![FaceId::new("f1".to_string()), FaceId::new("f2".to_string())];
    let shell = Shell::closed(faces);
    assert_eq!(shell.shell_type, ShellType::Closed);
}

#[test]
fn test_open_shell() {
    let faces = vec![FaceId::new("f1".to_string())];
    let shell = Shell::open(faces);
    assert_eq!(shell.shell_type, ShellType::Open);
}

#[test]
fn test_shell_constraint() {
    let constraint =
        ShellConstraint::min_wall_thickness(scalar(1.0), ManufacturingProcess::CNCMilling);
    assert_eq!(constraint.constraint_type, ShellConstraintType::MinWallThickness);
}

#[test]
fn test_shell_collection() {
    let mut collection = ShellCollection::new();
    let faces = vec![FaceId::new("f1".to_string())];
    let shell = Shell::new(faces, ShellType::Open);

    let shell_id = collection.add_shell(shell).unwrap();
    assert!(collection.get_shell(&shell_id).is_some());

    let face_collection = StringMap::new();
    let stats = collection.stats(&face_collection);
    assert_eq!(stats.total_shells, 1);
}

#[test]
fn test_shell_validation() {
    let (face_id, face) = create_test_face("f1");
    let face_collection = faces_of(vec![(face_id.clone(), face)]);

    let shell = Shell::new(vec![face_id], ShellType::Open);
    assert!(shell.validate(&face_collection).is_ok());
}

#[test]
fn test_shell_manufacturability() {
    let (face_id, face) = create_test_face("f1");
    let face_collection = faces_of(vec![(face_id.clone(), face)]);

    let shell = Shell::new(vec![face_id], ShellType::Closed);
    assert!(shell.is_manufacturable(&face_collection));

    let wire_shell = Shell::new(vec![], ShellType::Wire);
    assert!(!wire_shell.is_manufacturable(&face_collection));
}

#[test]
fn shell_test_manifold_check() {
    let (face_id, face) = create_test_face("f1");
    let face_collection = faces_of(vec![(face_id.clone(), face)]);

    let open_shell = Shell::new(vec![face_id], ShellType::Open);
    assert!(open_shell.is_manifold(&face_collection));
}

#[test]
fn test_solid_creation() {
    let shell_id = ShellId::new("shell_1".to_string());
    let solid = Solid::new(shell_id.clone(), SolidType::Simple);

    assert_eq!(solid.outer_shell, shell_id);
    assert_eq!(solid.solid_type, SolidType::Simple);
    assert_eq!(solid.inner_shells.len(), 0);
    assert!(!solid.has_voids());
}

#[test]
fn test_solid_with_material() {
    let shell_id = ShellId::new("shell_1".to_string());
    let material = MaterialSpec::aluminum();
    let solid = Solid::with_material(shell_id, SolidType::Simple, material.clone());

    assert!(solid.material.is_some());
    assert_eq!(solid.material.unwrap().name, material.name);
}

#[test]
fn test_solid_with_voids() {
    let outer_shell = ShellId::new("outer".to_string());
    let inner_shell = ShellId::new("inner".to_string());

    let mut solid = Solid::new(outer_shell, SolidType::Composite);
    solid.add_inner_shell(inner_shell);

    assert!(solid.has_voids());
    assert_eq!(solid.shell_count(), 2);
}

#[test]
fn test_material_specs() {
    let aluminum = MaterialSpec::aluminum();
    assert_eq!(double(aluminum.density), 2700.0);
    assert!(aluminum.youngs_modulus.is_some());

    let steel = MaterialSpec::steel();
    assert_eq!(double(steel.density), 7850.0);

    let plastic = MaterialSpec::plastic_abs();
    assert!(plastic.manufacturing_properties.contains_key("print_temperature"));
}

#[test]
fn test_solid_constraints() {
    let constraint = SolidConstraint::min_volume(scalar(100.0), ManufacturingProcess::CNCMilling);
    assert_eq!(constraint.constraint_type, SolidConstraintType::MinVolume);

    let mut solid = Solid::new(ShellId::new("test".to_string()), SolidType::Simple);
    solid.volume = scalar(50.0);

    assert!(!constraint.is_satisfied(&solid, &StringMap::new(), &StringMap::new()));

    solid.volume = scalar(150.0);
    assert!(constraint.is_satisfied(&solid, &StringMap::new(), &StringMap::new()));
}

#[test]
fn test_manufacturing_complexity() {
    let shell_collection = StringMap::new();
    let face_collection = StringMap::new();

    let simple_solid = Solid::new(ShellId::new("simple".to_string()), SolidType::Simple);
    let simple_complexity =
        simple_solid.manufacturing_complexity(&shell_collection, &face_collection);

    let mut composite_solid =
        Solid::new(ShellId::new("composite".to_string()), SolidType::Composite);
    composite_solid.add_inner_shell(ShellId::new("void1".to_string()));
    composite_solid.add_inner_shell(ShellId::new("void2".to_string()));
    let composite_complexity =
        composite_solid.manufacturing_complexity(&shell_collection, &face_collection);

    assert!(composite_complexity > simple_complexity);
    assert_eq!(simple_complexity, 10);
    assert_eq!(composite_complexity, 60);
}

#[test]
fn test_topological_solid_collection() {
    let mut collection = TopologicalSolid::new();
    let shell_id = ShellId::new("shell_1".to_string());
    let solid = Solid::new(shell_id, SolidType::Simple);

    let solid_id = collection.add_solid(solid).unwrap();
    assert!(collection.get_solid(&solid_id).is_some());

    let stats = collection.stats(&StringMap::new(), &StringMap::new());
    assert_eq!(stats.total_solids, 1);
}

#[test]
fn test_assembly_info() {
    let mut solid = Solid::new(ShellId::new("part".to_string()), SolidType::Assembly);

    let assembly_info = AssemblyInfo {
        assembly_name: "Test Assembly".to_string(),
        part_number: "PART-001".to_string(),
        interfaces: Vec::new(),
        constraints: Vec::new(),
        installation_sequence: Some(1),
    };

    solid.set_assembly_info(assembly_info.clone());
    assert!(solid.assembly_info.is_some());
    assert_eq!(solid.assembly_info.unwrap().part_number, assembly_info.part_number);
}

#[test]
fn test_compatible_processes() {
    let shell_collection = StringMap::new();
    let face_collection = StringMap::new();

    let mut simple_solid = Solid::new(ShellId::new("simple".to_string()), SolidType::Simple);
    simple_solid.update_compatible_processes(&shell_collection, &face_collection);
    assert!(simple_solid.compatible_processes.len() > 3);

    let mut sheet_solid = Solid::new(ShellId::new("sheet".to_string()), SolidType::Sheet);
    sheet_solid.update_compatible_processes(&shell_collection, &face_collection);
    assert!(sheet_solid.compatible_processes.contains(&ManufacturingProcess::SheetMetal));
}

#[test]
fn halving_is_what_the_division_by_two_gives() {
    let mut samples: Vec<f64> = vec![
        0.0,
        -0.0,
        1.0,
        -1.0,
        3.0,
        2.5e-308,
        f64::MIN_POSITIVE,
        f64::MIN_POSITIVE * 2.0,
        f64::MIN_POSITIVE * 1.5,
        f64::MAX,
        f64::INFINITY,
        f64::NEG_INFINITY,
        1e-310,
        -1e-310,
    ];
    for bits in [1u64, 2, 3, 5, 6, 7, 0x000F_FFFF_FFFF_FFFF, 0x0010_0000_0000_0001,
        0x0010_0000_0000_0003, 0x001F_FFFF_FFFF_FFFF, 0x0020_0000_0000_0000,
        0x0020_0000_0000_0001]
    {
        samples.push(f64::from_bits(bits));
        samples.push(-f64::from_bits(bits));
    }
    for value in samples {
        assert_eq!(scalar(value).halve().to_bits(), (value / 2.0).to_bits(), "{value:e}");
    }
    assert!(double(scalar(f64::NAN).halve()).is_nan());
}

#[test]
fn doubling_is_what_the_product_with_two_gives() {
    let mut samples: Vec<f64> =
        vec![0.0, -0.0, 1.0, -1.5, f64::MAX, -f64::MAX, f64::MAX / 2.0, f64::INFINITY, 1e-310];
    for bits in [1u64, 3, 0x0007_FFFF_FFFF_FFFF, 0x0008_0000_0000_0000, 0x000F_FFFF_FFFF_FFFF,
        0x0010_0000_0000_0000, 0x7FD0_0000_0000_0001, 0x7FE0_0000_0000_0000,
        0x7FDF_FFFF_FFFF_FFFF]
    {
        samples.push(f64::from_bits(bits));
        samples.push(-f64::from_bits(bits));
    }
    for value in samples {
        assert_eq!(scalar(value).double().to_bits(), (value * 2.0).to_bits(), "{value:e}");
    }
    assert!(f64::from_bits(scalar(f64::NAN).double().to_bits()).is_nan());
}

#[test]
fn counts_become_the_doubles_of_their_value() {
    for n in 0..=255u8 {
        assert_eq!(Scalar::from_count(n).to_bits(), (n as f64).to_bits());
    }
}

#[test]
fn negating_turns_the_sign() {
    for value in [0.0, 1.5, -2.0, f64::INFINITY, 1e-320] {
        assert_eq!(scalar(value).negate().to_bits(), (-value).to_bits());
    }
}

#[test]
fn a_circular_edge_needs_a_radius_that_a_tool_can_cut() {
    let circle = |radius: f64| EdgeCurve::Circle {
        center: point(0.0, 0.0, 0.0),
        radius: scalar(radius),
        axis: point(0.0, 0.0, 1.0),
        angle: scalar(1.0),
    };
    let ends = || (TopologyId::new("vertex", 0), TopologyId::new("vertex", 1));
    let (a, b) = ends();
    assert!(Edge::with_curve(a, b, EdgeType::Circular, circle(0.5)).is_manufacturable());
    let (a, b) = ends();
    assert!(!Edge::with_curve(a, b, EdgeType::Circular, circle(0.49)).is_manufacturable());
    let (a, b) = ends();
    assert!(Edge::new(a, b, EdgeType::Circular).is_manufacturable());
}

#[test]
fn an_edge_longer_than_allowed_cannot_be_made() {
    let mut edge =
        Edge::new(TopologyId::new("vertex", 0), TopologyId::new("vertex", 1), EdgeType::Linear);
    edge.add_constraint(EdgeConstraint::max_length(scalar(5.0), ManufacturingProcess::CNCMilling));
    edge.set_length(scalar(5.0));
    assert!(edge.is_manufacturable());
    edge.set_length(scalar(5.5));
    assert!(!edge.is_manufacturable());
    let mut sharp =
        Edge::new(TopologyId::new("vertex", 0), TopologyId::new("vertex", 1), EdgeType::Sharp);
    sharp.set_length(scalar(3.0));
    assert_eq!(double(sharp.length), 0.0);
}

#[test]
fn curved_faces_need_a_surface_that_a_tool_can_reach() {
    let cylinder = |radius: f64| FaceSurface::Cylinder {
        center: point(0.0, 0.0, 0.0),
        axis: point(0.0, 0.0, 1.0),
        radius: scalar(radius),
        height: scalar(2.0),
    };
    let sphere =
        |radius: f64| FaceSurface::Sphere { center: point(0.0, 0.0, 0.0), radius: scalar(radius) };
    let face = |t: FaceType, s: FaceSurface| Face::with_surface(edge_ids(&["e1"]), t, s);
    assert!(face(FaceType::Cylindrical, cylinder(0.5)).is_manufacturable());
    assert!(!face(FaceType::Cylindrical, cylinder(0.4)).is_manufacturable());
    assert!(!Face::new(edge_ids(&["e1"]), FaceType::Cylindrical).is_manufacturable());
    assert!(face(FaceType::Spherical, sphere(1.0)).is_manufacturable());
    assert!(!face(FaceType::Spherical, sphere(0.9)).is_manufacturable());
    assert!(!face(FaceType::Spherical, cylinder(3.0)).is_manufacturable());
    assert!(Face::new(edge_ids(&["e1"]), FaceType::Parametric).is_manufacturable());
    let plain = face(FaceType::Cylindrical, cylinder(1.0));
    assert!(plain.normal.is_none());
    assert!(!plain.is_planar);
}

#[test]
fn face_constraints_look_at_area_and_kind() {
    let mut face = Face::new(edge_ids(&["e1", "e2", "e3"]), FaceType::Planar);
    face.set_area(scalar(10.0));
    let least = FaceConstraint::min_area(scalar(10.0), ManufacturingProcess::CNCMilling);
    assert!(least.is_satisfied(&face));
    let finish = FaceConstraint::surface_finish(scalar(1.6), ManufacturingProcess::CNCMilling);
    assert!(finish.is_satisfied(&face));
    assert!(finish.parameters.contains_key("max_roughness"));
    let draft = FaceConstraint::draft_angle(scalar(2.0), ManufacturingProcess::InjectionMolding);
    assert!(draft.parameters.contains_key("min_draft_angle"));
    let freeform = Face::new(edge_ids(&["e1"]), FaceType::Freeform);
    assert!(!finish.is_satisfied(&freeform));
    assert!(draft.is_satisfied(&freeform));
    let access = FaceConstraint {
        constraint_type: FaceConstraintType::ToolAccess,
        parameters: StringMap::new(),
        process: ManufacturingProcess::CNCMilling,
    };
    assert!(access.is_satisfied(&face));
    assert!(!access.is_satisfied(&Face::new(edge_ids(&["e1"]), FaceType::Spherical)));
    face.set_area(scalar(9.0));
    face.add_constraint(least);
    assert!(!face.is_manufacturable());
}

#[test]
fn a_shell_reports_its_first_fault() {
    let (f1, face) = create_test_face("f1");
    let known = faces_of(vec![(f1.clone(), face)]);
    let missing = Shell::open(vec![f1.clone(), FaceId::new("f9".to_string())]);
    assert_eq!(message_of(missing.validate(&known)), "Face f9 not found in collection");
    let closed = Shell::closed(vec![f1.clone()]);
    assert_eq!(
        message_of(closed.validate(&known)),
        "Edge e1 is shared by 1 faces (should be 2 for closed shell)"
    );
    let empty = Shell::closed(vec![]);
    assert_eq!(message_of(empty.validate(&known)), "Shell cannot be empty");
    let twice = Shell::closed(vec![f1.clone(), f1.clone()]);
    assert!(twice.validate(&known).is_ok());
    assert!(twice.is_manifold(&known));
    assert!(!closed.is_manifold(&known));
    let thrice = Shell::open(vec![f1.clone(), f1.clone(), f1]);
    assert!(!thrice.is_manifold(&known));
}

#[test]
fn the_genus_of_a_shell_comes_from_faces_and_edges() {
    let (f1, face) = create_test_face("f1");
    let wide = Face::new(edge_ids(&["e4", "e5", "e6", "e7", "e8"]), FaceType::Planar);
    let f2 = FaceId::new("f2".to_string());
    let known = faces_of(vec![(f1.clone(), face), (f2.clone(), wide)]);
    assert_eq!(Shell::closed(vec![f1.clone()]).genus(&known), 1);
    assert_eq!(Shell::closed(vec![f1.clone(), f2.clone()]).genus(&known), 3);
    assert_eq!(Shell::open(vec![f1.clone(), f2]).genus(&known), 0);
    assert_eq!(Shell::closed(vec![f1.clone(), f1.clone(), f1.clone(), f1.clone(), f1]).genus(&known), 0);
    assert_eq!(Shell::closed(vec![]).genus(&known), 0);
}

#[test]
fn a_thin_closed_shell_cannot_be_made() {
    let (f1, face) = create_test_face("f1");
    let known = faces_of(vec![(f1.clone(), face)]);
    let mut shell = Shell::closed(vec![f1.clone()]);
    shell.surface_area = scalar(100.0);
    shell.volume = scalar(0.05);
    shell.thickness = scalar(0.05 / 100.0);
    assert!(!shell.is_manufacturable(&known));
    shell.volume = scalar(0.1);
    shell.thickness = scalar(0.1 / 100.0);
    assert!(shell.is_manufacturable(&known));
    shell.add_constraint(ShellConstraint::min_wall_thickness(
        scalar(0.01),
        ManufacturingProcess::CNCMilling,
    ));
    assert!(!shell.is_manufacturable(&known));
    let mut reachable = Shell::open(vec![f1.clone()]);
    reachable.add_constraint(ShellConstraint::tool_access(ManufacturingProcess::CNCMilling));
    assert!(reachable.is_manufacturable(&known));
    let round = faces_of(vec![(f1.clone(), Face::new(edge_ids(&["e1"]), FaceType::Parametric))]);
    assert!(!reachable.is_manufacturable(&round));
    let mut printed = Shell::open(vec![f1]);
    printed.add_constraint(ShellConstraint::tool_access(ManufacturingProcess::Printing3D));
    printed.add_constraint(ShellConstraint::max_aspect_ratio(
        scalar(3.0),
        ManufacturingProcess::Printing3D,
    ));
    assert!(printed.is_manufacturable(&round));
    assert_eq!(printed.check_orientation(&round).ok(), Some(true));
    assert!(printed.is_oriented);
}

#[test]
fn an_edge_needs_its_vertices_and_a_face_its_edges() {
    let mut complex = TopologicalComplex::new();
    let a = complex.add_vertex(Vertex::new(point(0.0, 0.0, 0.0))).unwrap();
    let b = complex.add_vertex(Vertex::with_tolerance(point(1.0, 0.0, 0.0), scalar(0.5))).unwrap();
    assert_eq!(a.as_str(), "vertex_0");
    assert_eq!(b.as_str(), "vertex_1");
    assert_eq!(double(complex.vertices.get("vertex_0").unwrap().tolerance), 1e-6);
    assert_eq!(double(complex.vertices.get("vertex_1").unwrap().tolerance), 0.5);
    let stray = Edge::new(a.clone(), TopologyId::new("vertex", 7), EdgeType::Linear);
    assert_eq!(message_of(complex.add_edge(stray)), "Edge vertices must exist in complex");
    assert_eq!(complex.edges.len(), 0);
    let edge = complex.add_edge(Edge::new(a.clone(), b.clone(), EdgeType::Linear)).unwrap();
    assert_eq!(edge.as_str(), "edge_0");
    let ends: Vec<&str> = complex.get_edge_vertices(&edge).iter().map(|v| v.as_str()).collect();
    assert_eq!(ends, vec!["vertex_0", "vertex_1"]);
    assert!(complex.get_edge_vertices(&EdgeId::new("edge_5".to_string())).is_empty());
    let related: Vec<&str> =
        complex.adjacency.get_vertices_for_edge(&edge).iter().map(|v| v.as_str()).collect();
    assert_eq!(related, vec!["vertex_0", "vertex_1"]);

    let face = Face::new(edge_ids(&["edge_0", "edge_3", "edge_0"]), FaceType::Planar);
    assert_eq!(message_of(complex.add_face(face)), "Face edges must exist in complex");
    assert_eq!(complex.faces.len(), 0);
    assert_eq!(complex.adjacency.get_faces_for_edge(&edge).len(), 1);
    let face = Face::new(edge_ids(&["edge_0"]), FaceType::Planar);
    let id = complex.add_face(face).unwrap();
    assert_eq!(id.as_str(), "face_0");
    let round: Vec<&str> = complex.get_face_edges(&id).iter().map(|e| e.as_str()).collect();
    assert_eq!(round, vec!["edge_0"]);
    assert!(complex.get_face_edges(&FaceId::new("face_4".to_string())).is_empty());
    assert!(complex.get_shell_faces(&ShellId::new("shell_0".to_string())).is_empty());
    assert_eq!(complex.genus(), 0);
}

#[test]
fn the_box_has_its_corners_edges_and_faces() {
    let complex = create_box_topology(scalar(2.0), scalar(3.0), scalar(4.0)).unwrap();
    let corner = |i: usize| doubles(&complex.vertices.get(&format!("vertex_{i}")).unwrap().position);
    assert_eq!(corner(0), [-1.0, -1.5, -2.0]);
    assert_eq!(corner(1), [1.0, -1.5, -2.0]);
    assert_eq!(corner(2), [1.0, 1.5, -2.0]);
    assert_eq!(corner(3), [-1.0, 1.5, -2.0]);
    assert_eq!(corner(4), [-1.0, -1.5, 2.0]);
    assert_eq!(corner(5), [1.0, -1.5, 2.0]);
    assert_eq!(corner(6), [1.0, 1.5, 2.0]);
    assert_eq!(corner(7), [-1.0, 1.5, 2.0]);
    let pairs = [
        (0, 1), (1, 2), (2, 3), (3, 0), (4, 5), (5, 6), (6, 7), (7, 4), (0, 4), (1, 5), (2, 6),
        (3, 7),
    ];
    for (i, (start, end)) in pairs.iter().enumerate() {
        let edge = complex.edges.get(&format!("edge_{i}")).unwrap();
        assert_eq!(edge.start_vertex.as_str(), format!("vertex_{start}"));
        assert_eq!(edge.end_vertex.as_str(), format!("vertex_{end}"));
        assert_eq!(edge.edge_type, EdgeType::Linear);
        let faces = complex.adjacency.get_faces_for_edge(&EdgeId::new(format!("edge_{i}")));
        assert_eq!(faces.len(), 2);
    }
    let rounds = [
        [0, 1, 2, 3], [4, 5, 6, 7], [0, 9, 4, 8], [2, 11, 6, 10], [3, 11, 7, 8], [1, 10, 5, 9],
    ];
    for (i, round) in rounds.iter().enumerate() {
        let face = complex.faces.get(&format!("face_{i}")).unwrap();
        let listed: Vec<String> = face.boundary_edges.iter().map(|e| e.as_str().to_string()).collect();
        let wanted: Vec<String> = round.iter().map(|e| format!("edge_{e}")).collect();
        assert_eq!(listed, wanted);
        assert_eq!(face.face_type, FaceType::Planar);
    }
    assert!(complex.validate().is_ok());
}

#[test]
fn a_solid_must_have_the_characteristic_of_a_sphere() {
    let mut complex = create_box_topology(scalar(1.0), scalar(1.0), scalar(1.0)).unwrap();
    let all: Vec<FaceId> = (0..6).map(|i| FaceId::new(format!("face_{i}"))).collect();
    complex.shells.insert("shell_0".to_string(), Shell::closed(all));
    complex
        .solids
        .insert("solid_0".to_string(), Solid::new(ShellId::new("shell_0".to_string()), SolidType::Simple));
    let shell = complex.shells.get("shell_0").unwrap();
    let counts = complex.shell_counts(shell);
    assert_eq!((counts.vertices, counts.edges, counts.faces), (8, 12, 6));
    assert!(shell.validate(&complex.faces).is_ok());
    assert!(shell.is_manifold(&complex.faces));
    assert_eq!(shell.genus(&complex.faces), 3);
    assert!(complex.validate().is_ok());
    let faces: Vec<&str> = complex
        .get_shell_faces(&ShellId::new("shell_0".to_string()))
        .iter()
        .map(|f| f.as_str())
        .collect();
    assert_eq!(faces.len(), 6);

    complex.shells.insert(
        "shell_1".to_string(),
        Shell::open(vec![FaceId::new("face_0".to_string())]),
    );
    let mut holed = Solid::new(ShellId::new("shell_9".to_string()), SolidType::Composite);
    holed.add_inner_shell(ShellId::new("shell_1".to_string()));
    complex.solids.insert("solid_1".to_string(), holed);
    assert_eq!(
        message_of(complex.validate()),
        "Solid violates Euler characteristic - topology may be invalid"
    );
    let one = complex.solids.get("solid_1").unwrap();
    assert!(complex.is_below_sphere(one));
    assert!(!complex.is_below_sphere(complex.solids.get("solid_0").unwrap()));
}

#[test]
fn a_complex_with_an_edge_between_three_faces_is_not_manifold() {
    let mut complex = TopologicalComplex::new();
    let a = complex.add_vertex(Vertex::new(point(0.0, 0.0, 0.0))).unwrap();
    let b = complex.add_vertex(Vertex::new(point(1.0, 0.0, 0.0))).unwrap();
    complex.add_edge(Edge::new(a, b, EdgeType::Linear)).unwrap();
    for _ in 0..2 {
        complex.add_face(Face::new(edge_ids(&["edge_0"]), FaceType::Planar)).unwrap();
    }
    assert!(complex.is_manifold());
    complex.add_face(Face::new(edge_ids(&["edge_0"]), FaceType::Planar)).unwrap();
    assert!(!complex.is_manifold());
}

#[test]
fn a_solid_reports_its_first_fault() {
    let faces: StringMap<Face> = faces_of(vec![create_test_face("f1")]);
    let mut shells: StringMap<Shell> = StringMap::new();
    let solid = Solid::new(ShellId::new("outer".to_string()), SolidType::Simple);
    assert_eq!(message_of(solid.validate(&shells, &faces)), "Outer shell not found");
    shells.insert("outer".to_string(), Shell::open(vec![FaceId::new("f1".to_string())]));
    assert_eq!(message_of(solid.validate(&shells, &faces)), "Solid outer shell must be closed");
    let twice = vec![FaceId::new("f1".to_string()), FaceId::new("f1".to_string())];
    shells.insert("outer".to_string(), Shell::closed(twice.clone()));
    assert!(solid.validate(&shells, &faces).is_ok());
    assert!(solid.is_manifold(&shells, &faces));
    assert_eq!(
        message_of(solid.validate(&shells, &StringMap::new())),
        "Face f1 not found in collection"
    );
    let mut holed = Solid::new(ShellId::new("outer".to_string()), SolidType::Composite);
    holed.add_inner_shell(ShellId::new("inner".to_string()));
    assert_eq!(message_of(holed.validate(&shells, &faces)), "Inner shell inner not found");
    shells.insert("inner".to_string(), Shell::open(twice));
    assert_eq!(message_of(holed.validate(&shells, &faces)), "Solid inner shells must be closed");
    shells.insert("inner".to_string(), Shell::closed(vec![FaceId::new("f1".to_string())]));
    assert_eq!(
        message_of(holed.validate(&shells, &faces)),
        "Edge e1 is shared by 1 faces (should be 2 for closed shell)"
    );
    assert!(!holed.is_manifold(&shells, &faces));
    assert!(holed.is_manifold(&shells, &StringMap::new()));
}

#[test]
fn complexity_counts_kind_voids_faces_and_thickness() {
    let faces: StringMap<Face> = faces_of(vec![create_test_face("f1")]);
    let mut shells: StringMap<Shell> = StringMap::new();
    shells.insert("outer".to_string(), Shell::closed(vec![FaceId::new("f1".to_string())]));
    let mut solid = Solid::new(ShellId::new("outer".to_string()), SolidType::Sheet);
    assert_eq!(solid.manufacturing_complexity(&shells, &faces), 20 + 2 + 25);
    solid.surface_area = scalar(10.0);
    solid.volume = scalar(0.5);
    solid.thickness = scalar(0.05);
    assert_eq!(solid.manufacturing_complexity(&shells, &faces), 20 + 2 + 25 + 20);
    assert!(!solid.is_manufacturable(&shells, &faces));
    solid.thickness = scalar(11.0);
    assert_eq!(solid.manufacturing_complexity(&shells, &faces), 20 + 2 + 25 + 15);
    solid.add_inner_shell(ShellId::new("a".to_string()));
    solid.add_inner_shell(ShellId::new("b".to_string()));
    assert_eq!(solid.manufacturing_complexity(&shells, &faces), 92);
    solid.add_inner_shell(ShellId::new("c".to_string()));
    assert_eq!(solid.manufacturing_complexity(&shells, &faces), 100);
    solid.update_compatible_processes(&shells, &faces);
    assert_eq!(solid.compatible_processes, vec![ManufacturingProcess::Printing3D]);
    let most = SolidConstraint::max_complexity(scalar(100.0), ManufacturingProcess::CNCMilling);
    assert!(most.is_satisfied(&solid, &shells, &faces));
    let less = SolidConstraint::max_complexity(scalar(99.5), ManufacturingProcess::CNCMilling);
    assert!(!less.is_satisfied(&solid, &shells, &faces));

    let mut wire = Solid::new(ShellId::new("none".to_string()), SolidType::Wire);
    assert_eq!(wire.manufacturing_complexity(&shells, &faces), 5);
    wire.update_compatible_processes(&shells, &faces);
    assert!(wire.compatible_processes.is_empty());
    assert!(!wire.is_manufacturable(&shells, &faces));
    let mut composite = Solid::new(ShellId::new("none".to_string()), SolidType::Composite);
    composite.update_compatible_processes(&shells, &faces);
    assert_eq!(
        composite.compatible_processes,
        vec![ManufacturingProcess::CNCMilling, ManufacturingProcess::Printing3D]
    );
    for i in 0..10 {
        composite.add_inner_shell(ShellId::new(format!("void_{i}")));
    }
    assert!(composite.is_manufacturable(&shells, &faces));
    composite.add_inner_shell(ShellId::new("void_10".to_string()));
    assert!(!composite.is_manufacturable(&shells, &faces));
    let assembly = Solid::new(ShellId::new("none".to_string()), SolidType::Assembly);
    assert!(!assembly.is_manufacturable(&shells, &faces));
}

#[test]
fn a_sheet_must_be_of_reasonable_thickness() {
    let shells: StringMap<Shell> = StringMap::new();
    let faces: StringMap<Face> = StringMap::new();
    let mut sheet = Solid::new(ShellId::new("none".to_string()), SolidType::Sheet);
    assert!(!sheet.is_manufacturable(&shells, &faces));
    sheet.volume = scalar(10.0);
    sheet.surface_area = scalar(100.0);
    sheet.thickness = scalar(0.1);
    assert!(sheet.is_manufacturable(&shells, &faces));
    sheet.thickness = scalar(100.5);
    assert!(!sheet.is_manufacturable(&shells, &faces));
    sheet.thickness = scalar(0.09);
    assert!(!sheet.is_manufacturable(&shells, &faces));
}

#[test]
fn a_material_must_suit_the_process() {
    let shells: StringMap<Shell> = StringMap::new();
    let faces: StringMap<Face> = StringMap::new();
    let with = |m: Option<MaterialSpec>| {
        let mut solid = Solid::new(ShellId::new("s".to_string()), SolidType::Simple);
        solid.material = m;
        solid
    };
    let suits = |p: ManufacturingProcess, s: &Solid| {
        SolidConstraint::material_compatible(p).is_satisfied(s, &shells, &faces)
    };
    assert!(!suits(ManufacturingProcess::CNCMilling, &with(None)));
    assert!(suits(ManufacturingProcess::CNCMilling, &with(Some(MaterialSpec::steel()))));
    assert!(!suits(ManufacturingProcess::Printing3D, &with(Some(MaterialSpec::steel()))));
    assert!(suits(ManufacturingProcess::Printing3D, &with(Some(MaterialSpec::plastic_abs()))));
    assert!(suits(ManufacturingProcess::InjectionMolding, &with(Some(MaterialSpec::plastic_abs()))));
    assert!(!suits(ManufacturingProcess::InjectionMolding, &with(Some(MaterialSpec::aluminum()))));
    assert!(suits(ManufacturingProcess::DieCasting, &with(Some(MaterialSpec::aluminum()))));
    let abs = MaterialSpec::plastic_abs();
    assert_eq!(abs.name, "ABS Plastic");
    assert_eq!(abs.youngs_modulus.map(double), Some(2.3e9));
    assert_eq!(abs.poissons_ratio.map(double), Some(0.40));
    assert_eq!(abs.yield_strength.map(double), Some(40e6));
    assert_eq!(abs.manufacturing_properties.get("bed_temperature").map(|s| double(*s)), Some(80.0));
    let al = MaterialSpec::aluminum();
    assert_eq!(al.youngs_modulus.map(double), Some(69e9));
    assert_eq!(al.poissons_ratio.map(double), Some(0.33));
    assert_eq!(al.yield_strength.map(double), Some(276e6));
    assert_eq!(al.manufacturing_properties.get("weldability_rating").map(|s| double(*s)), Some(85.0));
    let steel = MaterialSpec::steel();
    assert_eq!(steel.name, "Carbon Steel 1020");
    assert_eq!(steel.youngs_modulus.map(double), Some(200e9));
    assert_eq!(steel.poissons_ratio.map(double), Some(0.30));
    assert_eq!(steel.yield_strength.map(double), Some(350e6));
    assert_eq!(
        steel.manufacturing_properties.get("machinability_rating").map(|s| double(*s)),
        Some(70.0)
    );
}

#[test]
fn collections_give_out_ids_in_turn() {
    let mut edges = EdgeCollection::new();
    assert!(edges.validate().is_ok());
    let v = |i: usize| TopologyId::new("vertex", i);
    let first = edges.add_edge(Edge::new(v(0), v(1), EdgeType::Linear)).unwrap();
    let second = edges.add_edge(Edge::new(v(1), v(2), EdgeType::Sharp)).unwrap();
    assert_eq!(first.as_str(), "e_0");
    assert_eq!(second.as_str(), "e_1");
    let forth = edges.get_half_edge(&HalfEdgeId::new("he_2".to_string())).unwrap();
    assert_eq!(forth.edge_id.as_str(), "e_1");
    assert_eq!(forth.vertex.as_str(), "vertex_1");
    assert!(forth.forward);
    assert_eq!(forth.twin.as_ref().map(|t| t.as_str()), Some("he_3"));
    let back = edges.get_half_edge(&HalfEdgeId::new("he_3".to_string())).unwrap();
    assert_eq!(back.vertex.as_str(), "vertex_2");
    assert!(!back.forward);
    assert_eq!(back.twin.as_ref().map(|t| t.as_str()), Some("he_2"));
    assert!(edges.get_half_edge(&HalfEdgeId::new("he_4".to_string())).is_none());
    let at: Vec<String> = edges.edges_at_vertex(&v(1)).iter().map(|e| e.as_str().to_string()).collect();
    assert_eq!(at, vec!["e_0", "e_1"]);
    assert_eq!(edges.edges_at_vertex(&v(0)).len(), 1);
    let stats = edges.stats();
    assert_eq!((stats.linear, stats.circular, stats.spline, stats.sharp), (1, 0, 0, 1));
    assert_eq!(message_of(edges.validate()), "Half-edge twin relationship broken");

    let mut faces = FaceCollection::new();
    let refused = faces.add_face(Face::new(edge_ids(&["e_0", "e_1"]), FaceType::Planar));
    assert_eq!(message_of(refused), "Face must have at least 3 boundary edges");
    let id = faces.add_face(Face::new(edge_ids(&["e_0", "e_1", "e_2"]), FaceType::Freeform)).unwrap();
    assert_eq!(id.as_str(), "f_1");
    assert_eq!(faces.faces_with_edge(&EdgeId::new("e_1".to_string())).len(), 1);
    assert!(faces.faces_with_edge(&EdgeId::new("e_7".to_string())).is_empty());
    assert!(faces.validate().is_ok());
    let stats = faces.stats();
    assert_eq!((stats.total_faces, stats.freeform, stats.planar, stats.manufacturable), (1, 1, 0, 0));

    let mut shells = ShellCollection::new();
    assert_eq!(
        message_of(shells.add_shell(Shell::closed(vec![]))),
        "Shell must contain at least one face"
    );
    let id = shells.add_shell(Shell::open(vec![FaceId::new("f_1".to_string())])).unwrap();
    assert_eq!(id.as_str(), "s_1");
    assert_eq!(shells.shells_with_face(&FaceId::new("f_1".to_string())).len(), 1);
    assert!(shells.shells_with_face(&FaceId::new("f_0".to_string())).is_empty());
    assert!(shells.validate(faces.as_map()).is_ok());
    assert_eq!(
        message_of(shells.validate(&StringMap::new())),
        "Face f_1 not found in collection"
    );
    let stats = shells.stats(faces.as_map());
    assert_eq!((stats.open, stats.closed, stats.wire), (1, 0, 0));
    assert_eq!((stats.manifold, stats.manufacturable), (1, 0));

    let mut solids = TopologicalSolid::new();
    let id = solids.add_solid(Solid::new(ShellId::new("s_1".to_string()), SolidType::Simple)).unwrap();
    assert_eq!(id.as_str(), "solid_0");
    assert_eq!(
        message_of(solids.validate(shells.as_map(), faces.as_map())),
        "Solid outer shell must be closed"
    );
    let stats = solids.stats(shells.as_map(), faces.as_map());
    assert_eq!((stats.total_solids, stats.simple, stats.manufacturable), (1, 1, 0));
}

#[test]
fn a_shell_turns_its_faces_round() {
    let (f1, face) = create_test_face("f1");
    let (f2, mut other) = create_test_face("f2");
    other.normal = Some(point(0.0, 1.0, 0.0));
    let mut known = faces_of(vec![(f1.clone(), face), (f2.clone(), other)]);
    let shell = Shell::open(vec![f2.clone(), FaceId::new("f7".to_string())]);
    assert!(shell.reverse_orientation(&mut known).is_ok());
    let kept = known.get("f1").unwrap();
    assert_eq!(kept.orientation, FaceOrientation::Outward);
    let turned = known.get("f2").unwrap();
    assert_eq!(turned.orientation, FaceOrientation::Inward);
    assert_eq!(turned.normal.map(|n| doubles(&n)), Some([0.0, -1.0, 0.0]));
    let round: Vec<&str> = turned.boundary_edges.iter().map(|e| e.as_str()).collect();
    assert_eq!(round, vec!["e3", "e2", "e1"]);
    assert_eq!(known.len(), 2);
    let twice = Shell::open(vec![f2.clone(), f2]);
    assert!(twice.reverse_orientation(&mut known).is_ok());
    assert_eq!(known.get("f2").unwrap().orientation, FaceOrientation::Inward);
    assert_eq!(kept_normal(&known), Some([0.0, -1.0, 0.0]));
}

fn kept_normal(known: &StringMap<Face>) -> Option<[f64; 3]> {
    known.get("f2").unwrap().normal.map(|n| doubles(&n))
}
