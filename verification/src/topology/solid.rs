//! Solids: a closed outer shell and the shells of the voids inside it.
//!
//! Volume, surface and mass of a solid, and its volume divided by its
//! surface, are measured outside the kernel and kept on the solid; what
//! follows from them and from the solid's shells is decided here.

use vstd::prelude::*;
use vstd::string::*;
use crate::errors::{join3, ErrorCode, KernelError, KernelResult};
use crate::ir::feature::ManufacturingProcess;
use crate::scalar::{counted, Scalar};
use crate::string_map::StringMap;
use crate::text::{contains_text, str_contains};
use crate::topology::edge::DEFAULT_TOLERANCE;
use crate::topology::face::Face;
use crate::topology::shell::Shell;
use crate::topology::{
    AssemblyConstraintType, InterfaceType, ShellId, ShellType, SolidConstraintType, SolidType,
};
use crate::types::BoundingBox;

verus! {

/// The double 0.1: a solid thinner than this is hard to make, and a sheet
/// thinner than this is none.
pub const THIN: u64 = 0x3FB9_9999_9999_999A;

/// The double 10.0: a solid thicker than this is hard to make.
pub const THICK: u64 = 0x4024_0000_0000_0000;

/// The double 100.0: a sheet thicker than this is none.
pub const MAX_SHEET: u64 = 0x4059_0000_0000_0000;

/// The greatest number of voids in a composite solid that can be made.
pub const MAX_VOIDS: usize = 10;

/// A solid more complex than this can only be printed.
pub const PRINT_ONLY: u8 = 80;

/// What a solid is made of.
#[derive(Debug, Clone)]
pub struct MaterialSpec {
    pub name: String,
    pub density: Scalar,
    pub youngs_modulus: Option<Scalar>,
    pub poissons_ratio: Option<Scalar>,
    pub yield_strength: Option<Scalar>,
    pub manufacturing_properties: StringMap<Scalar>,
}

impl MaterialSpec {
    fn of(
        name: &str,
        density: u64,
        youngs_modulus: u64,
        poissons_ratio: u64,
        yield_strength: u64,
        first: &str,
        first_value: u64,
        second: &str,
        second_value: u64,
    ) -> (m: Self)
        ensures
            m.name@ == name@,
            m.density.bits == density,
            m.youngs_modulus == Some(Scalar { bits: youngs_modulus }),
            m.poissons_ratio == Some(Scalar { bits: poissons_ratio }),
            m.yield_strength == Some(Scalar { bits: yield_strength }),
            m.manufacturing_properties@ == Map::<Seq<char>, Scalar>::empty().insert(
                first@,
                Scalar { bits: first_value },
            ).insert(second@, Scalar { bits: second_value }),
    {
        let mut properties = StringMap::new();
        properties.insert(String::from_str(first), Scalar::from_bits(first_value));
        properties.insert(String::from_str(second), Scalar::from_bits(second_value));
        MaterialSpec {
            name: String::from_str(name),
            density: Scalar::from_bits(density),
            youngs_modulus: Some(Scalar::from_bits(youngs_modulus)),
            poissons_ratio: Some(Scalar::from_bits(poissons_ratio)),
            yield_strength: Some(Scalar::from_bits(yield_strength)),
            manufacturing_properties: properties,
        }
    }

    /// Aluminum 6061: density 2700, modulus 69e9, ratio 0.33, yield 276e6;
    /// machinability 80, weldability 85.
    pub fn aluminum() -> (m: Self)
        ensures
            m.name@ == "Aluminum 6061"@,
            m.density.bits == 0x40A5_1800_0000_0000,
            m.youngs_modulus == Some(Scalar { bits: 0x4230_10B8_7200_0000 }),
            m.poissons_ratio == Some(Scalar { bits: 0x3FD5_1EB8_51EB_851F }),
            m.yield_strength == Some(Scalar { bits: 0x41B0_736D_0000_0000 }),
            m.manufacturing_properties@ == Map::<Seq<char>, Scalar>::empty().insert(
                "machinability_rating"@,
                Scalar { bits: 0x4054_0000_0000_0000 },
            ).insert("weldability_rating"@, Scalar { bits: 0x4055_4000_0000_0000 }),
    {
        MaterialSpec::of(
            "Aluminum 6061",
            0x40A5_1800_0000_0000,
            0x4230_10B8_7200_0000,
            0x3FD5_1EB8_51EB_851F,
            0x41B0_736D_0000_0000,
            "machinability_rating",
            0x4054_0000_0000_0000,
            "weldability_rating",
            0x4055_4000_0000_0000,
        )
    }

    /// Carbon Steel 1020: density 7850, modulus 200e9, ratio 0.30, yield
    /// 350e6; machinability 70, weldability 90.
    pub fn steel() -> (m: Self)
        ensures
            m.name@ == "Carbon Steel 1020"@,
            m.density.bits == 0x40BE_AA00_0000_0000,
            m.youngs_modulus == Some(Scalar { bits: 0x4247_4876_E800_0000 }),
            m.poissons_ratio == Some(Scalar { bits: 0x3FD3_3333_3333_3333 }),
            m.yield_strength == Some(Scalar { bits: 0x41B4_DC93_8000_0000 }),
            m.manufacturing_properties@ == Map::<Seq<char>, Scalar>::empty().insert(
                "machinability_rating"@,
                Scalar { bits: 0x4051_8000_0000_0000 },
            ).insert("weldability_rating"@, Scalar { bits: 0x4056_8000_0000_0000 }),
    {
        MaterialSpec::of(
            "Carbon Steel 1020",
            0x40BE_AA00_0000_0000,
            0x4247_4876_E800_0000,
            0x3FD3_3333_3333_3333,
            0x41B4_DC93_8000_0000,
            "machinability_rating",
            0x4051_8000_0000_0000,
            "weldability_rating",
            0x4056_8000_0000_0000,
        )
    }

    /// ABS Plastic: density 1040, modulus 2.3e9, ratio 0.40, yield 40e6;
    /// printed at 230 on a bed at 80.
    pub fn plastic_abs() -> (m: Self)
        ensures
            m.name@ == "ABS Plastic"@,
            m.density.bits == 0x4090_4000_0000_0000,
            m.youngs_modulus == Some(Scalar { bits: 0x41E1_22E6_E000_0000 }),
            m.poissons_ratio == Some(Scalar { bits: 0x3FD9_9999_9999_999A }),
            m.yield_strength == Some(Scalar { bits: 0x4183_12D0_0000_0000 }),
            m.manufacturing_properties@ == Map::<Seq<char>, Scalar>::empty().insert(
                "print_temperature"@,
                Scalar { bits: 0x406C_C000_0000_0000 },
            ).insert("bed_temperature"@, Scalar { bits: 0x4054_0000_0000_0000 }),
    {
        MaterialSpec::of(
            "ABS Plastic",
            0x4090_4000_0000_0000,
            0x41E1_22E6_E000_0000,
            0x3FD9_9999_9999_999A,
            0x4183_12D0_0000_0000,
            "print_temperature",
            0x406C_C000_0000_0000,
            "bed_temperature",
            0x4054_0000_0000_0000,
        )
    }
}

/// Where a part meets another.
#[derive(Debug, Clone)]
pub struct InterfaceLocation {
    pub surfaces: Vec<String>,
    pub coordinate_system: Option<[Scalar; 16]>,
}

/// How a part meets another.
#[derive(Debug, Clone)]
pub struct AssemblyInterface {
    pub interface_type: InterfaceType,
    pub mating_part: String,
    pub location: InterfaceLocation,
    pub tolerances: StringMap<Scalar>,
}

/// A relation that an assembly keeps between parts.
#[derive(Debug, Clone)]
pub struct AssemblyConstraint {
    pub constraint_type: AssemblyConstraintType,
    pub parameters: StringMap<Scalar>,
    pub related_parts: Vec<String>,
}

/// The place of a solid in an assembly.
#[derive(Debug, Clone)]
pub struct AssemblyInfo {
    pub assembly_name: String,
    pub part_number: String,
    pub interfaces: Vec<AssemblyInterface>,
    pub constraints: Vec<AssemblyConstraint>,
    pub installation_sequence: Option<u32>,
}

/// A limit that manufacturing puts on a solid.
#[derive(Debug, Clone)]
pub struct SolidConstraint {
    pub constraint_type: SolidConstraintType,
    pub parameters: StringMap<Scalar>,
    pub process: ManufacturingProcess,
}

/// A volume that can be made.
#[derive(Debug, Clone)]
pub struct Solid {
    pub outer_shell: ShellId,
    pub inner_shells: Vec<ShellId>,
    pub solid_type: SolidType,
    pub material: Option<MaterialSpec>,
    pub tolerance: Scalar,
    pub volume: Scalar,
    pub surface_area: Scalar,
    /// The volume divided by the surface; read only where the surface is
    /// greater than zero.
    pub thickness: Scalar,
    pub mass: Scalar,
    pub bounding_box: Option<BoundingBox>,
    pub manufacturing_constraints: Vec<SolidConstraint>,
    pub assembly_info: Option<AssemblyInfo>,
    pub compatible_processes: Vec<ManufacturingProcess>,
}

/// The ids that a sequence of shell ids holds.
pub open spec fn shell_ids(shells: Seq<ShellId>) -> Seq<Seq<char>> {
    Seq::new(shells.len(), |i: int| shells[i]@)
}

/// What is wrong with the first void that is not known or not closed.
pub open spec fn void_fault(ids: Seq<Seq<char>>, shells: Map<Seq<char>, Shell>) -> Option<
    Seq<char>,
>
    decreases ids.len(),
{
    if ids.len() == 0 {
        None
    } else if !shells.contains_key(ids.first()) {
        Some("Inner shell "@ + ids.first() + " not found"@)
    } else if shells[ids.first()].shell_type != ShellType::Closed {
        Some("Solid inner shells must be closed"@)
    } else {
        void_fault(ids.drop_first(), shells)
    }
}

/// What is wrong with the first of the known shells that has a fault.
pub open spec fn first_shell_fault(
    ids: Seq<Seq<char>>,
    shells: Map<Seq<char>, Shell>,
    faces: Map<Seq<char>, Face>,
) -> Option<Seq<char>>
    decreases ids.len(),
{
    if ids.len() == 0 {
        None
    } else if shells.contains_key(ids.first()) && shells[ids.first()].fault(faces) is Some {
        shells[ids.first()].fault(faces)
    } else {
        first_shell_fault(ids.drop_first(), shells, faces)
    }
}

/// Whether every known shell in the list holds.
pub open spec fn all_shells(
    ids: Seq<Seq<char>>,
    shells: Map<Seq<char>, Shell>,
    holds: spec_fn(Shell) -> bool,
) -> bool {
    forall|i: int| 0 <= i < ids.len() && shells.contains_key(#[trigger] ids[i]) ==> holds(shells[ids[i]])
}

/// The processes that suit a solid of the given kind, before its
/// complexity is looked at.
pub open spec fn processes_for(solid_type: SolidType) -> Seq<ManufacturingProcess> {
    match solid_type {
        SolidType::Sheet => seq![
            ManufacturingProcess::CNCMilling,
            ManufacturingProcess::Printing3D,
            ManufacturingProcess::SheetMetal,
        ],
        SolidType::Simple => seq![
            ManufacturingProcess::CNCMilling,
            ManufacturingProcess::Printing3D,
            ManufacturingProcess::CNCTurning,
            ManufacturingProcess::InjectionMolding,
            ManufacturingProcess::DieCasting,
        ],
        SolidType::Composite => seq![
            ManufacturingProcess::CNCMilling,
            ManufacturingProcess::Printing3D,
        ],
        SolidType::Assembly => Seq::empty(),
        SolidType::Wire => Seq::empty(),
    }
}

/// The processes that suit a solid of the given kind and complexity: a
/// very complex solid can only be printed.
pub open spec fn suitable_processes(solid_type: SolidType, complexity: int) -> Seq<
    ManufacturingProcess,
> {
    if complexity <= PRINT_ONLY {
        processes_for(solid_type)
    } else if processes_for(solid_type).len() > 0 {
        seq![ManufacturingProcess::Printing3D]
    } else {
        Seq::empty()
    }
}

impl SolidConstraint {
    /// Whether the solid meets the constraint. A least volume is held
    /// against the solid's volume, a greatest complexity against its
    /// complexity. A material must be given; it can be printed where it has
    /// a printing temperature, and moulded where its name says that it is
    /// a plastic or a polymer.
    pub open spec fn is_met(
        self,
        solid: Solid,
        shells: Map<Seq<char>, Shell>,
        faces: Map<Seq<char>, Face>,
    ) -> bool {
        match self.constraint_type {
            SolidConstraintType::MinVolume => self.parameters@.contains_key("min_volume"@)
                ==> self.parameters@["min_volume"@].le(solid.volume),
            SolidConstraintType::MaxComplexity => self.parameters@.contains_key("max_complexity"@)
                ==> (Scalar { bits: counted(solid.complexity(shells, faces) as u8) as u64 }).le(
                self.parameters@["max_complexity"@],
            ),
            SolidConstraintType::MaterialCompatible => match solid.material {
                Some(material) => match self.process {
                    ManufacturingProcess::Printing3D => material.manufacturing_properties@.contains_key(
                        "print_temperature"@,
                    ),
                    ManufacturingProcess::InjectionMolding => contains_text(
                        material.name@,
                        "Plastic"@,
                    ) || contains_text(material.name@, "Polymer"@),
                    _ => true,
                },
                None => false,
            },
        }
    }

    fn with_parameter(
        constraint_type: SolidConstraintType,
        name: &str,
        value: Scalar,
        process: ManufacturingProcess,
    ) -> (c: Self)
        ensures
            c.constraint_type == constraint_type,
            c.parameters@ == Map::<Seq<char>, Scalar>::empty().insert(name@, value),
            c.process == process,
    {
        let mut parameters = StringMap::new();
        parameters.insert(String::from_str(name), value);
        SolidConstraint { constraint_type, parameters, process }
    }

    /// The least volume of a solid.
    pub fn min_volume(volume: Scalar, process: ManufacturingProcess) -> (c: Self)
        ensures
            c.constraint_type == SolidConstraintType::MinVolume,
            c.parameters@ == Map::<Seq<char>, Scalar>::empty().insert("min_volume"@, volume),
            c.process == process,
    {
        SolidConstraint::with_parameter(SolidConstraintType::MinVolume, "min_volume", volume, process)
    }

    /// The greatest complexity of a solid.
    pub fn max_complexity(complexity: Scalar, process: ManufacturingProcess) -> (c: Self)
        ensures
            c.constraint_type == SolidConstraintType::MaxComplexity,
            c.parameters@ == Map::<Seq<char>, Scalar>::empty().insert(
                "max_complexity"@,
                complexity,
            ),
            c.process == process,
    {
        SolidConstraint::with_parameter(
            SolidConstraintType::MaxComplexity,
            "max_complexity",
            complexity,
            process,
        )
    }

    /// That the material must suit the process.
    pub fn material_compatible(process: ManufacturingProcess) -> (c: Self)
        ensures
            c.constraint_type == SolidConstraintType::MaterialCompatible,
            c.parameters@ == Map::<Seq<char>, Scalar>::empty(),
            c.process == process,
    {
        SolidConstraint {
            constraint_type: SolidConstraintType::MaterialCompatible,
            parameters: StringMap::new(),
            process,
        }
    }

    pub fn is_satisfied(
        &self,
        solid: &Solid,
        shell_collection: &StringMap<Shell>,
        face_collection: &StringMap<Face>,
    ) -> (b: bool)
        ensures
            b == self.is_met(*solid, shell_collection@, face_collection@),
    {
        match self.constraint_type {
            SolidConstraintType::MinVolume => match self.parameters.get("min_volume") {
                Some(least) => least.le_exec(&solid.volume),
                None => true,
            },
            SolidConstraintType::MaxComplexity => match self.parameters.get("max_complexity") {
                Some(most) => {
                    let complexity = solid.manufacturing_complexity(
                        shell_collection,
                        face_collection,
                    );
                    Scalar::from_count(complexity).le_exec(most)
                },
                None => true,
            },
            SolidConstraintType::MaterialCompatible => match &solid.material {
                Some(material) => match self.process {
                    ManufacturingProcess::Printing3D => material.manufacturing_properties.contains_key(
                        "print_temperature",
                    ),
                    ManufacturingProcess::InjectionMolding => str_contains(
                        material.name.as_str(),
                        "Plastic",
                    ) || str_contains(material.name.as_str(), "Polymer"),
                    _ => true,
                },
                None => false,
            },
        }
    }
}

impl Solid {
    /// The ids of the solid's shells: the outer one, then the voids.
    pub open spec fn shells(self) -> Seq<Seq<char>> {
        seq![self.outer_shell@] + shell_ids(self.inner_shells@)
    }

    /// What is wrong with the solid, in words: that the outer shell is not
    /// known or not closed; the same of the first such void; the fault of
    /// the first shell that has one.
    pub open spec fn fault(self, shells: Map<Seq<char>, Shell>, faces: Map<Seq<char>, Face>) -> Option<
        Seq<char>,
    > {
        if !shells.contains_key(self.outer_shell@) {
            Some("Outer shell not found"@)
        } else if shells[self.outer_shell@].shell_type != ShellType::Closed {
            Some("Solid outer shell must be closed"@)
        } else if void_fault(shell_ids(self.inner_shells@), shells) is Some {
            void_fault(shell_ids(self.inner_shells@), shells)
        } else {
            first_shell_fault(self.shells(), shells, faces)
        }
    }

    /// Whether each of the solid's known shells shares its edges as a
    /// surface does.
    pub open spec fn shares_edges_well(
        self,
        shells: Map<Seq<char>, Shell>,
        faces: Map<Seq<char>, Face>,
    ) -> bool {
        all_shells(self.shells(), shells, |s: Shell| s.shares_edges_well(faces))
    }

    /// How hard the solid is to make, from 0 to 100: a base for its kind,
    /// 15 for each void, 2 for each face of the outer shell, 25 where that
    /// shell shares its edges badly, and 20 for a thin or 15 for a thick
    /// solid.
    pub open spec fn complexity(self, shells: Map<Seq<char>, Shell>, faces: Map<Seq<char>, Face>) -> int {
        let base: int = match self.solid_type {
            SolidType::Simple => 10,
            SolidType::Composite => 30,
            SolidType::Assembly => 50,
            SolidType::Sheet => 20,
            SolidType::Wire => 5,
        };
        let voids = 15 * self.inner_shells@.len();
        let outer = if shells.contains_key(self.outer_shell@) {
            2 * shells[self.outer_shell@].faces@.len() + if shells[self.outer_shell@].shares_edges_well(
                faces,
            ) {
                0int
            } else {
                25int
            }
        } else {
            0
        };
        let thin: int = if (Scalar { bits: 0 }).lt(self.surface_area) {
            if self.thickness.lt(Scalar { bits: THIN }) {
                20
            } else if (Scalar { bits: THICK }).lt(self.thickness) {
                15
            } else {
                0
            }
        } else {
            0
        };
        let sum = base + voids + outer + thin;
        if sum > 100 {
            100
        } else {
            sum
        }
    }

    /// Whether the solid can be made: it meets its constraints, its known
    /// shells can be made, and its kind allows it. A composite has at most
    /// ten voids, an assembly has its place, a sheet is between 0.1 and 100
    /// thick, and a wire cannot be made.
    pub open spec fn can_be_made(self, shells: Map<Seq<char>, Shell>, faces: Map<Seq<char>, Face>) -> bool {
        &&& forall|i: int|
            0 <= i < self.manufacturing_constraints@.len() ==> (
            #[trigger] self.manufacturing_constraints@[i]).is_met(self, shells, faces)
        &&& all_shells(self.shells(), shells, |s: Shell| s.can_be_made(faces))
        &&& match self.solid_type {
            SolidType::Simple => true,
            SolidType::Composite => self.inner_shells@.len() <= MAX_VOIDS,
            SolidType::Assembly => self.assembly_info is Some,
            SolidType::Sheet => (Scalar { bits: 0 }).lt(self.volume) && (Scalar { bits: 0 }).lt(
                self.surface_area,
            ) && (Scalar { bits: THIN }).le(self.thickness) && self.thickness.le(
                Scalar { bits: MAX_SHEET },
            ),
            SolidType::Wire => false,
        }
    }

    /// A solid inside the given shell, not yet measured.
    pub fn new(outer_shell: ShellId, solid_type: SolidType) -> (s: Self)
        ensures
            s.outer_shell == outer_shell,
            s.inner_shells@.len() == 0,
            s.solid_type == solid_type,
            s.material is None,
            s.tolerance.bits == DEFAULT_TOLERANCE,
            s.volume.bits == 0,
            s.surface_area.bits == 0,
            s.thickness.bits == 0,
            s.mass.bits == 0,
            s.bounding_box is None,
            s.manufacturing_constraints@.len() == 0,
            s.assembly_info is None,
            s.compatible_processes@.len() == 0,
    {
        Solid {
            outer_shell,
            inner_shells: Vec::new(),
            solid_type,
            material: None,
            tolerance: Scalar::from_bits(DEFAULT_TOLERANCE),
            volume: Scalar::zero(),
            surface_area: Scalar::zero(),
            thickness: Scalar::zero(),
            mass: Scalar::zero(),
            bounding_box: None,
            manufacturing_constraints: Vec::new(),
            assembly_info: None,
            compatible_processes: Vec::new(),
        }
    }

    /// A solid of the given material.
    pub fn with_material(outer_shell: ShellId, solid_type: SolidType, material: MaterialSpec) -> (s:
        Self)
        ensures
            s.outer_shell == outer_shell,
            s.inner_shells@.len() == 0,
            s.solid_type == solid_type,
            s.material == Some(material),
            s.tolerance.bits == DEFAULT_TOLERANCE,
            s.volume.bits == 0,
            s.surface_area.bits == 0,
            s.thickness.bits == 0,
            s.mass.bits == 0,
            s.bounding_box is None,
            s.manufacturing_constraints@.len() == 0,
            s.assembly_info is None,
            s.compatible_processes@.len() == 0,
    {
        let mut solid = Solid::new(outer_shell, solid_type);
        solid.material = Some(material);
        solid
    }

    /// Adds the shell of a void.
    pub fn add_inner_shell(&mut self, inner_shell: ShellId)
        ensures
            final(self).inner_shells@ == old(self).inner_shells@.push(inner_shell),
            final(self).outer_shell == old(self).outer_shell,
            final(self).solid_type == old(self).solid_type,
            final(self).material == old(self).material,
            final(self).tolerance == old(self).tolerance,
            final(self).volume == old(self).volume,
            final(self).surface_area == old(self).surface_area,
            final(self).thickness == old(self).thickness,
            final(self).mass == old(self).mass,
            final(self).bounding_box == old(self).bounding_box,
            final(self).manufacturing_constraints == old(self).manufacturing_constraints,
            final(self).assembly_info == old(self).assembly_info,
            final(self).compatible_processes == old(self).compatible_processes,
    {
        self.inner_shells.push(inner_shell);
    }

    /// Checks the solid against the shells it names and the faces they
    /// name.
    pub fn validate(&self, shell_collection: &StringMap<Shell>, face_collection: &StringMap<Face>) -> (r:
        KernelResult<()>)
        ensures
            match self.fault(shell_collection@, face_collection@) {
                Some(message) => r is Err && r->Err_0.is_plain(ErrorCode::InternalError, message),
                None => r is Ok,
            },
    {
        let ghost shells = shell_collection@;
        let ghost faces = face_collection@;
        let ghost voids = shell_ids(self.inner_shells@);
        let outer = match shell_collection.get(self.outer_shell.as_str()) {
            Some(outer) => outer,
            None => {
                return Err(KernelError::internal("Outer shell not found"));
            },
        };
        if outer.shell_type != ShellType::Closed {
            return Err(KernelError::internal("Solid outer shell must be closed"));
        }
        let n = self.inner_shells.len();
        let mut i: usize = 0;
        assert(voids.skip(0) == voids);
        while i < n
            invariant
                n == self.inner_shells@.len(),
                voids == shell_ids(self.inner_shells@),
                shells == shell_collection@,
                faces == face_collection@,
                shells.contains_key(self.outer_shell@),
                shells[self.outer_shell@].shell_type == ShellType::Closed,
                i <= n,
                void_fault(voids, shells) == void_fault(voids.skip(i as int), shells),
            decreases n - i,
        {
            proof {
                assert(voids.skip(i as int).first() == self.inner_shells@[i as int]@);
                assert(voids.skip(i as int).drop_first() == voids.skip(i + 1));
            }
            match shell_collection.get(self.inner_shells[i].as_str()) {
                Some(inner) => {
                    if inner.shell_type != ShellType::Closed {
                        return Err(KernelError::internal("Solid inner shells must be closed"));
                    }
                },
                None => {
                    let message = join3("Inner shell ", self.inner_shells[i].as_str(), " not found");
                    return Err(KernelError::internal(message.as_str()));
                },
            }
            i += 1;
        }
        assert(void_fault(voids, shells) is None);
        let ghost all = self.shells();
        assert(all.first() == self.outer_shell@);
        assert(all.drop_first() =~= voids);
        match outer.validate(face_collection) {
            Err(e) => {
                return Err(e);
            },
            Ok(_) => {},
        }
        let mut k: usize = 0;
        assert(voids.skip(0) == voids);
        while k < n
            invariant
                n == self.inner_shells@.len(),
                voids == shell_ids(self.inner_shells@),
                shells == shell_collection@,
                faces == face_collection@,
                k <= n,
                self.fault(shells, faces) == first_shell_fault(voids.skip(k as int), shells, faces),
            decreases n - k,
        {
            proof {
                assert(voids.skip(k as int).first() == self.inner_shells@[k as int]@);
                assert(voids.skip(k as int).drop_first() == voids.skip(k + 1));
            }
            match shell_collection.get(self.inner_shells[k].as_str()) {
                Some(inner) => match inner.validate(face_collection) {
                    Err(e) => {
                        return Err(e);
                    },
                    Ok(_) => {},
                },
                None => {},
            }
            k += 1;
        }
        Ok(())
    }

    /// Whether each of the solid's shells shares its edges as a surface
    /// does.
    pub fn is_manifold(&self, shell_collection: &StringMap<Shell>, face_collection: &StringMap<Face>) -> (b:
        bool)
        ensures
            b == self.shares_edges_well(shell_collection@, face_collection@),
    {
        let ghost shells = shell_collection@;
        let ghost faces = face_collection@;
        let ghost all = self.shells();
        let ghost holds = |s: Shell| s.shares_edges_well(faces);
        assert(all[0] == self.outer_shell@);
        match shell_collection.get(self.outer_shell.as_str()) {
            Some(outer) => {
                if !outer.is_manifold(face_collection) {
                    assert(!holds(shells[all[0]]));
                    return false;
                }
            },
            None => {},
        }
        let n = self.inner_shells.len();
        let mut i: usize = 0;
        while i < n
            invariant
                n == self.inner_shells@.len(),
                all == self.shells(),
                shells == shell_collection@,
                faces == face_collection@,
                holds == (|s: Shell| s.shares_edges_well(faces)),
                i <= n,
                forall|k: int|
                    0 <= k < i + 1 && shells.contains_key(#[trigger] all[k]) ==> holds(shells[all[k]]),
            decreases n - i,
        {
            assert(all[i + 1] == self.inner_shells@[i as int]@);
            match shell_collection.get(self.inner_shells[i].as_str()) {
                Some(inner) => {
                    if !inner.is_manifold(face_collection) {
                        assert(!holds(shells[all[i + 1]]));
                        return false;
                    }
                },
                None => {},
            }
            i += 1;
        }
        true
    }

    /// Whether the solid can be made.
    pub fn is_manufacturable(
        &self,
        shell_collection: &StringMap<Shell>,
        face_collection: &StringMap<Face>,
    ) -> (b: bool)
        ensures
            b == self.can_be_made(shell_collection@, face_collection@),
    {
        let ghost shells = shell_collection@;
        let ghost faces = face_collection@;
        let ghost all = self.shells();
        let ghost holds = |s: Shell| s.can_be_made(faces);
        let m = self.manufacturing_constraints.len();
        let mut j: usize = 0;
        while j < m
            invariant
                m == self.manufacturing_constraints@.len(),
                j <= m,
                forall|k: int|
                    0 <= k < j ==> (#[trigger] self.manufacturing_constraints@[k]).is_met(
                        *self,
                        shell_collection@,
                        face_collection@,
                    ),
            decreases m - j,
        {
            if !self.manufacturing_constraints[j].is_satisfied(
                self,
                shell_collection,
                face_collection,
            ) {
                return false;
            }
            j += 1;
        }
        assert(all[0] == self.outer_shell@);
        match shell_collection.get(self.outer_shell.as_str()) {
            Some(outer) => {
                if !outer.is_manufacturable(face_collection) {
                    assert(!holds(shells[all[0]]));
                    return false;
                }
            },
            None => {},
        }
        let n = self.inner_shells.len();
        let mut i: usize = 0;
        while i < n
            invariant
                n == self.inner_shells@.len(),
                all == self.shells(),
                shells == shell_collection@,
                faces == face_collection@,
                holds == (|s: Shell| s.can_be_made(faces)),
                i <= n,
                forall|k: int|
                    0 <= k < self.manufacturing_constraints@.len() ==> (
                    #[trigger] self.manufacturing_constraints@[k]).is_met(*self, shells, faces),
                forall|k: int|
                    0 <= k < i + 1 && shells.contains_key(#[trigger] all[k]) ==> holds(shells[all[k]]),
            decreases n - i,
        {
            assert(all[i + 1] == self.inner_shells@[i as int]@);
            match shell_collection.get(self.inner_shells[i].as_str()) {
                Some(inner) => {
                    if !inner.is_manufacturable(face_collection) {
                        assert(!holds(shells[all[i + 1]]));
                        return false;
                    }
                },
                None => {},
            }
            i += 1;
        }
        match self.solid_type {
            SolidType::Simple => true,
            SolidType::Composite => self.inner_shells.len() <= MAX_VOIDS,
            SolidType::Assembly => self.assembly_info.is_some(),
            SolidType::Sheet => Scalar::zero().lt_exec(&self.volume) && Scalar::zero().lt_exec(
                &self.surface_area,
            ) && Scalar::from_bits(THIN).le_exec(&self.thickness) && self.thickness.le_exec(
                &Scalar::from_bits(MAX_SHEET),
            ),
            SolidType::Wire => false,
        }
    }

    /// How hard the solid is to make, from 0 to 100.
    pub fn manufacturing_complexity(
        &self,
        shell_collection: &StringMap<Shell>,
        face_collection: &StringMap<Face>,
    ) -> (c: u8)
        ensures
            c == self.complexity(shell_collection@, face_collection@),
            c <= 100,
    {
        let base: u128 = match self.solid_type {
            SolidType::Simple => 10,
            SolidType::Composite => 30,
            SolidType::Assembly => 50,
            SolidType::Sheet => 20,
            SolidType::Wire => 5,
        };
        let voids: u128 = 15 * (self.inner_shells.len() as u128);
        let outer: u128 = match shell_collection.get(self.outer_shell.as_str()) {
            Some(outer) => {
                let faces: u128 = 2 * (outer.face_count() as u128);
                if outer.is_manifold(face_collection) {
                    faces
                } else {
                    faces + 25
                }
            },
            None => 0,
        };
        let thin: u128 = if Scalar::zero().lt_exec(&self.surface_area) {
            if self.thickness.lt_exec(&Scalar::from_bits(THIN)) {
                20
            } else if Scalar::from_bits(THICK).lt_exec(&self.thickness) {
                15
            } else {
                0
            }
        } else {
            0
        };
        let sum: u128 = base + voids + outer + thin;
        if sum > 100 {
            100
        } else {
            sum as u8
        }
    }

    /// Works out which processes suit the solid, and records them.
    pub fn update_compatible_processes(
        &mut self,
        shell_collection: &StringMap<Shell>,
        face_collection: &StringMap<Face>,
    )
        ensures
            final(self).compatible_processes@ == suitable_processes(
                old(self).solid_type,
                old(self).complexity(shell_collection@, face_collection@),
            ),
            final(self).outer_shell == old(self).outer_shell,
            final(self).inner_shells == old(self).inner_shells,
            final(self).solid_type == old(self).solid_type,
            final(self).material == old(self).material,
            final(self).tolerance == old(self).tolerance,
            final(self).volume == old(self).volume,
            final(self).surface_area == old(self).surface_area,
            final(self).thickness == old(self).thickness,
            final(self).mass == old(self).mass,
            final(self).bounding_box == old(self).bounding_box,
            final(self).manufacturing_constraints == old(self).manufacturing_constraints,
            final(self).assembly_info == old(self).assembly_info,
    {
        let complexity = self.manufacturing_complexity(shell_collection, face_collection);
        let mut processes: Vec<ManufacturingProcess> = Vec::new();
        match self.solid_type {
            SolidType::Sheet => {
                processes.push(ManufacturingProcess::CNCMilling);
                processes.push(ManufacturingProcess::Printing3D);
                processes.push(ManufacturingProcess::SheetMetal);
            },
            SolidType::Simple => {
                processes.push(ManufacturingProcess::CNCMilling);
                processes.push(ManufacturingProcess::Printing3D);
                processes.push(ManufacturingProcess::CNCTurning);
                processes.push(ManufacturingProcess::InjectionMolding);
                processes.push(ManufacturingProcess::DieCasting);
            },
            SolidType::Composite => {
                processes.push(ManufacturingProcess::CNCMilling);
                processes.push(ManufacturingProcess::Printing3D);
            },
            SolidType::Assembly => {},
            SolidType::Wire => {},
        }
        assert(processes@ =~= processes_for(self.solid_type));
        if complexity > PRINT_ONLY {
            let any = processes.len() > 0;
            processes = Vec::new();
            if any {
                processes.push(ManufacturingProcess::Printing3D);
            }
            assert(processes@ =~= suitable_processes(self.solid_type, complexity as int));
        }
        self.compatible_processes = processes;
    }

    pub fn add_constraint(&mut self, constraint: SolidConstraint)
        ensures
            final(self).manufacturing_constraints@ == old(self).manufacturing_constraints@.push(
                constraint,
            ),
            final(self).outer_shell == old(self).outer_shell,
            final(self).inner_shells == old(self).inner_shells,
            final(self).solid_type == old(self).solid_type,
            final(self).material == old(self).material,
            final(self).tolerance == old(self).tolerance,
            final(self).volume == old(self).volume,
            final(self).surface_area == old(self).surface_area,
            final(self).thickness == old(self).thickness,
            final(self).mass == old(self).mass,
            final(self).bounding_box == old(self).bounding_box,
            final(self).assembly_info == old(self).assembly_info,
            final(self).compatible_processes == old(self).compatible_processes,
    {
        self.manufacturing_constraints.push(constraint);
    }

    /// Records the solid's place in an assembly.
    pub fn set_assembly_info(&mut self, info: AssemblyInfo)
        ensures
            final(self).assembly_info == Some(info),
            final(self).outer_shell == old(self).outer_shell,
            final(self).inner_shells == old(self).inner_shells,
            final(self).solid_type == old(self).solid_type,
            final(self).material == old(self).material,
            final(self).tolerance == old(self).tolerance,
            final(self).volume == old(self).volume,
            final(self).surface_area == old(self).surface_area,
            final(self).thickness == old(self).thickness,
            final(self).mass == old(self).mass,
            final(self).bounding_box == old(self).bounding_box,
            final(self).manufacturing_constraints == old(self).manufacturing_constraints,
            final(self).compatible_processes == old(self).compatible_processes,
    {
        self.assembly_info = Some(info);
    }

    /// The number of shells: the outer one and the voids.
    pub fn shell_count(&self) -> (n: usize)
        requires
            self.inner_shells@.len() < usize::MAX,
        ensures
            n == 1 + self.inner_shells@.len(),
    {
        1 + self.inner_shells.len()
    }

    pub fn has_voids(&self) -> (b: bool)
        ensures
            b == (self.inner_shells@.len() > 0),
    {
        self.inner_shells.len() > 0
    }
}

} // verus!
