//! The primitive solids and the layout of their meshes.
//!
//! Where the vertices of a primitive lie is worked out in floating point,
//! outside the kernel. What is fixed here is everything else that makes a
//! tessellation deterministic: which parameters a primitive takes, how many
//! segments a subdivision level gives, how many vertices and triangles
//! result, and in which order the triangles list their vertices.

use vstd::prelude::*;
use vstd::string::*;
use crate::errors::{ErrorCode, KernelError, KernelResult};
use crate::geometry::params::missing_parameter;
use crate::scalar::Scalar;
use crate::string_map::StringMap;
use crate::types::{PrimitiveType, Transform};

verus! {

/// A box centred at the origin.
#[derive(Debug, Clone, Copy, PartialEq, Eq)]
pub struct Box {
    pub width: Scalar,
    pub height: Scalar,
    pub depth: Scalar,
    pub transform: Option<Transform>,
}

/// A cylinder along the vertical axis, centred at the origin.
#[derive(Debug, Clone, Copy, PartialEq, Eq)]
pub struct Cylinder {
    pub radius: Scalar,
    pub height: Scalar,
    pub transform: Option<Transform>,
}

/// A sphere centred at the origin.
#[derive(Debug, Clone, Copy, PartialEq, Eq)]
pub struct Sphere {
    pub radius: Scalar,
    pub transform: Option<Transform>,
}

/// A cone along the vertical axis, its apex up, centred at the origin.
#[derive(Debug, Clone, Copy, PartialEq, Eq)]
pub struct Cone {
    pub radius: Scalar,
    pub height: Scalar,
    pub transform: Option<Transform>,
}

/// A torus around the vertical axis, centred at the origin.
#[derive(Debug, Clone, Copy, PartialEq, Eq)]
pub struct Torus {
    pub major_radius: Scalar,
    pub minor_radius: Scalar,
    pub transform: Option<Transform>,
}

/// A primitive solid of one of the five kinds.
#[derive(Debug, Clone, Copy, PartialEq, Eq)]
pub enum Primitive {
    Box(Box),
    Cylinder(Cylinder),
    Sphere(Sphere),
    Cone(Cone),
    Torus(Torus),
}

/// Looks up a parameter that a primitive needs.
fn required(params: &StringMap<Scalar>, name: &str) -> (r: KernelResult<Scalar>)
    ensures
        match r {
            Ok(value) => params@.contains_key(name@) && value == params@[name@],
            Err(e) => !params@.contains_key(name@) && e.is_plain(
                ErrorCode::MissingParameter,
                "Missing required parameter: "@ + name@,
            ),
        },
{
    match params.get(name) {
        Some(value) => Ok(*value),
        None => Err(KernelError::missing_parameter(name)),
    }
}

impl Box {
    pub fn new(width: Scalar, height: Scalar, depth: Scalar) -> (b: Self)
        ensures
            b == (Box { width, height, depth, transform: None }),
    {
        Box { width, height, depth, transform: None }
    }

    pub fn with_transform(self, transform: Transform) -> (b: Self)
        ensures
            b == (Box { transform: Some(transform), ..self }),
    {
        Box { transform: Some(transform), ..self }
    }

    /// The box that the parameters describe, or the first of width,
    /// height and depth that is missing.
    pub fn from_params(params: &StringMap<Scalar>) -> (r: KernelResult<Self>)
        ensures
            match r {
                Ok(b) => missing_parameter(PrimitiveType::Box, params@.dom()) is None && b == (Box {
                    width: params@["width"@],
                    height: params@["height"@],
                    depth: params@["depth"@],
                    transform: None,
                }),
                Err(e) => missing_parameter(PrimitiveType::Box, params@.dom()) matches Some(name)
                    && e.is_plain(
                    ErrorCode::MissingParameter,
                    "Missing required parameter: "@ + name,
                ),
            },
    {
        proof {
            lemma_unfold_missing(PrimitiveType::Box, params@.dom());
        }
        let width = required(params, "width")?;
        let height = required(params, "height")?;
        let depth = required(params, "depth")?;
        Ok(Box::new(width, height, depth))
    }
}

impl Cylinder {
    pub fn new(radius: Scalar, height: Scalar) -> (c: Self)
        ensures
            c == (Cylinder { radius, height, transform: None }),
    {
        Cylinder { radius, height, transform: None }
    }

    /// The cylinder that the parameters describe, or the first of radius
    /// and height that is missing.
    pub fn from_params(params: &StringMap<Scalar>) -> (r: KernelResult<Self>)
        ensures
            match r {
                Ok(c) => missing_parameter(PrimitiveType::Cylinder, params@.dom()) is None && c
                    == (Cylinder {
                    radius: params@["radius"@],
                    height: params@["height"@],
                    transform: None,
                }),
                Err(e) => missing_parameter(
                    PrimitiveType::Cylinder,
                    params@.dom(),
                ) matches Some(name) && e.is_plain(
                    ErrorCode::MissingParameter,
                    "Missing required parameter: "@ + name,
                ),
            },
    {
        proof {
            lemma_unfold_missing(PrimitiveType::Cylinder, params@.dom());
        }
        let radius = required(params, "radius")?;
        let height = required(params, "height")?;
        Ok(Cylinder::new(radius, height))
    }
}

impl Sphere {
    pub fn new(radius: Scalar) -> (s: Self)
        ensures
            s == (Sphere { radius, transform: None }),
    {
        Sphere { radius, transform: None }
    }

    /// The sphere that the parameters describe, where they give a radius.
    pub fn from_params(params: &StringMap<Scalar>) -> (r: KernelResult<Self>)
        ensures
            match r {
                Ok(s) => missing_parameter(PrimitiveType::Sphere, params@.dom()) is None && s
                    == (Sphere { radius: params@["radius"@], transform: None }),
                Err(e) => missing_parameter(PrimitiveType::Sphere, params@.dom()) matches Some(name)
                    && e.is_plain(
                    ErrorCode::MissingParameter,
                    "Missing required parameter: "@ + name,
                ),
            },
    {
        proof {
            lemma_unfold_missing(PrimitiveType::Sphere, params@.dom());
        }
        let radius = required(params, "radius")?;
        Ok(Sphere::new(radius))
    }
}

impl Cone {
    pub fn new(radius: Scalar, height: Scalar) -> (c: Self)
        ensures
            c == (Cone { radius, height, transform: None }),
    {
        Cone { radius, height, transform: None }
    }

    /// The cone that the parameters describe, or the first of radius and
    /// height that is missing.
    pub fn from_params(params: &StringMap<Scalar>) -> (r: KernelResult<Self>)
        ensures
            match r {
                Ok(c) => missing_parameter(PrimitiveType::Cone, params@.dom()) is None && c == (Cone {
                    radius: params@["radius"@],
                    height: params@["height"@],
                    transform: None,
                }),
                Err(e) => missing_parameter(PrimitiveType::Cone, params@.dom()) matches Some(name)
                    && e.is_plain(
                    ErrorCode::MissingParameter,
                    "Missing required parameter: "@ + name,
                ),
            },
    {
        proof {
            lemma_unfold_missing(PrimitiveType::Cone, params@.dom());
        }
        let radius = required(params, "radius")?;
        let height = required(params, "height")?;
        Ok(Cone::new(radius, height))
    }
}

impl Torus {
    pub fn new(major_radius: Scalar, minor_radius: Scalar) -> (t: Self)
        ensures
            t == (Torus { major_radius, minor_radius, transform: None }),
    {
        Torus { major_radius, minor_radius, transform: None }
    }

    /// The torus that the parameters describe, or the first of the major
    /// and the minor radius that is missing.
    pub fn from_params(params: &StringMap<Scalar>) -> (r: KernelResult<Self>)
        ensures
            match r {
                Ok(t) => missing_parameter(PrimitiveType::Torus, params@.dom()) is None && t
                    == (Torus {
                    major_radius: params@["major_radius"@],
                    minor_radius: params@["minor_radius"@],
                    transform: None,
                }),
                Err(e) => missing_parameter(PrimitiveType::Torus, params@.dom()) matches Some(name)
                    && e.is_plain(
                    ErrorCode::MissingParameter,
                    "Missing required parameter: "@ + name,
                ),
            },
    {
        proof {
            lemma_unfold_missing(PrimitiveType::Torus, params@.dom());
        }
        let major_radius = required(params, "major_radius")?;
        let minor_radius = required(params, "minor_radius")?;
        Ok(Torus::new(major_radius, minor_radius))
    }
}

/// What the first missing parameter of each kind is, spelled out.
proof fn lemma_unfold_missing(type_: PrimitiveType, given: Set<Seq<char>>)
    ensures
        missing_parameter(type_, given) == match type_ {
            PrimitiveType::Box => if !given.contains("width"@) {
                Some("width"@)
            } else if !given.contains("height"@) {
                Some("height"@)
            } else if !given.contains("depth"@) {
                Some("depth"@)
            } else {
                None
            },
            PrimitiveType::Sphere => if !given.contains("radius"@) {
                Some("radius"@)
            } else {
                None
            },
            PrimitiveType::Torus => if !given.contains("major_radius"@) {
                Some("major_radius"@)
            } else if !given.contains("minor_radius"@) {
                Some("minor_radius"@)
            } else {
                None
            },
            _ => if !given.contains("radius"@) {
                Some("radius"@)
            } else if !given.contains("height"@) {
                Some("height"@)
            } else {
                None
            },
        },
{
    reveal_with_fuel(crate::geometry::params::first_missing, 4);
    let required = crate::geometry::params::required_parameters(type_);
    if required.len() >= 2 {
        assert(required.drop_first()[0] == required[1]);
    }
    if required.len() >= 3 {
        assert(required.drop_first().drop_first()[0] == required[2]);
    }
}

impl Primitive {
    /// The kind of the primitive.
    pub open spec fn kind(self) -> PrimitiveType {
        match self {
            Primitive::Box(_) => PrimitiveType::Box,
            Primitive::Cylinder(_) => PrimitiveType::Cylinder,
            Primitive::Sphere(_) => PrimitiveType::Sphere,
            Primitive::Cone(_) => PrimitiveType::Cone,
            Primitive::Torus(_) => PrimitiveType::Torus,
        }
    }

    /// The placement of the primitive, if it has one.
    pub fn transform(&self) -> (t: Option<Transform>)
        ensures
            t == match *self {
                Primitive::Box(b) => b.transform,
                Primitive::Cylinder(c) => c.transform,
                Primitive::Sphere(s) => s.transform,
                Primitive::Cone(c) => c.transform,
                Primitive::Torus(t) => t.transform,
            },
    {
        match self {
            Primitive::Box(b) => b.transform,
            Primitive::Cylinder(c) => c.transform,
            Primitive::Sphere(s) => s.transform,
            Primitive::Cone(c) => c.transform,
            Primitive::Torus(t) => t.transform,
        }
    }

    /// Places the primitive.
    pub fn apply_transform(&mut self, transform: &Transform)
        ensures
            final(self).kind() == old(self).kind(),
            *final(self) == match *old(self) {
                Primitive::Box(b) => Primitive::Box(Box { transform: Some(*transform), ..b }),
                Primitive::Cylinder(c) => Primitive::Cylinder(
                    Cylinder { transform: Some(*transform), ..c },
                ),
                Primitive::Sphere(s) => Primitive::Sphere(
                    Sphere { transform: Some(*transform), ..s },
                ),
                Primitive::Cone(c) => Primitive::Cone(Cone { transform: Some(*transform), ..c }),
                Primitive::Torus(t) => Primitive::Torus(Torus { transform: Some(*transform), ..t }),
            },
    {
        let placed = match *self {
            Primitive::Box(b) => Primitive::Box(Box { transform: Some(*transform), ..b }),
            Primitive::Cylinder(c) => Primitive::Cylinder(
                Cylinder { transform: Some(*transform), ..c },
            ),
            Primitive::Sphere(s) => Primitive::Sphere(Sphere { transform: Some(*transform), ..s }),
            Primitive::Cone(c) => Primitive::Cone(Cone { transform: Some(*transform), ..c }),
            Primitive::Torus(t) => Primitive::Torus(Torus { transform: Some(*transform), ..t }),
        };
        *self = placed;
    }
}

/// The primitive of the given kind that the parameters describe, or the
/// first parameter of that kind that is missing.
pub fn create_primitive(type_: PrimitiveType, params: &StringMap<Scalar>) -> (r: KernelResult<
    Primitive,
>)
    ensures
        match r {
            Ok(p) => missing_parameter(type_, params@.dom()) is None && p.kind() == type_,
            Err(e) => missing_parameter(type_, params@.dom()) matches Some(name) && e.is_plain(
                ErrorCode::MissingParameter,
                "Missing required parameter: "@ + name,
            ),
        },
{
    match type_ {
        PrimitiveType::Box => Ok(Primitive::Box(Box::from_params(params)?)),
        PrimitiveType::Cylinder => Ok(Primitive::Cylinder(Cylinder::from_params(params)?)),
        PrimitiveType::Sphere => Ok(Primitive::Sphere(Sphere::from_params(params)?)),
        PrimitiveType::Cone => Ok(Primitive::Cone(Cone::from_params(params)?)),
        PrimitiveType::Torus => Ok(Primitive::Torus(Torus::from_params(params)?)),
    }
}

/// The greater of two numbers.
pub open spec fn at_least(n: int, least: int) -> int {
    if n < least {
        least
    } else {
        n
    }
}

/// How a mesh is laid out, as numbers of mathematics.
pub struct Layout {
    /// The number of vertices.
    pub vertices: int,
    /// The number of triangles.
    pub triangles: int,
    /// Whether every triangle has three vertices of its own, so that the
    /// indices count up from nought; else the vertices form a grid.
    pub soup: bool,
    /// The cells of the grid along its first direction; none in a soup.
    pub rows: int,
    /// The cells of the grid along its second direction; none in a soup.
    pub columns: int,
}

/// How a mesh is laid out.
#[derive(Debug, Clone, Copy, PartialEq, Eq, Structural)]
pub struct MeshLayout {
    pub vertices: usize,
    pub triangles: usize,
    pub soup: bool,
    pub rows: usize,
    pub columns: usize,
}

impl View for MeshLayout {
    type V = Layout;

    open spec fn view(&self) -> Layout {
        Layout {
            vertices: self.vertices as int,
            triangles: self.triangles as int,
            soup: self.soup,
            rows: self.rows as int,
            columns: self.columns as int,
        }
    }
}

/// The layout of a soup of so many triangles.
pub open spec fn soup(triangles: int) -> Layout {
    Layout { vertices: 3 * triangles, triangles, soup: true, rows: 0, columns: 0 }
}

/// The layout of a grid of so many cells, two triangles to a cell.
pub open spec fn grid(rows: int, columns: int) -> Layout {
    Layout {
        vertices: (rows + 1) * (columns + 1),
        triangles: 2 * rows * columns,
        soup: false,
        rows,
        columns,
    }
}

/// The layout of the mesh of a primitive at a subdivision level.
///
/// A box is six faces of two triangles. A cylinder has at least 8 segments,
/// each with a triangle in either cap and two on the side. A cone has at
/// least 8 segments, each with a triangle in the base and one on the side.
/// A sphere is a grid of at least 4 rings by at least 8 segments, a torus
/// one of at least 12 segments around by at least 8 across; the rings of
/// the one and the segments across of the other are half the level.
pub open spec fn layout_of(type_: PrimitiveType, subdivisions: u32) -> Layout {
    let level = subdivisions as int;
    match type_ {
        PrimitiveType::Box => soup(12),
        PrimitiveType::Cylinder => soup(4 * at_least(level, 8)),
        PrimitiveType::Cone => soup(2 * at_least(level, 8)),
        PrimitiveType::Sphere => grid(at_least(level / 2, 4), at_least(level, 8)),
        PrimitiveType::Torus => grid(at_least(level, 12), at_least(level / 2, 8)),
    }
}

/// Whether indices of 32 bits can count the vertices and the indices of a
/// layout.
pub open spec fn fits(layout: Layout) -> bool {
    layout.vertices <= u32::MAX && 3 * layout.triangles <= u32::MAX
}

fn at_least_exec(n: u64, least: u64) -> (r: u64)
    ensures
        r == at_least(n as int, least as int),
{
    if n < least {
        least
    } else {
        n
    }
}

fn soup_layout(triangles: u64) -> (r: Option<MeshLayout>)
    requires
        triangles <= 0x1_0000_0000_0000,
    ensures
        match r {
            Some(layout) => fits(soup(triangles as int)) && layout@ == soup(triangles as int),
            None => !fits(soup(triangles as int)),
        },
{
    if 3 * triangles > u32::MAX as u64 {
        return None;
    }
    Some(
        MeshLayout {
            vertices: (3 * triangles) as usize,
            triangles: triangles as usize,
            soup: true,
            rows: 0,
            columns: 0,
        },
    )
}

fn grid_layout(rows: u64, columns: u64) -> (r: Option<MeshLayout>)
    requires
        rows <= 0x1_0000_0000,
        columns <= 0x1_0000_0000,
    ensures
        match r {
            Some(layout) => fits(grid(rows as int, columns as int)) && layout@ == grid(
                rows as int,
                columns as int,
            ),
            None => !fits(grid(rows as int, columns as int)),
        },
{
    assert((rows + 1) * (columns + 1) <= 0x1_0000_0001 * 0x1_0000_0001 && rows * columns
        <= 0x1_0000_0000 * 0x1_0000_0000 && rows * columns >= 0) by (nonlinear_arith)
        requires
            rows <= 0x1_0000_0000,
            columns <= 0x1_0000_0000,
    ;
    let vertices = (rows as u128 + 1) * (columns as u128 + 1);
    let cells = rows as u128 * columns as u128;
    assert(2 * rows * columns == 2 * (rows * columns)) by (nonlinear_arith);
    if vertices > u32::MAX as u128 || 6 * cells > u32::MAX as u128 {
        return None;
    }
    Some(
        MeshLayout {
            vertices: vertices as usize,
            triangles: (2 * cells) as usize,
            soup: false,
            rows: rows as usize,
            columns: columns as usize,
        },
    )
}

/// Works out the layout of the mesh of a primitive, where indices of 32
/// bits can count it.
pub fn mesh_layout(type_: PrimitiveType, subdivisions: u32) -> (r: Option<MeshLayout>)
    ensures
        match r {
            Some(layout) => fits(layout_of(type_, subdivisions)) && layout@ == layout_of(
                type_,
                subdivisions,
            ),
            None => !fits(layout_of(type_, subdivisions)),
        },
{
    let level = subdivisions as u64;
    match type_ {
        PrimitiveType::Box => soup_layout(12),
        PrimitiveType::Cylinder => soup_layout(4 * at_least_exec(level, 8)),
        PrimitiveType::Cone => soup_layout(2 * at_least_exec(level, 8)),
        PrimitiveType::Sphere => grid_layout(at_least_exec(level / 2, 4), at_least_exec(level, 8)),
        PrimitiveType::Torus => grid_layout(at_least_exec(level, 12), at_least_exec(level / 2, 8)),
    }
}

/// The indices of a triangle soup: they count up from nought.
pub open spec fn soup_indices(triangles: nat) -> Seq<u32> {
    Seq::new(3 * triangles, |k: int| k as u32)
}

/// The indices of the two triangles of one cell of a grid: the cell in row
/// `row` and column `column` of a grid with `columns` cells, and so with
/// one vertex more, in every row.
pub open spec fn cell_indices(columns: int, row: int, column: int) -> Seq<u32> {
    let i0 = row * (columns + 1) + column;
    let i1 = i0 + 1;
    let i2 = (row + 1) * (columns + 1) + column;
    let i3 = i2 + 1;
    seq![i0 as u32, i2 as u32, i1 as u32, i1 as u32, i2 as u32, i3 as u32]
}

/// The indices of the first `upto` cells of a row.
pub open spec fn row_indices(columns: int, row: int, upto: nat) -> Seq<u32>
    decreases upto,
{
    if upto == 0 {
        Seq::empty()
    } else {
        row_indices(columns, row, (upto - 1) as nat) + cell_indices(columns, row, upto - 1)
    }
}

/// The indices of the first `upto` rows of a grid.
pub open spec fn grid_indices(columns: int, upto: nat) -> Seq<u32>
    decreases upto,
{
    if upto == 0 {
        Seq::empty()
    } else {
        grid_indices(columns, (upto - 1) as nat) + row_indices(columns, upto - 1, columns as nat)
    }
}

/// Writes the indices of a triangle soup.
fn make_soup_indices(triangles: usize) -> (indices: Vec<u32>)
    requires
        3 * triangles <= u32::MAX,
    ensures
        indices@ == soup_indices(triangles as nat),
{
    let mut indices: Vec<u32> = Vec::new();
    let n = 3 * triangles;
    let mut k: usize = 0;
    while k < n
        invariant
            n == 3 * triangles,
            n <= u32::MAX,
            k <= n,
            indices@.len() == k,
            forall|j: int| 0 <= j < k ==> indices@[j] == j as u32,
        decreases n - k,
    {
        indices.push(k as u32);
        k += 1;
    }
    assert(indices@ =~= soup_indices(triangles as nat));
    indices
}

/// Writes the indices of a grid of `rows` by `columns` cells. Every index
/// names one of the grid's vertices.
fn make_grid_indices(rows: usize, columns: usize) -> (indices: Vec<u32>)
    requires
        (rows + 1) * (columns + 1) <= u32::MAX,
    ensures
        indices@ == grid_indices(columns as int, rows as nat),
        forall|k: int| 0 <= k < indices@.len() ==> indices@[k] < (rows + 1) * (columns + 1),
{
    let mut indices: Vec<u32> = Vec::new();
    assert(rows + 1 <= u32::MAX && columns + 1 <= u32::MAX) by (nonlinear_arith)
        requires
            (rows + 1) * (columns + 1) <= u32::MAX,
            rows >= 0,
            columns >= 0,
    ;
    let total = (rows + 1) * (columns + 1);
    let mut row: usize = 0;
    while row < rows
        invariant
            row <= rows,
            total == (rows + 1) * (columns + 1),
            total <= u32::MAX,
            columns + 1 <= u32::MAX,
            indices@ == grid_indices(columns as int, row as nat),
            forall|k: int| 0 <= k < indices@.len() ==> indices@[k] < total,
        decreases rows - row,
    {
        let ghost before = indices@;
        let mut column: usize = 0;
        while column < columns
            invariant
                row < rows,
                column <= columns,
                total == (rows + 1) * (columns + 1),
                total <= u32::MAX,
                columns + 1 <= u32::MAX,
                indices@ == before + row_indices(columns as int, row as int, column as nat),
                forall|k: int| 0 <= k < indices@.len() ==> indices@[k] < total,
            decreases columns - column,
        {
            assert((row + 1) * (columns + 1) + column + 1 < total && row * (columns + 1) + column
                >= 0 && row * (columns + 1) <= (row + 1) * (columns + 1)) by (nonlinear_arith)
                requires
                    row < rows,
                    column < columns,
                    total == (rows + 1) * (columns + 1),
            ;
            let i0 = row * (columns + 1) + column;
            let i1 = i0 + 1;
            let i2 = (row + 1) * (columns + 1) + column;
            let i3 = i2 + 1;
            let ghost so_far = indices@;
            indices.push(i0 as u32);
            indices.push(i2 as u32);
            indices.push(i1 as u32);
            indices.push(i1 as u32);
            indices.push(i2 as u32);
            indices.push(i3 as u32);
            assert(indices@ =~= so_far + cell_indices(columns as int, row as int, column as int));
            assert(indices@ =~= before + row_indices(
                columns as int,
                row as int,
                (column + 1) as nat,
            ));
            column += 1;
        }
        assert(indices@ =~= grid_indices(columns as int, (row + 1) as nat));
        row += 1;
    }
    indices
}

/// The indices of a mesh of the given layout.
pub open spec fn indices_of(layout: Layout) -> Seq<u32> {
    if layout.soup {
        soup_indices(layout.triangles as nat)
    } else {
        grid_indices(layout.columns, layout.rows as nat)
    }
}

/// Writes the indices of the mesh of a primitive, where indices of 32 bits
/// can count it. Every index names a vertex of the mesh.
pub fn primitive_indices(type_: PrimitiveType, subdivisions: u32) -> (r: Option<Vec<u32>>)
    ensures
        match r {
            Some(indices) => fits(layout_of(type_, subdivisions)) && indices@ == indices_of(
                layout_of(type_, subdivisions),
            ) && forall|k: int|
                0 <= k < indices@.len() ==> indices@[k] < layout_of(type_, subdivisions).vertices,
            None => !fits(layout_of(type_, subdivisions)),
        },
{
    let layout = match mesh_layout(type_, subdivisions) {
        Some(layout) => layout,
        None => {
            return None;
        },
    };
    if layout.soup {
        let indices = make_soup_indices(layout.triangles);
        assert forall|k: int| 0 <= k < indices@.len() implies indices@[k] < layout.vertices by {
            assert(indices@[k] == k as u32);
        }
        Some(indices)
    } else {
        Some(make_grid_indices(layout.rows, layout.columns))
    }
}

} // verus!
