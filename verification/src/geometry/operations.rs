//! Boolean operations on meshes.
//!
//! The union puts the two meshes side by side: the vertices and normals of
//! the first, then those of the second, whose triangles are renumbered to
//! match. It removes nothing, so it is the union only of solids that do not
//! overlap. Subtraction and intersection are placeholders: the first hands
//! back the target as it is, the second an empty mesh. Telling the
//! triangles of one solid that lie inside the other from those outside, by
//! the parity of the crossings of a ray, is not implemented.

use vstd::prelude::*;
use crate::errors::{ErrorCode, Fault, KernelError, KernelResult};
use crate::types::{BoundingBox, MeshData, PreviewMesh};

verus! {

/// The boolean operations.
#[derive(Debug, Clone, Copy, PartialEq, Eq, Structural)]
pub enum BooleanOperation {
    Union,
    Subtract,
    Intersect,
}

/// By how much the triangles of a mesh are renumbered when it is put
/// behind `first`: the number of vertices of `first`.
pub open spec fn index_offset(first: MeshData) -> int {
    first.vertices.len() as int / 3
}

/// Every renumbered index of `second` is still a `u32`.
pub open spec fn union_fits(first: MeshData, second: MeshData) -> bool {
    forall|i: int|
        0 <= i < second.indices.len() ==> (#[trigger] second.indices[i]) + index_offset(first)
            <= u32::MAX
}

/// The two meshes side by side.
pub open spec fn union_of(first: MeshData, second: MeshData) -> MeshData {
    MeshData {
        vertices: first.vertices + second.vertices,
        normals: first.normals + second.normals,
        indices: first.indices + Seq::new(
            second.indices.len(),
            |i: int| (second.indices[i] + index_offset(first)) as u32,
        ),
    }
}

/// What an operation makes of two meshes of sound shape.
pub open spec fn combined(first: MeshData, second: MeshData, operation: BooleanOperation) -> MeshData {
    match operation {
        BooleanOperation::Union => union_of(first, second),
        BooleanOperation::Subtract => first,
        BooleanOperation::Intersect => MeshData::empty(),
    }
}

/// Why an operation cannot be carried out on two meshes, if it cannot:
/// the first mesh has not the shape of a mesh, or the second has not, or
/// the renumbered indices of a union would not fit.
pub open spec fn combine_fault(first: MeshData, second: MeshData, operation: BooleanOperation) -> Option<
    Fault,
> {
    if first.shape_fault() is Some {
        first.shape_fault()
    } else if second.shape_fault() is Some {
        second.shape_fault()
    } else if operation == BooleanOperation::Union && !union_fits(first, second) {
        Some(Fault { code: ErrorCode::CsgError, message: "Vertex index out of range in union"@ })
    } else {
        None
    }
}

/// Whether an operation can be carried out on two meshes.
pub open spec fn can_combine(first: MeshData, second: MeshData, operation: BooleanOperation) -> bool {
    combine_fault(first, second, operation) is None
}

/// The union keeps every vertex and every index of both meshes, and the
/// shape of a mesh.
pub proof fn lemma_union_keeps_everything(first: MeshData, second: MeshData)
    ensures
        union_of(first, second).vertices.len() == first.vertices.len() + second.vertices.len(),
        union_of(first, second).indices.len() == first.indices.len() + second.indices.len(),
        union_of(first, second).normals.len() == first.normals.len() + second.normals.len(),
        first.is_structured() && second.is_structured() ==> union_of(first, second).is_structured(),
{
}

/// Carries out a boolean operation on two meshes.
///
/// A mesh of unsound shape is refused as a topology error, the first mesh
/// before the second. A union whose renumbered indices would not fit is
/// refused as a CSG error.
pub fn boolean_operation(
    mesh1: &PreviewMesh,
    mesh2: &PreviewMesh,
    operation: BooleanOperation,
) -> (r: KernelResult<PreviewMesh>)
    ensures
        match r {
            Ok(mesh) => can_combine(mesh1@, mesh2@, operation) && mesh@ == combined(
                mesh1@,
                mesh2@,
                operation,
            ),
            Err(e) => combine_fault(mesh1@, mesh2@, operation) matches Some(fault) && e.reports(
                fault,
            ),
        },
{
    mesh1.is_valid()?;
    mesh2.is_valid()?;
    match operation {
        BooleanOperation::Union => union_meshes(mesh1, mesh2),
        BooleanOperation::Subtract => Ok(subtract_meshes(mesh1, mesh2)),
        BooleanOperation::Intersect => Ok(intersect_meshes(mesh1, mesh2)),
    }
}

/// Puts two meshes side by side.
pub fn union_meshes(mesh1: &PreviewMesh, mesh2: &PreviewMesh) -> (r: KernelResult<PreviewMesh>)
    ensures
        match r {
            Ok(mesh) => union_fits(mesh1@, mesh2@) && mesh@ == union_of(mesh1@, mesh2@),
            Err(e) => !union_fits(mesh1@, mesh2@) && e.is_plain(
                ErrorCode::CsgError,
                "Vertex index out of range in union"@,
            ),
        },
{
    let mut vertices = mesh1.vertices.clone();
    vertices.extend_from_slice(mesh2.vertices.as_slice());
    let mut normals = mesh1.normals.clone();
    normals.extend_from_slice(mesh2.normals.as_slice());
    let mut indices = mesh1.indices.clone();
    assert(vertices@ =~= mesh1@.vertices + mesh2@.vertices);
    assert(normals@ =~= mesh1@.normals + mesh2@.normals);
    assert(indices@ =~= mesh1@.indices);
    let offset = mesh1.vertices.len() / 3;
    let n = mesh2.indices.len();
    let mut i: usize = 0;
    while i < n
        invariant
            n == mesh2@.indices.len(),
            i <= n,
            offset == index_offset(mesh1@),
            indices@ == mesh1@.indices + Seq::new(
                i as nat,
                |k: int| (mesh2@.indices[k] + index_offset(mesh1@)) as u32,
            ),
            forall|k: int|
                0 <= k < i ==> (#[trigger] mesh2@.indices[k]) + index_offset(mesh1@) <= u32::MAX,
        decreases n - i,
    {
        let index = mesh2.indices[i];
        if offset > u32::MAX as usize || index > u32::MAX - offset as u32 {
            assert(mesh2@.indices[i as int] + index_offset(mesh1@) > u32::MAX);
            return Err(KernelError::csg_error("Vertex index out of range in union"));
        }
        let ghost before = indices@;
        indices.push(index + offset as u32);
        assert(indices@ =~= mesh1@.indices + Seq::new(
            (i + 1) as nat,
            |k: int| (mesh2@.indices[k] + index_offset(mesh1@)) as u32,
        ));
        i += 1;
    }
    Ok(PreviewMesh { vertices, indices, normals })
}

/// The target without the tool. A placeholder: the target comes back as
/// it is.
pub fn subtract_meshes(mesh1: &PreviewMesh, mesh2: &PreviewMesh) -> (mesh: PreviewMesh)
    ensures
        mesh@ == mesh1@,
{
    mesh1.clone()
}

/// What two meshes share. A placeholder: an empty mesh comes back.
pub fn intersect_meshes(mesh1: &PreviewMesh, mesh2: &PreviewMesh) -> (mesh: PreviewMesh)
    ensures
        mesh@ == MeshData::empty(),
{
    PreviewMesh::new()
}

/// Whether two bounding boxes have a point in common.
pub fn boxes_intersect(bbox1: &BoundingBox, bbox2: &BoundingBox) -> (b: bool)
    ensures
        b == bbox1.meets(*bbox2),
{
    bbox1.intersects(bbox2)
}

} // verus!
