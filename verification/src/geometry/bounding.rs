//! Bounding boxes of meshes and of other bounding boxes.
//!
//! A bounding box is found by comparing coordinates, which the kernel can
//! do; sizes, centres and volumes take arithmetic and are the host's.

use vstd::prelude::*;
use crate::scalar::{widened, Scalar};
use crate::types::{BoundingBox, MeshData, PreviewMesh};

verus! {

/// The double 'plus infinity'.
pub open spec fn plus_infinity() -> Scalar {
    Scalar { bits: 0x7FF0_0000_0000_0000 }
}

/// The double 'minus infinity'.
pub open spec fn minus_infinity() -> Scalar {
    Scalar { bits: 0xFFF0_0000_0000_0000 }
}

/// The lesser of two values; the first where neither is less.
pub open spec fn lesser(a: Scalar, b: Scalar) -> Scalar {
    if b.lt(a) {
        b
    } else {
        a
    }
}

/// The greater of two values; the first where neither is greater.
pub open spec fn greater(a: Scalar, b: Scalar) -> Scalar {
    if a.lt(b) {
        b
    } else {
        a
    }
}

/// The coordinate of the `v`-th vertex along an axis, as a double.
pub open spec fn coordinate(mesh: MeshData, v: int, axis: int) -> Scalar {
    Scalar { bits: widened(mesh.vertices[3 * v + axis]) as u64 }
}

/// The least coordinate along an axis among the first `n` vertices; plus
/// infinity where there is none.
pub open spec fn least(mesh: MeshData, axis: int, n: nat) -> Scalar
    decreases n,
{
    if n == 0 {
        plus_infinity()
    } else {
        lesser(least(mesh, axis, (n - 1) as nat), coordinate(mesh, n - 1, axis))
    }
}

/// The greatest coordinate along an axis among the first `n` vertices;
/// minus infinity where there is none.
pub open spec fn greatest(mesh: MeshData, axis: int, n: nat) -> Scalar
    decreases n,
{
    if n == 0 {
        minus_infinity()
    } else {
        greater(greatest(mesh, axis, (n - 1) as nat), coordinate(mesh, n - 1, axis))
    }
}

/// No vertex lies outside the least and the greatest coordinate.
pub proof fn lemma_bounds_hold(mesh: MeshData, axis: int, n: nat, v: int)
    requires
        0 <= v < n,
    ensures
        !coordinate(mesh, v, axis).lt(least(mesh, axis, n)),
        !greatest(mesh, axis, n).lt(coordinate(mesh, v, axis)),
        !least(mesh, axis, n).is_nan(),
        !greatest(mesh, axis, n).is_nan(),
    decreases n,
{
    lemma_bounds_are_numbers(mesh, axis, n);
    if v < n - 1 {
        lemma_bounds_hold(mesh, axis, (n - 1) as nat, v);
        lemma_bounds_are_numbers(mesh, axis, (n - 1) as nat);
    } else {
        lemma_bounds_are_numbers(mesh, axis, (n - 1) as nat);
    }
}

proof fn lemma_bounds_are_numbers(mesh: MeshData, axis: int, n: nat)
    ensures
        !least(mesh, axis, n).is_nan(),
        !greatest(mesh, axis, n).is_nan(),
    decreases n,
{
    if n > 0 {
        lemma_bounds_are_numbers(mesh, axis, (n - 1) as nat);
    }
}

/// The number of whole vertices of a mesh.
pub open spec fn vertex_total(mesh: MeshData) -> nat {
    (mesh.vertices.len() / 3) as nat
}

fn lesser_exec(a: Scalar, b: Scalar) -> (r: Scalar)
    ensures
        r == lesser(a, b),
{
    if b.lt_exec(&a) {
        b
    } else {
        a
    }
}

fn greater_exec(a: Scalar, b: Scalar) -> (r: Scalar)
    ensures
        r == greater(a, b),
{
    if a.lt_exec(&b) {
        b
    } else {
        a
    }
}

/// The least box with sides along the axes that holds every vertex of the
/// mesh, found in one pass; the empty box where the mesh has no vertex.
pub fn compute_bounding_box(mesh: &PreviewMesh) -> (bbox: BoundingBox)
    ensures
        forall|axis: int|
            0 <= axis < 3 ==> (#[trigger] bbox.min@[axis]) == least(
                mesh@,
                axis,
                vertex_total(mesh@),
            ),
        forall|axis: int|
            0 <= axis < 3 ==> (#[trigger] bbox.max@[axis]) == greatest(
                mesh@,
                axis,
                vertex_total(mesh@),
            ),
{
    let up = Scalar::from_bits(0x7FF0_0000_0000_0000);
    let down = Scalar::from_bits(0xFFF0_0000_0000_0000);
    let (mut min_x, mut min_y, mut min_z) = (up, up, up);
    let (mut max_x, mut max_y, mut max_z) = (down, down, down);
    let len = mesh.vertices.len();
    let n = len / 3;
    let mut v: usize = 0;
    while v < n
        invariant
            n == vertex_total(mesh@),
            len == mesh.vertices@.len(),
            3 * n <= len,
            v <= n,
            min_x == least(mesh@, 0, v as nat),
            min_y == least(mesh@, 1, v as nat),
            min_z == least(mesh@, 2, v as nat),
            max_x == greatest(mesh@, 0, v as nat),
            max_y == greatest(mesh@, 1, v as nat),
            max_z == greatest(mesh@, 2, v as nat),
        decreases n - v,
    {
        let x = Scalar::from_single(mesh.vertices[3 * v]);
        let y = Scalar::from_single(mesh.vertices[3 * v + 1]);
        let z = Scalar::from_single(mesh.vertices[3 * v + 2]);
        assert(x == coordinate(mesh@, v as int, 0));
        assert(y == coordinate(mesh@, v as int, 1));
        assert(z == coordinate(mesh@, v as int, 2));
        min_x = lesser_exec(min_x, x);
        min_y = lesser_exec(min_y, y);
        min_z = lesser_exec(min_z, z);
        max_x = greater_exec(max_x, x);
        max_y = greater_exec(max_y, y);
        max_z = greater_exec(max_z, z);
        v += 1;
    }
    let bbox = BoundingBox { min: [min_x, min_y, min_z], max: [max_x, max_y, max_z] };
    assert forall|axis: int| 0 <= axis < 3 implies (#[trigger] bbox.min@[axis]) == least(
        mesh@,
        axis,
        vertex_total(mesh@),
    ) by {
        assert(axis == 0 || axis == 1 || axis == 2);
    }
    assert forall|axis: int| 0 <= axis < 3 implies (#[trigger] bbox.max@[axis]) == greatest(
        mesh@,
        axis,
        vertex_total(mesh@),
    ) by {
        assert(axis == 0 || axis == 1 || axis == 2);
    }
    bbox
}

/// The least box that holds two boxes.
pub fn merge(a: &BoundingBox, b: &BoundingBox) -> (r: BoundingBox)
    ensures
        forall|axis: int|
            0 <= axis < 3 ==> (#[trigger] r.min@[axis]) == lesser(a.min@[axis], b.min@[axis]),
        forall|axis: int|
            0 <= axis < 3 ==> (#[trigger] r.max@[axis]) == greater(a.max@[axis], b.max@[axis]),
{
    let r = BoundingBox {
        min: [
            lesser_exec(a.min[0], b.min[0]),
            lesser_exec(a.min[1], b.min[1]),
            lesser_exec(a.min[2], b.min[2]),
        ],
        max: [
            greater_exec(a.max[0], b.max[0]),
            greater_exec(a.max[1], b.max[1]),
            greater_exec(a.max[2], b.max[2]),
        ],
    };
    assert forall|axis: int| 0 <= axis < 3 implies (#[trigger] r.min@[axis]) == lesser(
        a.min@[axis],
        b.min@[axis],
    ) by {
        assert(axis == 0 || axis == 1 || axis == 2);
    }
    assert forall|axis: int| 0 <= axis < 3 implies (#[trigger] r.max@[axis]) == greater(
        a.max@[axis],
        b.max@[axis],
    ) by {
        assert(axis == 0 || axis == 1 || axis == 2);
    }
    r
}

/// The least corner of the box that holds the first `n` boxes, along an
/// axis.
pub open spec fn merged_min(boxes: Seq<BoundingBox>, axis: int, n: nat) -> Scalar
    decreases n,
{
    if n == 0 {
        plus_infinity()
    } else if n == 1 {
        boxes[0].min@[axis]
    } else {
        lesser(merged_min(boxes, axis, (n - 1) as nat), boxes[n - 1].min@[axis])
    }
}

/// The greatest corner of the box that holds the first `n` boxes, along
/// an axis.
pub open spec fn merged_max(boxes: Seq<BoundingBox>, axis: int, n: nat) -> Scalar
    decreases n,
{
    if n == 0 {
        minus_infinity()
    } else if n == 1 {
        boxes[0].max@[axis]
    } else {
        greater(merged_max(boxes, axis, (n - 1) as nat), boxes[n - 1].max@[axis])
    }
}

/// The least box that holds all the boxes: the first merged with the
/// second, that with the third, and so on; the empty box where there is
/// none.
pub fn merge_bboxes(bboxes: &[BoundingBox]) -> (r: BoundingBox)
    ensures
        forall|axis: int|
            0 <= axis < 3 ==> (#[trigger] r.min@[axis]) == merged_min(
                bboxes@,
                axis,
                bboxes@.len(),
            ),
        forall|axis: int|
            0 <= axis < 3 ==> (#[trigger] r.max@[axis]) == merged_max(
                bboxes@,
                axis,
                bboxes@.len(),
            ),
{
    let n = bboxes.len();
    if n == 0 {
        return BoundingBox::empty();
    }
    let mut result = bboxes[0];
    let mut i: usize = 1;
    while i < n
        invariant
            n == bboxes@.len(),
            1 <= i <= n,
            forall|axis: int|
                0 <= axis < 3 ==> (#[trigger] result.min@[axis]) == merged_min(
                    bboxes@,
                    axis,
                    i as nat,
                ),
            forall|axis: int|
                0 <= axis < 3 ==> (#[trigger] result.max@[axis]) == merged_max(
                    bboxes@,
                    axis,
                    i as nat,
                ),
        decreases n - i,
    {
        let next = merge(&result, &bboxes[i]);
        assert forall|axis: int| 0 <= axis < 3 implies (#[trigger] next.min@[axis]) == merged_min(
            bboxes@,
            axis,
            (i + 1) as nat,
        ) by {
            assert(result.min@[axis] == merged_min(bboxes@, axis, i as nat));
        }
        assert forall|axis: int| 0 <= axis < 3 implies (#[trigger] next.max@[axis]) == merged_max(
            bboxes@,
            axis,
            (i + 1) as nat,
        ) by {
            assert(result.max@[axis] == merged_max(bboxes@, axis, i as nat));
        }
        result = next;
        i += 1;
    }
    result
}

/// Whether the point lies in the box.
pub fn point_in_bbox(point: [Scalar; 3], bbox: &BoundingBox) -> (b: bool)
    ensures
        b == bbox.holds(point),
{
    bbox.contains(point)
}

/// Whether two boxes have a point in common.
pub fn bboxes_intersect(bbox1: &BoundingBox, bbox2: &BoundingBox) -> (b: bool)
    ensures
        b == bbox1.meets(*bbox2),
{
    bbox1.intersects(bbox2)
}

/// The corner of a box that takes, along each axis, the greatest corner's
/// coordinate where the flag is set and the least corner's where it is not.
pub open spec fn corner(bbox: BoundingBox, far_x: bool, far_y: bool, far_z: bool) -> Seq<Scalar> {
    seq![
        if far_x {
            bbox.max@[0]
        } else {
            bbox.min@[0]
        },
        if far_y {
            bbox.max@[1]
        } else {
            bbox.min@[1]
        },
        if far_z {
            bbox.max@[2]
        } else {
            bbox.min@[2]
        },
    ]
}

/// The eight corners of a box: the four of the near face, going round from
/// the least corner, then the four of the far face in the same order.
pub fn get_bbox_corners(bbox: &BoundingBox) -> (corners: Vec<[Scalar; 3]>)
    ensures
        corners@.len() == 8,
        corners@[0]@ == corner(*bbox, false, false, false),
        corners@[1]@ == corner(*bbox, true, false, false),
        corners@[2]@ == corner(*bbox, true, true, false),
        corners@[3]@ == corner(*bbox, false, true, false),
        corners@[4]@ == corner(*bbox, false, false, true),
        corners@[5]@ == corner(*bbox, true, false, true),
        corners@[6]@ == corner(*bbox, true, true, true),
        corners@[7]@ == corner(*bbox, false, true, true),
{
    let (lo, hi) = (bbox.min, bbox.max);
    let mut corners: Vec<[Scalar; 3]> = Vec::new();
    corners.push([lo[0], lo[1], lo[2]]);
    corners.push([hi[0], lo[1], lo[2]]);
    corners.push([hi[0], hi[1], lo[2]]);
    corners.push([lo[0], hi[1], lo[2]]);
    corners.push([lo[0], lo[1], hi[2]]);
    corners.push([hi[0], lo[1], hi[2]]);
    corners.push([hi[0], hi[1], hi[2]]);
    corners.push([lo[0], hi[1], hi[2]]);
    assert(corners@[0]@ =~= corner(*bbox, false, false, false));
    assert(corners@[1]@ =~= corner(*bbox, true, false, false));
    assert(corners@[2]@ =~= corner(*bbox, true, true, false));
    assert(corners@[3]@ =~= corner(*bbox, false, true, false));
    assert(corners@[4]@ =~= corner(*bbox, false, false, true));
    assert(corners@[5]@ =~= corner(*bbox, true, false, true));
    assert(corners@[6]@ =~= corner(*bbox, true, true, true));
    assert(corners@[7]@ =~= corner(*bbox, false, true, true));
    corners
}

} // verus!
