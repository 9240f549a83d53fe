//! Vertices and edges.
//!
//! The length of an edge is measured outside the kernel and kept on the
//! edge; whether the edge can be made is decided here.

use vstd::prelude::*;
use crate::ir::feature::ManufacturingProcess;
use crate::scalar::Scalar;
use crate::topology::{EdgeConstraintType, EdgeType, TopologyId};

verus! {

/// The double 1e-6: the tolerance of a vertex, an edge or a face that is
/// given none.
pub const DEFAULT_TOLERANCE: u64 = 0x3EB0_C6F7_A0B5_ED8D;

/// The double 0.5: the least radius that a tool can cut.
pub const MIN_TOOL_RADIUS: u64 = 0x3FE0_0000_0000_0000;

/// A point of the boundary.
#[derive(Debug, Clone, Copy, PartialEq, Eq)]
pub struct Vertex {
    pub position: [Scalar; 3],
    pub tolerance: Scalar,
}

impl Vertex {
    pub fn new(position: [Scalar; 3]) -> (v: Self)
        ensures
            v.position == position,
            v.tolerance.bits == DEFAULT_TOLERANCE,
    {
        Vertex { position, tolerance: Scalar::from_bits(DEFAULT_TOLERANCE) }
    }

    pub fn with_tolerance(position: [Scalar; 3], tolerance: Scalar) -> (v: Self)
        ensures
            v.position == position,
            v.tolerance == tolerance,
    {
        Vertex { position, tolerance }
    }
}

/// The curve that an edge follows.
#[derive(Debug, Clone, PartialEq, Eq)]
pub enum EdgeCurve {
    Line { direction: [Scalar; 3] },
    Circle { center: [Scalar; 3], radius: Scalar, axis: [Scalar; 3], angle: Scalar },
    Spline { control_points: Vec<[Scalar; 3]>, knots: Vec<Scalar>, degree: u32 },
    Ellipse {
        center: [Scalar; 3],
        major_axis: [Scalar; 3],
        minor_axis: [Scalar; 3],
        start_angle: Scalar,
        end_angle: Scalar,
    },
}

/// A limit that manufacturing puts on an edge.
#[derive(Debug, Clone, Copy, PartialEq, Eq)]
pub struct EdgeConstraint {
    pub constraint_type: EdgeConstraintType,
    pub min_value: Scalar,
    pub max_value: Scalar,
    pub process: ManufacturingProcess,
}

impl EdgeConstraint {
    /// Whether an edge of the given length meets the constraint. Only
    /// limits on the length are held against anything.
    pub open spec fn is_met(self, length: Scalar) -> bool {
        match self.constraint_type {
            EdgeConstraintType::MaxLength => length.le(self.max_value),
            EdgeConstraintType::MinLength => self.min_value.le(length),
            _ => true,
        }
    }

    /// The least radius of a curved edge; above, anything goes.
    pub fn min_radius(radius: Scalar, process: ManufacturingProcess) -> (c: Self)
        ensures
            c.constraint_type == EdgeConstraintType::MinRadius,
            c.min_value == radius,
            c.max_value.bits == 0x7FF0_0000_0000_0000,
            c.process == process,
    {
        EdgeConstraint {
            constraint_type: EdgeConstraintType::MinRadius,
            min_value: radius,
            max_value: Scalar::from_bits(0x7FF0_0000_0000_0000),
            process,
        }
    }

    /// The greatest length of an edge.
    pub fn max_length(length: Scalar, process: ManufacturingProcess) -> (c: Self)
        ensures
            c.constraint_type == EdgeConstraintType::MaxLength,
            c.min_value.bits == 0,
            c.max_value == length,
            c.process == process,
    {
        EdgeConstraint {
            constraint_type: EdgeConstraintType::MaxLength,
            min_value: Scalar::zero(),
            max_value: length,
            process,
        }
    }

    pub fn is_satisfied(&self, edge_type: &EdgeType, length: Scalar) -> (b: bool)
        ensures
            b == self.is_met(length),
    {
        match self.constraint_type {
            EdgeConstraintType::MaxLength => length.le_exec(&self.max_value),
            EdgeConstraintType::MinLength => self.min_value.le_exec(&length),
            _ => true,
        }
    }
}

/// An edge between two vertices.
#[derive(Debug, Clone)]
pub struct Edge {
    pub start_vertex: TopologyId,
    pub end_vertex: TopologyId,
    pub edge_type: EdgeType,
    pub curve: Option<EdgeCurve>,
    pub tolerance: Scalar,
    pub manufacturing_constraints: Vec<EdgeConstraint>,
    pub length: Scalar,
    pub oriented: bool,
}

/// Whether an edge of the given length meets every constraint.
pub open spec fn meets_all(constraints: Seq<EdgeConstraint>, length: Scalar) -> bool {
    forall|i: int| 0 <= i < constraints.len() ==> (#[trigger] constraints[i]).is_met(length)
}

impl Edge {
    /// Whether the edge can be made: it meets its constraints, it is not
    /// sharp, and where it follows a circle, a tool can cut the radius.
    pub open spec fn can_be_made(self) -> bool {
        &&& meets_all(self.manufacturing_constraints@, self.length)
        &&& match self.edge_type {
            EdgeType::Sharp => false,
            EdgeType::Circular => match self.curve {
                Some(EdgeCurve::Circle { radius, .. }) => !radius.lt(
                    Scalar { bits: MIN_TOOL_RADIUS },
                ),
                _ => true,
            },
            _ => true,
        }
    }

    /// An edge without a curve, not yet measured.
    pub fn new(start_vertex: TopologyId, end_vertex: TopologyId, edge_type: EdgeType) -> (e: Self)
        ensures
            e.start_vertex == start_vertex,
            e.end_vertex == end_vertex,
            e.edge_type == edge_type,
            e.curve is None,
            e.tolerance.bits == DEFAULT_TOLERANCE,
            e.manufacturing_constraints@.len() == 0,
            e.length.bits == 0,
            e.oriented,
    {
        Edge {
            start_vertex,
            end_vertex,
            edge_type,
            curve: None,
            tolerance: Scalar::from_bits(DEFAULT_TOLERANCE),
            manufacturing_constraints: Vec::new(),
            length: Scalar::zero(),
            oriented: true,
        }
    }

    /// An edge along a curve, not yet measured.
    pub fn with_curve(
        start_vertex: TopologyId,
        end_vertex: TopologyId,
        edge_type: EdgeType,
        curve: EdgeCurve,
    ) -> (e: Self)
        ensures
            e.start_vertex == start_vertex,
            e.end_vertex == end_vertex,
            e.edge_type == edge_type,
            e.curve == Some(curve),
            e.tolerance.bits == DEFAULT_TOLERANCE,
            e.manufacturing_constraints@.len() == 0,
            e.length.bits == 0,
            e.oriented,
    {
        Edge {
            start_vertex,
            end_vertex,
            edge_type,
            curve: Some(curve),
            tolerance: Scalar::from_bits(DEFAULT_TOLERANCE),
            manufacturing_constraints: Vec::new(),
            length: Scalar::zero(),
            oriented: true,
        }
    }

    /// Records the measured length. A sharp edge has none.
    pub fn set_length(&mut self, length: Scalar)
        ensures
            final(self).length == if old(self).edge_type == EdgeType::Sharp {
                Scalar { bits: 0 }
            } else {
                length
            },
            final(self).start_vertex == old(self).start_vertex,
            final(self).end_vertex == old(self).end_vertex,
            final(self).edge_type == old(self).edge_type,
            final(self).curve == old(self).curve,
            final(self).tolerance == old(self).tolerance,
            final(self).manufacturing_constraints == old(self).manufacturing_constraints,
            final(self).oriented == old(self).oriented,
    {
        self.length = match self.edge_type {
            EdgeType::Sharp => Scalar::zero(),
            _ => length,
        };
    }

    pub fn is_manufacturable(&self) -> (b: bool)
        ensures
            b == self.can_be_made(),
    {
        let n = self.manufacturing_constraints.len();
        let mut i: usize = 0;
        while i < n
            invariant
                n == self.manufacturing_constraints@.len(),
                i <= n,
                forall|j: int|
                    0 <= j < i ==> (#[trigger] self.manufacturing_constraints@[j]).is_met(self.length),
            decreases n - i,
        {
            if !self.manufacturing_constraints[i].is_satisfied(&self.edge_type, self.length) {
                return false;
            }
            i += 1;
        }
        match self.edge_type {
            EdgeType::Sharp => false,
            EdgeType::Circular => match &self.curve {
                Some(EdgeCurve::Circle { radius, .. }) => !radius.lt_exec(
                    &Scalar::from_bits(MIN_TOOL_RADIUS),
                ),
                _ => true,
            },
            _ => true,
        }
    }

    /// Turns the edge round: it now runs from its end to its start.
    pub fn reverse(&mut self)
        ensures
            final(self).start_vertex == old(self).end_vertex,
            final(self).end_vertex == old(self).start_vertex,
            final(self).edge_type == old(self).edge_type,
            final(self).curve == old(self).curve,
            final(self).tolerance == old(self).tolerance,
            final(self).manufacturing_constraints == old(self).manufacturing_constraints,
            final(self).length == old(self).length,
            final(self).oriented == old(self).oriented,
    {
        core::mem::swap(&mut self.start_vertex, &mut self.end_vertex);
    }

    pub fn add_constraint(&mut self, constraint: EdgeConstraint)
        ensures
            final(self).manufacturing_constraints@ == old(self).manufacturing_constraints@.push(
                constraint,
            ),
            final(self).start_vertex == old(self).start_vertex,
            final(self).end_vertex == old(self).end_vertex,
            final(self).edge_type == old(self).edge_type,
            final(self).curve == old(self).curve,
            final(self).tolerance == old(self).tolerance,
            final(self).length == old(self).length,
            final(self).oriented == old(self).oriented,
    {
        self.manufacturing_constraints.push(constraint);
    }
}

} // verus!
