//! Limits on the dimensions and the tessellation of primitives.
//!
//! Lengths are in millimetres. A dimension must be positive, at least a
//! hundredth of a millimetre and at most ten metres.

use vstd::prelude::*;
use vstd::string::*;
use crate::errors::join2;
use crate::scalar::Scalar;
use crate::text::decimal;
use crate::text::decimal_text;

verus! {

/// The double 1e-10: what counts as nought.
pub const EPSILON_BITS: u64 = 0x3DDB_7CDF_D9D7_BDBB;

/// The double 0.01: the least dimension.
pub const MIN_DIMENSION_BITS: u64 = 0x3F84_7AE1_47AE_147B;

/// The double 10000.0: the greatest dimension.
pub const MAX_DIMENSION_BITS: u64 = 0x40C3_8800_0000_0000;

/// The double 1000.0: the greatest diameter of a hole.
pub const MAX_HOLE_DIAMETER_BITS: u64 = 0x408F_4000_0000_0000;

/// The double 100.0: the greatest radius of a fillet and the greatest
/// distance of a chamfer.
pub const MAX_BLEND_BITS: u64 = 0x4059_0000_0000_0000;

/// The greatest number of segments.
pub const MAX_SEGMENTS: u32 = 1000;

/// Why a parameter was refused.
#[derive(Debug, Clone, PartialEq, Eq)]
pub struct ValidationError {
    pub message: String,
}

pub type ValidationResult<T> = Result<T, ValidationError>;

impl ValidationError {
    pub fn new(message: &str) -> (e: Self)
        ensures
            e.message@ == message@,
    {
        ValidationError { message: String::from_str(message) }
    }
}

/// What is wrong with a dimension, if anything.
pub enum DimensionFault {
    NotPositive,
    TooSmall,
    TooLarge,
}

/// The first rule that a dimension breaks.
pub open spec fn dimension_fault(value: Scalar) -> Option<DimensionFault> {
    if value.le(Scalar { bits: EPSILON_BITS }) {
        Some(DimensionFault::NotPositive)
    } else if value.lt(Scalar { bits: MIN_DIMENSION_BITS }) {
        Some(DimensionFault::TooSmall)
    } else if (Scalar { bits: MAX_DIMENSION_BITS }).lt(value) {
        Some(DimensionFault::TooLarge)
    } else {
        None
    }
}

/// What the error about a dimension says.
pub open spec fn dimension_message(name: Seq<char>, fault: DimensionFault) -> Seq<char> {
    match fault {
        DimensionFault::NotPositive => name + " must be positive"@,
        DimensionFault::TooSmall => name + " must be at least 0.01mm"@,
        DimensionFault::TooLarge => name + " must not exceed 10000mm"@,
    }
}

/// Checks a dimension against the limits.
pub fn validate_dimension(value: Scalar, name: &str) -> (r: ValidationResult<()>)
    ensures
        match r {
            Ok(()) => dimension_fault(value) is None,
            Err(e) => dimension_fault(value) matches Some(fault) && e.message@
                == dimension_message(name@, fault),
        },
{
    if value.le_exec(&Scalar::from_bits(EPSILON_BITS)) {
        return Err(ValidationError { message: join2(name, " must be positive") });
    }
    if value.lt_exec(&Scalar::from_bits(MIN_DIMENSION_BITS)) {
        return Err(ValidationError { message: join2(name, " must be at least 0.01mm") });
    }
    if Scalar::from_bits(MAX_DIMENSION_BITS).lt_exec(&value) {
        return Err(ValidationError { message: join2(name, " must not exceed 10000mm") });
    }
    Ok(())
}

/// Checks a radius: it is a dimension like any other.
pub fn validate_radius(radius: Scalar, name: &str) -> (r: ValidationResult<()>)
    ensures
        match r {
            Ok(()) => dimension_fault(radius) is None,
            Err(e) => dimension_fault(radius) matches Some(fault) && e.message@
                == dimension_message(name@, fault),
        },
{
    validate_dimension(radius, name)
}

/// Checks a number of segments: at least `min`, at most a thousand.
pub fn validate_segments(segments: u32, min: u32) -> (r: ValidationResult<()>)
    ensures
        match r {
            Ok(()) => min <= segments <= MAX_SEGMENTS,
            Err(e) => if segments < min {
                e.message@ == "Segments must be at least "@ + decimal(min as nat) + " (got "@
                    + decimal(segments as nat) + ")"@
            } else {
                segments > MAX_SEGMENTS && e.message@ == "Segments must not exceed 1000 (got "@
                    + decimal(segments as nat) + ")"@
            },
        },
{
    if segments < min {
        let mut message = join2("Segments must be at least ", decimal_text(min as usize).as_str());
        message.append(" (got ");
        message.append(decimal_text(segments as usize).as_str());
        message.append(")");
        return Err(ValidationError { message });
    }
    if segments > MAX_SEGMENTS {
        let mut message = join2(
            "Segments must not exceed 1000 (got ",
            decimal_text(segments as usize).as_str(),
        );
        message.append(")");
        return Err(ValidationError { message });
    }
    Ok(())
}

/// Whether the three dimensions of a box are within the limits.
pub fn validate_box_dimensions(width: Scalar, height: Scalar, depth: Scalar) -> (r:
    ValidationResult<()>)
    ensures
        r is Ok <==> dimension_fault(width) is None && dimension_fault(height) is None
            && dimension_fault(depth) is None,
        r matches Err(e) ==> e.message@ == if dimension_fault(width) is Some {
            dimension_message("width"@, dimension_fault(width)->0)
        } else if dimension_fault(height) is Some {
            dimension_message("height"@, dimension_fault(height)->0)
        } else {
            dimension_message("depth"@, dimension_fault(depth)->0)
        },
{
    validate_dimension(width, "width")?;
    validate_dimension(height, "height")?;
    validate_dimension(depth, "depth")?;
    Ok(())
}

/// Whether a cylinder's radius, height and segments are within the limits.
pub fn validate_cylinder(radius: Scalar, height: Scalar, segments: u32) -> (r: ValidationResult<
    (),
>)
    ensures
        r is Ok <==> dimension_fault(radius) is None && dimension_fault(height) is None && 3
            <= segments <= MAX_SEGMENTS,
{
    validate_radius(radius, "radius")?;
    validate_dimension(height, "height")?;
    validate_segments(segments, 3)?;
    Ok(())
}

/// Whether a cone's radius, height and segments are within the limits,
/// and the radius at most twice the height.
pub fn validate_cone(radius: Scalar, height: Scalar, segments: u32) -> (r: ValidationResult<()>)
    ensures
        r is Ok <==> dimension_fault(radius) is None && dimension_fault(height) is None && 3
            <= segments <= MAX_SEGMENTS && !height.doubled().lt(radius),
        r is Err && dimension_fault(radius) is None && dimension_fault(height) is None && 3
            <= segments <= MAX_SEGMENTS ==> r->Err_0.message@
            == "Cone radius should not exceed twice the height"@,
{
    validate_radius(radius, "radius")?;
    validate_dimension(height, "height")?;
    validate_segments(segments, 3)?;
    if height.double().lt_exec(&radius) {
        return Err(ValidationError::new("Cone radius should not exceed twice the height"));
    }
    Ok(())
}

/// Whether a sphere's radius and segments are within the limits.
pub fn validate_sphere(radius: Scalar, segments_lat: u32, segments_lon: u32) -> (r:
    ValidationResult<()>)
    ensures
        r is Ok <==> dimension_fault(radius) is None && 3 <= segments_lat <= MAX_SEGMENTS && 3
            <= segments_lon <= MAX_SEGMENTS,
{
    validate_radius(radius, "radius")?;
    validate_segments(segments_lat, 3)?;
    validate_segments(segments_lon, 3)?;
    Ok(())
}

/// Whether a torus is within the limits: both radii and both numbers of
/// segments, and the minor radius less than the major.
pub fn validate_torus(
    major_radius: Scalar,
    minor_radius: Scalar,
    segments_major: u32,
    segments_minor: u32,
) -> (r: ValidationResult<()>)
    ensures
        r is Ok <==> dimension_fault(major_radius) is None && dimension_fault(minor_radius)
            is None && 3 <= segments_major <= MAX_SEGMENTS && 3 <= segments_minor <= MAX_SEGMENTS
            && minor_radius.lt(major_radius),
{
    validate_radius(major_radius, "major radius")?;
    validate_radius(minor_radius, "minor radius")?;
    validate_segments(segments_major, 3)?;
    validate_segments(segments_minor, 3)?;
    if !minor_radius.lt_exec(&major_radius) {
        return Err(ValidationError::new("Minor radius must be less than major radius"));
    }
    Ok(())
}

/// Whether a hole is within the limits: its diameter at most a metre.
pub fn validate_hole(diameter: Scalar, depth: Scalar) -> (r: ValidationResult<()>)
    ensures
        r is Ok <==> dimension_fault(diameter) is None && dimension_fault(depth) is None && !(
        Scalar { bits: MAX_HOLE_DIAMETER_BITS }).lt(diameter),
{
    validate_dimension(diameter, "hole diameter")?;
    validate_dimension(depth, "hole depth")?;
    if Scalar::from_bits(MAX_HOLE_DIAMETER_BITS).lt_exec(&diameter) {
        return Err(ValidationError::new("Hole diameter should not exceed 1000mm"));
    }
    Ok(())
}

/// Whether the radius of a fillet is within the limits: at most a hundred
/// millimetres.
pub fn validate_fillet_radius(radius: Scalar) -> (r: ValidationResult<()>)
    ensures
        r is Ok <==> dimension_fault(radius) is None && !(Scalar { bits: MAX_BLEND_BITS }).lt(
            radius,
        ),
{
    validate_dimension(radius, "fillet radius")?;
    if Scalar::from_bits(MAX_BLEND_BITS).lt_exec(&radius) {
        return Err(ValidationError::new("Fillet radius should not exceed 100mm"));
    }
    Ok(())
}

/// Whether the distance of a chamfer is within the limits: at most a
/// hundred millimetres.
pub fn validate_chamfer_distance(distance: Scalar) -> (r: ValidationResult<()>)
    ensures
        r is Ok <==> dimension_fault(distance) is None && !(Scalar { bits: MAX_BLEND_BITS }).lt(
            distance,
        ),
{
    validate_dimension(distance, "chamfer distance")?;
    if Scalar::from_bits(MAX_BLEND_BITS).lt_exec(&distance) {
        return Err(ValidationError::new("Chamfer distance should not exceed 100mm"));
    }
    Ok(())
}

} // verus!
