//! Rules about geometry that need no arithmetic on coordinates: which
//! parameters a primitive must have, how meshes combine, and which findings
//! a measured mesh gives rise to.

pub mod bounding;
pub mod constraints;
pub mod operations;
pub mod params;
pub mod primitives;
pub mod validation;
