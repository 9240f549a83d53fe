//! Deterministic geometry compiler core: content-addressed node identity,
//! a dependency graph with cycle rejection and a deterministic evaluation
//! order, CSG tree parsing and evaluation, manufacturability reporting, and
//! the bookkeeping of boundary topology.
//!
//! Real-valued quantities are carried as IEEE-754 bit patterns. The kernel
//! orders them, turns their sign, and halves or doubles them, all of which
//! is exact on the bits; it does no other arithmetic on them.

pub mod compiler;
pub mod errors;
pub mod geometry;
pub mod hashing;
pub mod ir;
pub mod scalar;
pub mod string_map;
pub mod text;
pub mod topology;
pub mod types;
