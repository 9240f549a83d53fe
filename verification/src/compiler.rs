//! From intent to mesh: the CSG tree, its parser, its evaluator, and the
//! compiler that drives them.

pub mod csg_compiler;
pub mod csg_evaluator;
pub mod csg_tree;
pub mod intent_parser;
