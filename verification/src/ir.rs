//! The semantic graph of a design: nodes with content-derived identity, the
//! dependency graph over them, and its validation.

use vstd::prelude::*;

pub mod feature;
pub mod graph;
pub mod node;
pub mod validate;

verus! {

/// A graph without nodes.
pub fn new_graph() -> (g: graph::IRGraph)
    ensures
        g@ == Seq::<node::IRNode>::empty(),
{
    graph::IRGraph::new()
}

/// A validator that looks at everything.
pub fn new_validator() -> (v: validate::IRValidator)
    ensures
        v.settings().validate_manufacturing,
        v.settings().analyze_performance,
{
    validate::IRValidator::new()
}

/// A validator that looks at what `config` says.
pub fn new_validator_with_config(config: validate::ValidationConfig) -> (v: validate::IRValidator)
    ensures
        v.settings() == config,
{
    validate::IRValidator::with_config(config)
}

} // verus!
