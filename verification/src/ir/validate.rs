//! Validation of nodes and graphs.
//!
//! A graph is validated in stages, and every stage adds to one result: the
//! structure of the graph, the nodes one by one, the types of nodes against
//! the types of what they depend on, the meaning of features and boolean
//! operations, a rating of manufacturability, and advice on performance.
//! The result is valid where no stage found an error; ratings and advice
//! have no say in that.

use vstd::prelude::*;
use vstd::string::*;
use crate::errors::{join2, join3, ErrorCode, KernelError, KernelResult};
use crate::hashing::canonical_json;
use crate::ir::feature::{
    feature_fault, Feature, FeatureMeasures, ManufacturingConstraint, ManufacturingProcess,
};
use crate::ir::graph::{
    clipped, edge_total, find_index, has_id, max_depth_of, place_of, IRGraph,
};
use crate::ir::node::{user_id_text, IRNode, NodeContent, NodeId, NodeType};
use crate::scalar::Scalar;
use crate::string_map::StringMap;
use crate::text::{contains_text, decimal, decimal_text, str_contains};

verus! {

#[derive(Debug, Clone, Copy, PartialEq, Eq, Structural)]
pub enum ValidationErrorType {
    GraphStructure,
    MissingDependency,
    CircularDependency,
    InvalidContent,
    InvalidParameter,
    TypeMismatch,
    ManufacturingConstraint,
    GeometricInconsistency,
    IntegrityViolation,
}

#[derive(Debug, Clone, Copy, PartialEq, Eq, Structural)]
pub enum ValidationWarningType {
    Performance,
    ManufacturingDifficulty,
    SuboptimalParameter,
    MissedOptimization,
    RobustnessIssue,
    StyleIssue,
}

#[derive(Debug, Clone, Copy, PartialEq, Eq, PartialOrd, Ord, Structural)]
pub enum WarningSeverity {
    Low,
    Medium,
    High,
}

#[derive(Debug, Clone, Copy, PartialEq, Eq, PartialOrd, Ord, Structural)]
pub enum ViolationSeverity {
    Minor,
    Major,
    Critical,
}

/// An error, for contracts: its kind and the node it is about.
pub struct Issue {
    pub error_type: ValidationErrorType,
    pub node_id: Option<Seq<char>>,
}

/// A warning, for contracts: its kind and how grave it is.
pub struct Notice {
    pub warning_type: ValidationWarningType,
    pub severity: WarningSeverity,
}

/// An error that validation found.
#[derive(Debug, Clone)]
pub struct ValidationError {
    pub error_type: ValidationErrorType,
    pub node_id: Option<NodeId>,
    pub message: String,
    pub context: StringMap<String>,
    pub suggested_fix: Option<String>,
}

impl View for ValidationError {
    type V = Issue;

    open spec fn view(&self) -> Issue {
        Issue {
            error_type: self.error_type,
            node_id: match self.node_id {
                Some(id) => Some(id@),
                None => None,
            },
        }
    }
}

/// A warning that validation gave.
#[derive(Debug, Clone)]
pub struct ValidationWarning {
    pub warning_type: ValidationWarningType,
    pub node_id: Option<NodeId>,
    pub message: String,
    pub severity: WarningSeverity,
    pub suggestion: Option<String>,
}

impl View for ValidationWarning {
    type V = Notice;

    open spec fn view(&self) -> Notice {
        Notice { warning_type: self.warning_type, severity: self.severity }
    }
}

/// The issues that a sequence of errors holds.
pub open spec fn issues_of(errors: Seq<ValidationError>) -> Seq<Issue> {
    Seq::new(errors.len(), |i: int| errors[i]@)
}

/// The notices that a sequence of warnings holds.
pub open spec fn notices_of(warnings: Seq<ValidationWarning>) -> Seq<Notice> {
    Seq::new(warnings.len(), |i: int| warnings[i]@)
}

/// A constraint of manufacturing that a node breaks.
#[derive(Debug, Clone)]
pub struct ConstraintViolation {
    pub node_id: NodeId,
    pub constraint_type: String,
    pub severity: ViolationSeverity,
    pub description: String,
    pub affected_processes: Vec<ManufacturingProcess>,
}

/// A feature that a tool cannot reach.
#[derive(Debug, Clone)]
pub struct ToolAccessIssue {
    pub node_id: NodeId,
    pub issue_type: String,
    pub description: String,
    pub solutions: Vec<String>,
}

/// The rating of manufacturability. Scores are whole points from nought
/// to a hundred.
#[derive(Debug, Clone)]
pub struct ManufacturingAnalysis {
    pub manufacturability_score: u32,
    pub compatible_processes: Vec<ManufacturingProcess>,
    pub constraint_violations: Vec<ConstraintViolation>,
    pub complexity_score: u32,
    pub tool_access_issues: Vec<ToolAccessIssue>,
}

impl Default for ManufacturingAnalysis {
    fn default() -> (a: Self)
        ensures
            a.manufacturability_score == 100,
            a.complexity_score == 0,
            a.compatible_processes@.len() == 0,
            a.constraint_violations@.len() == 0,
            a.tool_access_issues@.len() == 0,
    {
        ManufacturingAnalysis {
            manufacturability_score: 100,
            compatible_processes: Vec::new(),
            constraint_violations: Vec::new(),
            complexity_score: 0,
            tool_access_issues: Vec::new(),
        }
    }
}

/// How much a validation looked at. The time it took is for the host to
/// fill in.
#[derive(Debug, Clone, Copy, PartialEq, Eq)]
pub struct ValidationMetrics {
    pub validation_time: Scalar,
    pub nodes_validated: usize,
    pub features_validated: usize,
    pub constraints_checked: usize,
}

impl Default for ValidationMetrics {
    fn default() -> (m: Self)
        ensures
            m.validation_time.bits == 0,
            m.nodes_validated == 0,
            m.features_validated == 0,
            m.constraints_checked == 0,
    {
        ValidationMetrics {
            validation_time: Scalar::zero(),
            nodes_validated: 0,
            features_validated: 0,
            constraints_checked: 0,
        }
    }
}

/// What to validate and how strictly.
#[derive(Debug, Clone, Copy, PartialEq, Eq)]
pub struct ValidationConfig {
    pub validate_manufacturing: bool,
    pub analyze_performance: bool,
    pub strict_typing: bool,
    pub check_integrity: bool,
    pub max_dependency_depth: usize,
    pub max_nodes_per_graph: usize,
}

impl Default for ValidationConfig {
    fn default() -> (c: Self)
        ensures
            c.validate_manufacturing,
            c.analyze_performance,
            c.strict_typing,
            c.check_integrity,
            c.max_dependency_depth == 20,
            c.max_nodes_per_graph == 1000,
    {
        ValidationConfig {
            validate_manufacturing: true,
            analyze_performance: true,
            strict_typing: true,
            check_integrity: true,
            max_dependency_depth: 20,
            max_nodes_per_graph: 1000,
        }
    }
}

/// What a validation found.
#[derive(Debug, Clone)]
pub struct ValidationResult {
    pub is_valid: bool,
    pub errors: Vec<ValidationError>,
    pub warnings: Vec<ValidationWarning>,
    pub manufacturing_analysis: ManufacturingAnalysis,
    pub metrics: ValidationMetrics,
}

/// The words of a summary.
pub open spec fn summary_text(is_valid: bool, errors: nat, warnings: nat) -> Seq<char> {
    if is_valid && warnings == 0 {
        "Validation passed without issues"@
    } else if is_valid {
        "Validation passed with "@ + decimal(warnings) + " warnings"@
    } else {
        "Validation failed with "@ + decimal(errors) + " errors and "@ + decimal(warnings)
            + " warnings"@
    }
}

impl ValidationResult {
    /// A result without findings.
    pub fn new() -> (r: Self)
        ensures
            r.is_valid,
            r.errors@.len() == 0,
            r.warnings@.len() == 0,
            r.manufacturing_analysis.manufacturability_score == 100,
            r.manufacturing_analysis.complexity_score == 0,
            r.manufacturing_analysis.constraint_violations@.len() == 0,
            r.manufacturing_analysis.compatible_processes@.len() == 0,
            r.manufacturing_analysis.tool_access_issues@.len() == 0,
            r.metrics.nodes_validated == 0,
            r.metrics.features_validated == 0,
            r.metrics.constraints_checked == 0,
            r.metrics.validation_time.bits == 0,
    {
        ValidationResult {
            is_valid: true,
            errors: Vec::new(),
            warnings: Vec::new(),
            manufacturing_analysis: ManufacturingAnalysis::default(),
            metrics: ValidationMetrics::default(),
        }
    }

    /// Adds an error. A result with an error is not valid.
    pub fn add_error(&mut self, error: ValidationError)
        ensures
            !final(self).is_valid,
            final(self).errors@ == old(self).errors@.push(error),
            final(self).warnings == old(self).warnings,
            final(self).manufacturing_analysis == old(self).manufacturing_analysis,
            final(self).metrics == old(self).metrics,
    {
        self.is_valid = false;
        self.errors.push(error);
    }

    /// Adds a warning. A warning leaves a valid result valid.
    pub fn add_warning(&mut self, warning: ValidationWarning)
        ensures
            final(self).is_valid == old(self).is_valid,
            final(self).warnings@ == old(self).warnings@.push(warning),
            final(self).errors == old(self).errors,
            final(self).manufacturing_analysis == old(self).manufacturing_analysis,
            final(self).metrics == old(self).metrics,
    {
        self.warnings.push(warning);
    }

    pub fn has_errors(&self) -> (b: bool)
        ensures
            b == (self.errors@.len() > 0),
    {
        self.errors.len() > 0
    }

    pub fn has_warnings(&self) -> (b: bool)
        ensures
            b == (self.warnings@.len() > 0),
    {
        self.warnings.len() > 0
    }

    /// The result in a sentence.
    pub fn summary(&self) -> (s: String)
        ensures
            s@ == summary_text(self.is_valid, self.errors@.len(), self.warnings@.len()),
    {
        if self.is_valid && self.warnings.len() == 0 {
            String::from_str("Validation passed without issues")
        } else if self.is_valid {
            let count = decimal_text(self.warnings.len());
            join3("Validation passed with ", count.as_str(), " warnings")
        } else {
            let errors = decimal_text(self.errors.len());
            let warnings = decimal_text(self.warnings.len());
            let mut s = join3("Validation failed with ", errors.as_str(), " errors and ");
            s.append(warnings.as_str());
            s.append(" warnings");
            s
        }
    }
}

/// Whether a node of type `node` may depend on a node of type `dep`.
///
/// Geometry may depend on geometry, an analysis on any geometry, a
/// constraint on anything; a primitive depends on nothing.
pub open spec fn compatible(dep: NodeType, node: NodeType) -> bool {
    match node {
        NodeType::Primitive => false,
        NodeType::Feature => dep.is_geometric(),
        NodeType::BooleanOp => dep.is_geometric(),
        NodeType::Analysis => dep.is_geometric(),
        NodeType::Constraint => true,
    }
}

/// Whether a parameter of this name is a dimension.
pub open spec fn is_dimension_name(name: Seq<char>) -> bool {
    contains_text(name, "width"@) || contains_text(name, "height"@) || contains_text(
        name,
        "radius"@,
    ) || contains_text(name, "diameter"@)
}

/// How many of the keys name a dimension that is not positive.
pub open spec fn bad_dimensions(keys: Seq<Seq<char>>, params: Map<Seq<char>, Scalar>) -> nat
    decreases keys.len(),
{
    if keys.len() == 0 {
        0
    } else {
        bad_dimensions(keys.drop_last(), params) + if is_dimension_name(keys.last())
            && params[keys.last()].le(Scalar { bits: 0 }) {
            1nat
        } else {
            0nat
        }
    }
}

/// One and the same issue, `count` times.
pub open spec fn repeated(issue: Issue, count: nat) -> Seq<Issue> {
    Seq::new(count, |i: int| issue)
}

/// An issue about a node.
pub open spec fn issue_for(error_type: ValidationErrorType, node: IRNode) -> Issue {
    Issue { error_type, node_id: Some(node.id@) }
}

/// The node's content is not of the node's type.
pub open spec fn content_issues(node: IRNode) -> Seq<Issue> {
    if node.content.kind() == node.node_type {
        Seq::empty()
    } else {
        seq![issue_for(ValidationErrorType::InvalidContent, node)]
    }
}

/// A primitive has a dimension that is not positive: one issue for each.
pub open spec fn parameter_issues(node: IRNode) -> Seq<Issue> {
    match node.content {
        NodeContent::Primitive { parameters, .. } => repeated(
            issue_for(ValidationErrorType::InvalidParameter, node),
            bad_dimensions(parameters.key_order(), parameters@),
        ),
        _ => Seq::empty(),
    }
}

/// The node's hash is not the hash of its content.
pub open spec fn integrity_issues(node: IRNode) -> Seq<Issue> {
    if node.has_integrity() {
        Seq::empty()
    } else {
        seq![issue_for(ValidationErrorType::IntegrityViolation, node)]
    }
}

/// All that is wrong with a node by itself.
pub open spec fn node_issues(node: IRNode) -> Seq<Issue> {
    content_issues(node) + parameter_issues(node) + integrity_issues(node)
}

/// All that is wrong with the first `n` nodes, each by itself.
pub open spec fn all_node_issues(nodes: Seq<IRNode>, n: nat) -> Seq<Issue>
    decreases n,
{
    if n == 0 {
        Seq::empty()
    } else {
        all_node_issues(nodes, (n - 1) as nat) + node_issues(nodes[n - 1])
    }
}

/// What is wrong with the first `k` dependencies of a node: a dependency
/// that is not there, or one of a type the node may not depend on.
pub open spec fn dependency_issues_of(nodes: Seq<IRNode>, node: IRNode, k: nat) -> Seq<Issue>
    decreases k,
{
    if k == 0 {
        Seq::empty()
    } else {
        let dep = node.dependencies@[k - 1]@;
        dependency_issues_of(nodes, node, (k - 1) as nat) + if !has_id(nodes, dep) {
            seq![issue_for(ValidationErrorType::MissingDependency, node)]
        } else if !compatible(nodes[place_of(nodes, dep)].node_type, node.node_type) {
            seq![issue_for(ValidationErrorType::TypeMismatch, node)]
        } else {
            Seq::empty()
        }
    }
}

/// What is wrong with the dependencies of the first `n` nodes.
pub open spec fn dependency_issues(nodes: Seq<IRNode>, n: nat) -> Seq<Issue>
    decreases n,
{
    if n == 0 {
        Seq::empty()
    } else {
        dependency_issues(nodes, (n - 1) as nat) + dependency_issues_of(
            nodes,
            nodes[n - 1],
            nodes[n - 1].dependencies@.len(),
        )
    }
}

/// The node `id` is in the graph and does not stand for geometry.
pub open spec fn is_not_geometry(nodes: Seq<IRNode>, id: Seq<char>) -> bool {
    has_id(nodes, id) && !nodes[place_of(nodes, id)].node_type.is_geometric()
}

/// One issue where `node` refers to `id` and `id` is not geometry.
pub open spec fn reference_issues(nodes: Seq<IRNode>, node: IRNode, id: Seq<char>) -> Seq<Issue> {
    if is_not_geometry(nodes, id) {
        seq![issue_for(ValidationErrorType::GeometricInconsistency, node)]
    } else {
        Seq::empty()
    }
}

/// A feature whose target, or a boolean operation whose operand, is not
/// geometry.
pub open spec fn semantic_issues_of(nodes: Seq<IRNode>, node: IRNode) -> Seq<Issue> {
    match node.content {
        NodeContent::Feature { target_node, .. } => reference_issues(nodes, node, target_node@),
        NodeContent::BooleanOp { operand_a, operand_b, .. } => reference_issues(
            nodes,
            node,
            operand_a@,
        ) + reference_issues(nodes, node, operand_b@),
        _ => Seq::empty(),
    }
}

/// The semantic issues of the first `n` nodes.
pub open spec fn semantic_issues(nodes: Seq<IRNode>, n: nat) -> Seq<Issue>
    decreases n,
{
    if n == 0 {
        Seq::empty()
    } else {
        semantic_issues(nodes, (n - 1) as nat) + semantic_issues_of(nodes, nodes[n - 1])
    }
}

/// Every error of a graph, in the order of the stages.
pub open spec fn graph_issues(nodes: Seq<IRNode>) -> Seq<Issue> {
    all_node_issues(nodes, nodes.len()) + dependency_issues(nodes, nodes.len()) + semantic_issues(
        nodes,
        nodes.len(),
    )
}

/// How many of the first `n` nodes hold a feature.
pub open spec fn feature_count(nodes: Seq<IRNode>, n: nat) -> nat
    decreases n,
{
    if n == 0 {
        0
    } else {
        feature_count(nodes, (n - 1) as nat) + if nodes[n - 1].content is Feature {
            1nat
        } else {
            0nat
        }
    }
}

/// The primitive has a width below half a millimetre.
pub open spec fn is_undersized(node: IRNode) -> bool {
    node.content matches NodeContent::Primitive { parameters, .. } && parameters@.contains_key(
        "width"@,
    ) && parameters@["width"@].lt(Scalar { bits: 0x3FE0_0000_0000_0000 })
}

/// How many of the first `n` nodes are undersized primitives.
pub open spec fn undersized_count(nodes: Seq<IRNode>, n: nat) -> nat
    decreases n,
{
    if n == 0 {
        0
    } else {
        undersized_count(nodes, (n - 1) as nat) + if is_undersized(nodes[n - 1]) {
            1nat
        } else {
            0nat
        }
    }
}

/// The ids of the undersized primitives among the first `n` nodes.
pub open spec fn undersized_ids(nodes: Seq<IRNode>, n: nat) -> Seq<Seq<char>>
    decreases n,
{
    if n == 0 {
        Seq::empty()
    } else if is_undersized(nodes[n - 1]) {
        undersized_ids(nodes, (n - 1) as nat).push(nodes[n - 1].id@)
    } else {
        undersized_ids(nodes, (n - 1) as nat)
    }
}

/// The nodes that a sequence of violations is about.
pub open spec fn violation_ids(violations: Seq<ConstraintViolation>) -> Seq<Seq<char>> {
    Seq::new(violations.len(), |i: int| violations[i].node_id@)
}

/// The processes that are rated.
pub open spec fn rated_processes() -> Seq<ManufacturingProcess> {
    seq![
        ManufacturingProcess::CNCMilling,
        ManufacturingProcess::CNCTurning,
        ManufacturingProcess::Printing3D,
    ]
}

/// The rating: a hundred points, five off for every feature and twenty
/// off for every undersized primitive, but never below nought.
pub open spec fn manufacturability_score(features: nat, undersized: nat) -> u32 {
    if 5 * features + 20 * undersized >= 100 {
        0
    } else {
        (100 - 5 * features - 20 * undersized) as u32
    }
}

/// The warnings of a graph: one where there is more than one node, as
/// each node is a component of its own; and, where performance is looked
/// at, one for a chain of more than ten dependencies and one for more than
/// five dependencies per node on average.
pub open spec fn graph_notices(nodes: Seq<IRNode>, config: ValidationConfig) -> Seq<Notice> {
    let depth = max_depth_of(nodes);
    let low = Notice {
        warning_type: ValidationWarningType::Performance,
        severity: WarningSeverity::Low,
    };
    let medium = Notice {
        warning_type: ValidationWarningType::Performance,
        severity: WarningSeverity::Medium,
    };
    (if nodes.len() > 1 {
        seq![low]
    } else {
        Seq::empty()
    }) + (if config.analyze_performance && depth > 10 {
        seq![medium]
    } else {
        Seq::empty()
    }) + (if config.analyze_performance && clipped(edge_total(nodes)) > 5 * nodes.len() {
        seq![low]
    } else {
        Seq::empty()
    })
}

/// How many of the first `n` constraints lack the parameter of their
/// type.
pub open spec fn lacking_constraints(constraints: Seq<ManufacturingConstraint>, n: nat) -> nat
    decreases n,
{
    if n == 0 {
        0
    } else {
        lacking_constraints(constraints, (n - 1) as nat) + if constraints[n
            - 1].parameters@.contains_key(constraints[n - 1].constraint_type.required_parameter()) {
            0nat
        } else {
            1nat
        }
    }
}

/// An issue about a feature: it is filed under the id that anchors the
/// feature's own.
pub open spec fn feature_issue(error_type: ValidationErrorType, feature: Feature) -> Issue {
    Issue { error_type, node_id: Some(user_id_text(feature.id@)) }
}

/// All that is wrong with a feature: its first fault, and then every
/// constraint that lacks the parameter of its type.
pub open spec fn feature_issues(feature: Feature, measures: FeatureMeasures) -> Seq<Issue> {
    (if feature_fault(feature, measures) is Some {
        seq![feature_issue(ValidationErrorType::InvalidParameter, feature)]
    } else {
        Seq::empty()
    }) + repeated(
        feature_issue(ValidationErrorType::ManufacturingConstraint, feature),
        lacking_constraints(
            feature.manufacturing_constraints@,
            feature.manufacturing_constraints@.len(),
        ),
    )
}

fn make_feature_error(error_type: ValidationErrorType, feature: &Feature, error: &KernelError) -> (e:
    ValidationError)
    ensures
        e@ == feature_issue(error_type, *feature),
{
    ValidationError {
        error_type,
        node_id: Some(NodeId::from_user_string(feature.id.as_str())),
        message: error.to_string(),
        context: StringMap::new(),
        suggested_fix: None,
    }
}

fn make_error(
    error_type: ValidationErrorType,
    node: &IRNode,
    message: String,
    suggested_fix: &str,
) -> (e: ValidationError)
    ensures
        e@ == issue_for(error_type, *node),
{
    ValidationError {
        error_type,
        node_id: Some(node.id.clone()),
        message,
        context: StringMap::new(),
        suggested_fix: Some(String::from_str(suggested_fix)),
    }
}

fn performance_warning(message: String, severity: WarningSeverity, suggestion: &str) -> (w:
    ValidationWarning)
    ensures
        w@ == (Notice { warning_type: ValidationWarningType::Performance, severity }),
{
    ValidationWarning {
        warning_type: ValidationWarningType::Performance,
        node_id: None,
        message,
        severity,
        suggestion: Some(String::from_str(suggestion)),
    }
}

fn is_dimension(name: &str) -> (b: bool)
    ensures
        b == is_dimension_name(name@),
{
    str_contains(name, "width") || str_contains(name, "height") || str_contains(name, "radius")
        || str_contains(name, "diameter")
}

fn is_geometric(node_type: NodeType) -> (b: bool)
    ensures
        b == node_type.is_geometric(),
{
    match node_type {
        NodeType::Primitive | NodeType::Feature | NodeType::BooleanOp => true,
        _ => false,
    }
}

/// Validates nodes and graphs.
#[derive(Debug)]
pub struct IRValidator {
    config: ValidationConfig,
}

impl IRValidator {
    /// What the validator looks at.
    pub closed spec fn settings(&self) -> ValidationConfig {
        self.config
    }

    pub fn new() -> (v: Self)
        ensures
            v.settings().validate_manufacturing,
            v.settings().analyze_performance,
    {
        IRValidator { config: ValidationConfig::default() }
    }

    pub fn with_config(config: ValidationConfig) -> (v: Self)
        ensures
            v.settings() == config,
    {
        IRValidator { config }
    }

    /// Whether a node of type `node_type` may depend on one of type
    /// `dep_type`.
    pub fn are_types_compatible(&self, dep_type: &NodeType, node_type: &NodeType) -> (b: bool)
        ensures
            b == compatible(*dep_type, *node_type),
    {
        match node_type {
            NodeType::Primitive => false,
            NodeType::Feature | NodeType::BooleanOp | NodeType::Analysis => is_geometric(*dep_type),
            NodeType::Constraint => true,
        }
    }

    /// Whether nodes of the type stand for geometry.
    pub fn is_geometric_node(&self, node_type: &NodeType) -> (b: bool)
        ensures
            b == node_type.is_geometric(),
    {
        is_geometric(*node_type)
    }

    /// Validates a node by itself: its content against its type, the
    /// dimensions of a primitive, and its hash against its content.
    ///
    /// Fails where the node's content cannot be hashed, so that there is
    /// nothing to hold its hash against.
    pub fn validate_node(&self, node: &IRNode) -> (r: KernelResult<ValidationResult>)
        ensures
            match r {
                Ok(result) => {
                    &&& canonical_json(node.serialized@) is Some
                    &&& issues_of(result.errors@) == node_issues(*node)
                    &&& result.is_valid == (node_issues(*node).len() == 0)
                    &&& result.warnings@.len() == 0
                    &&& result.metrics.nodes_validated == 1
                },
                Err(e) => canonical_json(node.serialized@) is None && e.has_code(
                    ErrorCode::InternalError,
                ),
            },
    {
        let mut errors: Vec<ValidationError> = Vec::new();
        assert(issues_of(errors@) =~= Seq::<Issue>::empty());
        self.validate_node_content(node, &mut errors);
        self.validate_node_parameters(node, &mut errors);
        self.validate_node_integrity(node, &mut errors)?;
        let mut result = ValidationResult::new();
        result.is_valid = errors.len() == 0;
        result.errors = errors;
        result.metrics.nodes_validated = 1;
        Ok(result)
    }

    /// Validates a feature by itself: its parameters against the rules of
    /// its kind, and every constraint for the parameter of its type.
    pub fn validate_feature(&self, feature: &Feature, measures: &FeatureMeasures) -> (r:
        KernelResult<ValidationResult>)
        ensures
            r matches Ok(result) && {
                &&& issues_of(result.errors@) == feature_issues(*feature, *measures)
                &&& result.is_valid == (feature_issues(*feature, *measures).len() == 0)
                &&& result.warnings@.len() == 0
                &&& result.metrics.features_validated == 1
            },
    {
        let mut errors: Vec<ValidationError> = Vec::new();
        match feature.validate(measures) {
            Ok(()) => {},
            Err(e) => {
                errors.push(make_feature_error(ValidationErrorType::InvalidParameter, feature, &e));
            },
        }
        let ghost first = issues_of(errors@);
        let ghost issue = feature_issue(ValidationErrorType::ManufacturingConstraint, *feature);
        let n = feature.manufacturing_constraints.len();
        let mut i: usize = 0;
        assert(issues_of(errors@) =~= first + repeated(issue, 0));
        while i < n
            invariant
                n == feature.manufacturing_constraints@.len(),
                i <= n,
                issue == feature_issue(ValidationErrorType::ManufacturingConstraint, *feature),
                issues_of(errors@) == first + repeated(
                    issue,
                    lacking_constraints(feature.manufacturing_constraints@, i as nat),
                ),
            decreases n - i,
        {
            let ghost so_far = issues_of(errors@);
            match feature.manufacturing_constraints[i].validate() {
                Ok(()) => {},
                Err(e) => {
                    errors.push(
                        make_feature_error(
                            ValidationErrorType::ManufacturingConstraint,
                            feature,
                            &e,
                        ),
                    );
                    assert(issues_of(errors@) =~= so_far.push(issue));
                },
            }
            assert(issues_of(errors@) =~= first + repeated(
                issue,
                lacking_constraints(feature.manufacturing_constraints@, (i + 1) as nat),
            ));
            i += 1;
        }
        assert(issues_of(errors@) =~= feature_issues(*feature, *measures));
        let mut result = ValidationResult::new();
        result.is_valid = errors.len() == 0;
        result.errors = errors;
        result.metrics.features_validated = 1;
        Ok(result)
    }

    fn validate_node_content(&self, node: &IRNode, errors: &mut Vec<ValidationError>)
        ensures
            issues_of(final(errors)@) == issues_of(old(errors)@) + content_issues(*node),
    {
        let ghost before = issues_of(errors@);
        if node.content.node_type() != node.node_type {
            errors.push(
                make_error(
                    ValidationErrorType::InvalidContent,
                    node,
                    String::from_str("Node content does not match node type"),
                    "Ensure content type matches node type",
                ),
            );
        }
        assert(issues_of(errors@) =~= before + content_issues(*node));
    }

    fn validate_node_parameters(&self, node: &IRNode, errors: &mut Vec<ValidationError>)
        ensures
            issues_of(final(errors)@) == issues_of(old(errors)@) + parameter_issues(*node),
    {
        let ghost before = issues_of(errors@);
        match &node.content {
            NodeContent::Primitive { parameters, .. } => {
                let n = parameters.len();
                let ghost keys = parameters.key_order();
                let ghost issue = issue_for(ValidationErrorType::InvalidParameter, *node);
                let mut i: usize = 0;
                assert(keys.take(0) =~= Seq::<Seq<char>>::empty());
                assert(issues_of(errors@) =~= before + repeated(issue, 0));
                while i < n
                    invariant
                        n == keys.len(),
                        keys == parameters.key_order(),
                        issue == issue_for(ValidationErrorType::InvalidParameter, *node),
                        i <= n,
                        issues_of(errors@) == before + repeated(
                            issue,
                            bad_dimensions(keys.take(i as int), parameters@),
                        ),
                    decreases n - i,
                {
                    proof {
                        assert(keys.take(i + 1).drop_last() == keys.take(i as int));
                        assert(keys.take(i + 1).last() == keys[i as int]);
                    }
                    let name = parameters.key_at(i);
                    let value = parameters.value_at(i);
                    if is_dimension(name.as_str()) && value.le_exec(&Scalar::zero()) {
                        let ghost so_far = issues_of(errors@);
                        let message = join3("Parameter '", name.as_str(), "' must be positive");
                        errors.push(
                            make_error(
                                ValidationErrorType::InvalidParameter,
                                node,
                                message,
                                "Use positive values for geometric dimensions",
                            ),
                        );
                        assert(issues_of(errors@) =~= so_far.push(issue));
                        assert(issues_of(errors@) =~= before + repeated(
                            issue,
                            bad_dimensions(keys.take(i + 1), parameters@),
                        ));
                    }
                    i += 1;
                }
                assert(keys.take(n as int) == keys);
            },
            _ => {
                assert(issues_of(errors@) =~= before + parameter_issues(*node));
            },
        }
    }

    fn validate_node_integrity(&self, node: &IRNode, errors: &mut Vec<ValidationError>) -> (r:
        KernelResult<()>)
        ensures
            match r {
                Ok(()) => canonical_json(node.serialized@) is Some && issues_of(final(errors)@)
                    == issues_of(old(errors)@) + integrity_issues(*node),
                Err(e) => canonical_json(node.serialized@) is None && e.has_code(
                    ErrorCode::InternalError,
                ),
            },
    {
        let ghost before = issues_of(errors@);
        if !node.verify_integrity()? {
            errors.push(
                make_error(
                    ValidationErrorType::IntegrityViolation,
                    node,
                    String::from_str("Node content hash does not match current content"),
                    "Recompute node content hash",
                ),
            );
        }
        assert(issues_of(errors@) =~= before + integrity_issues(*node));
        Ok(())
    }

    /// Validates a graph through all its stages.
    ///
    /// Fails where the content of some node cannot be hashed. Otherwise
    /// the result holds every error in the order of the stages, and within
    /// a stage in the order of the nodes; it is valid where there is none.
    pub fn validate_graph(&mut self, graph: &IRGraph) -> (r: KernelResult<ValidationResult>)
        ensures
            final(self).settings() == old(self).settings(),
            match r {
                Ok(result) => {
                    &&& issues_of(result.errors@) == graph_issues(graph@)
                    &&& result.is_valid == (graph_issues(graph@).len() == 0)
                    &&& notices_of(result.warnings@) == graph_notices(
                        graph@,
                        old(self).settings(),
                    )
                    &&& result.metrics.nodes_validated == graph@.len()
                    &&& result.manufacturing_analysis.manufacturability_score == if old(
                        self,
                    ).settings().validate_manufacturing {
                        manufacturability_score(
                            feature_count(graph@, graph@.len()),
                            undersized_count(graph@, graph@.len()),
                        )
                    } else {
                        100
                    }
                    &&& violation_ids(result.manufacturing_analysis.constraint_violations@) == if old(
                        self,
                    ).settings().validate_manufacturing {
                        undersized_ids(graph@, graph@.len())
                    } else {
                        Seq::<Seq<char>>::empty()
                    }
                    &&& result.manufacturing_analysis.compatible_processes@ == if old(
                        self,
                    ).settings().validate_manufacturing {
                        rated_processes()
                    } else {
                        Seq::<ManufacturingProcess>::empty()
                    }
                },
                Err(e) => e.has_code(ErrorCode::InternalError) && exists|i: int|
                    0 <= i < graph@.len() && canonical_json(
                        (#[trigger] graph@[i]).serialized@,
                    ) is None,
            },
    {
        let mut result = ValidationResult::new();
        let stats = graph.stats();
        let nodes = graph.nodes();
        let mut warnings: Vec<ValidationWarning> = Vec::new();
        let mut errors: Vec<ValidationError> = Vec::new();
        assert(issues_of(errors@) =~= Seq::<Issue>::empty());
        assert(notices_of(warnings@) =~= Seq::<Notice>::empty());
        // The structure of the graph.
        self.validate_graph_structure(graph, &mut warnings);
        // The nodes, each by itself.
        self.validate_all_nodes(nodes, &mut errors)?;
        // The types of nodes against the types of what they depend on.
        self.validate_dependencies(nodes, &mut errors);
        // The meaning of features and boolean operations.
        self.validate_semantic_consistency(nodes, &mut errors);
        // The rating of manufacturability.
        if self.config.validate_manufacturing {
            self.validate_manufacturing_constraints(nodes, &mut result);
        }
        // Advice on performance.
        let ghost structure = notices_of(warnings@);
        if self.config.analyze_performance {
            self.analyze_performance_issues(nodes, stats.max_depth, stats.edge_count, &mut warnings);
        }
        assert(notices_of(warnings@) =~= graph_notices(graph@, self.config));
        assert(issues_of(errors@) =~= graph_issues(graph@));
        result.is_valid = errors.len() == 0;
        result.errors = errors;
        result.warnings = warnings;
        result.metrics.nodes_validated = nodes.len();
        Ok(result)
    }

    fn validate_graph_structure(&self, graph: &IRGraph, warnings: &mut Vec<ValidationWarning>)
        ensures
            notices_of(final(warnings)@) == notices_of(old(warnings)@) + if graph@.len() > 1 {
                seq![
                    Notice {
                        warning_type: ValidationWarningType::Performance,
                        severity: WarningSeverity::Low,
                    },
                ]
            } else {
                Seq::<Notice>::empty()
            },
    {
        let ghost before = notices_of(warnings@);
        // The graph checks itself; it cannot be in a state that fails.
        let structure = graph.validate();
        assert(structure is Ok);
        let components = graph.strongly_connected_components();
        if components.len() > 1 {
            let count = decimal_text(components.len());
            let message = join3("Graph has ", count.as_str(), " disconnected components");
            warnings.push(
                performance_warning(
                    message,
                    WarningSeverity::Low,
                    "Consider if all components are necessary",
                ),
            );
            assert(notices_of(warnings@) =~= before.push(
                Notice {
                    warning_type: ValidationWarningType::Performance,
                    severity: WarningSeverity::Low,
                },
            ));
        } else {
            assert(notices_of(warnings@) =~= before + Seq::<Notice>::empty());
        }
    }

    fn validate_all_nodes(&self, nodes: &Vec<IRNode>, errors: &mut Vec<ValidationError>) -> (r:
        KernelResult<()>)
        ensures
            match r {
                Ok(()) => issues_of(final(errors)@) == issues_of(old(errors)@) + all_node_issues(
                    nodes@,
                    nodes@.len(),
                ),
                Err(e) => e.has_code(ErrorCode::InternalError) && exists|i: int|
                    0 <= i < nodes@.len() && canonical_json(
                        (#[trigger] nodes@[i]).serialized@,
                    ) is None,
            },
    {
        let ghost before = issues_of(errors@);
        let n = nodes.len();
        let mut i: usize = 0;
        assert(issues_of(errors@) =~= before + all_node_issues(nodes@, 0));
        while i < n
            invariant
                n == nodes@.len(),
                i <= n,
                issues_of(errors@) == before + all_node_issues(nodes@, i as nat),
            decreases n - i,
        {
            let ghost so_far = issues_of(errors@);
            let node = &nodes[i];
            self.validate_node_content(node, errors);
            self.validate_node_parameters(node, errors);
            match self.validate_node_integrity(node, errors) {
                Ok(()) => {},
                Err(e) => {
                    assert(canonical_json(nodes@[i as int].serialized@) is None);
                    return Err(e);
                },
            }
            assert(issues_of(errors@) =~= so_far + node_issues(*node));
            assert(issues_of(errors@) =~= before + all_node_issues(nodes@, (i + 1) as nat));
            i += 1;
        }
        Ok(())
    }

    fn validate_dependencies(&self, nodes: &Vec<IRNode>, errors: &mut Vec<ValidationError>)
        requires
            crate::ir::graph::ids_distinct(nodes@),
        ensures
            issues_of(final(errors)@) == issues_of(old(errors)@) + dependency_issues(
                nodes@,
                nodes@.len(),
            ),
    {
        let ghost before = issues_of(errors@);
        let n = nodes.len();
        let mut i: usize = 0;
        assert(issues_of(errors@) =~= before + dependency_issues(nodes@, 0));
        while i < n
            invariant
                n == nodes@.len(),
                i <= n,
                crate::ir::graph::ids_distinct(nodes@),
                issues_of(errors@) == before + dependency_issues(nodes@, i as nat),
            decreases n - i,
        {
            let node = &nodes[i];
            let ghost so_far = issues_of(errors@);
            let m = node.dependencies.len();
            let mut k: usize = 0;
            assert(issues_of(errors@) =~= so_far + dependency_issues_of(nodes@, *node, 0));
            while k < m
                invariant
                    n == nodes@.len(),
                    i < n,
                    node == nodes@[i as int],
                    m == node.dependencies@.len(),
                    k <= m,
                    crate::ir::graph::ids_distinct(nodes@),
                    issues_of(errors@) == so_far + dependency_issues_of(nodes@, *node, k as nat),
                decreases m - k,
            {
                let ghost inner = issues_of(errors@);
                let dep_id = &node.dependencies[k];
                match find_index(nodes, dep_id) {
                    Some(at) => {
                        proof {
                            crate::ir::graph::lemma_place_of(nodes@, at as int);
                        }
                        let dep_node = &nodes[at];
                        if !self.are_types_compatible(&dep_node.node_type, &node.node_type) {
                            let mut message = join3(
                                "Incompatible types: ",
                                node.node_type.as_str(),
                                " cannot depend on ",
                            );
                            message.append(dep_node.node_type.as_str());
                            let mut error = make_error(
                                ValidationErrorType::TypeMismatch,
                                node,
                                message,
                                "Check node type compatibility",
                            );
                            error.context.insert(
                                String::from_str("dependent"),
                                String::from_str(node.id.as_str()),
                            );
                            error.context.insert(
                                String::from_str("dependency"),
                                String::from_str(dep_id.as_str()),
                            );
                            errors.push(error);
                            assert(issues_of(errors@) =~= inner.push(
                                issue_for(ValidationErrorType::TypeMismatch, *node),
                            ));
                        }
                    },
                    None => {
                        let message = join2("Missing dependency: ", dep_id.as_str());
                        errors.push(
                            make_error(
                                ValidationErrorType::MissingDependency,
                                node,
                                message,
                                "Add the missing dependency node",
                            ),
                        );
                        assert(issues_of(errors@) =~= inner.push(
                            issue_for(ValidationErrorType::MissingDependency, *node),
                        ));
                    },
                }
                assert(issues_of(errors@) =~= so_far + dependency_issues_of(
                    nodes@,
                    *node,
                    (k + 1) as nat,
                ));
                k += 1;
            }
            assert(issues_of(errors@) =~= before + dependency_issues(nodes@, (i + 1) as nat));
            i += 1;
        }
    }

    /// Adds an issue where `node` refers to a node that is in the graph
    /// and is not geometry.
    fn check_reference(
        &self,
        nodes: &Vec<IRNode>,
        node: &IRNode,
        id: &NodeId,
        message: &str,
        fix: &str,
        errors: &mut Vec<ValidationError>,
    )
        requires
            crate::ir::graph::ids_distinct(nodes@),
        ensures
            issues_of(final(errors)@) == issues_of(old(errors)@) + reference_issues(
                nodes@,
                *node,
                id@,
            ),
    {
        let ghost before = issues_of(errors@);
        match find_index(nodes, id) {
            Some(at) => {
                proof {
                    crate::ir::graph::lemma_place_of(nodes@, at as int);
                }
                if !is_geometric(nodes[at].node_type) {
                    errors.push(
                        make_error(
                            ValidationErrorType::GeometricInconsistency,
                            node,
                            String::from_str(message),
                            fix,
                        ),
                    );
                }
            },
            None => {},
        }
        assert(issues_of(errors@) =~= before + reference_issues(nodes@, *node, id@));
    }

    fn validate_semantic_consistency(&self, nodes: &Vec<IRNode>, errors: &mut Vec<ValidationError>)
        requires
            crate::ir::graph::ids_distinct(nodes@),
        ensures
            issues_of(final(errors)@) == issues_of(old(errors)@) + semantic_issues(
                nodes@,
                nodes@.len(),
            ),
    {
        let ghost before = issues_of(errors@);
        let n = nodes.len();
        let mut i: usize = 0;
        assert(issues_of(errors@) =~= before + semantic_issues(nodes@, 0));
        while i < n
            invariant
                n == nodes@.len(),
                i <= n,
                crate::ir::graph::ids_distinct(nodes@),
                issues_of(errors@) == before + semantic_issues(nodes@, i as nat),
            decreases n - i,
        {
            let node = &nodes[i];
            let ghost so_far = issues_of(errors@);
            match &node.content {
                NodeContent::Feature { target_node, .. } => {
                    self.check_reference(
                        nodes,
                        node,
                        target_node,
                        "Features can only target geometric nodes",
                        "Target a primitive, boolean op, or other feature",
                        errors,
                    );
                },
                NodeContent::BooleanOp { operand_a, operand_b, .. } => {
                    self.check_reference(
                        nodes,
                        node,
                        operand_a,
                        "Boolean operations require geometric operands",
                        "Use primitive, feature, or other boolean nodes as operands",
                        errors,
                    );
                    self.check_reference(
                        nodes,
                        node,
                        operand_b,
                        "Boolean operations require geometric operands",
                        "Use primitive, feature, or other boolean nodes as operands",
                        errors,
                    );
                },
                _ => {},
            }
            assert(issues_of(errors@) =~= so_far + semantic_issues_of(nodes@, *node));
            assert(issues_of(errors@) =~= before + semantic_issues(nodes@, (i + 1) as nat));
            i += 1;
        }
    }

    fn validate_manufacturing_constraints(&self, nodes: &Vec<IRNode>, result: &mut ValidationResult)
        requires
            old(result).manufacturing_analysis.constraint_violations@.len() == 0,
        ensures
            final(result).manufacturing_analysis.manufacturability_score
                == manufacturability_score(
                feature_count(nodes@, nodes@.len()),
                undersized_count(nodes@, nodes@.len()),
            ),
            violation_ids(final(result).manufacturing_analysis.constraint_violations@)
                == undersized_ids(nodes@, nodes@.len()),
            final(result).manufacturing_analysis.compatible_processes@ == rated_processes(),
            final(result).errors == old(result).errors,
            final(result).warnings == old(result).warnings,
            final(result).is_valid == old(result).is_valid,
            final(result).metrics == old(result).metrics,
    {
        let mut score: u32 = 100;
        let mut violations: Vec<ConstraintViolation> = Vec::new();
        let n = nodes.len();
        let mut i: usize = 0;
        assert(violation_ids(violations@) =~= undersized_ids(nodes@, 0));
        while i < n
            invariant
                n == nodes@.len(),
                i <= n,
                score == manufacturability_score(
                    feature_count(nodes@, i as nat),
                    undersized_count(nodes@, i as nat),
                ),
                violation_ids(violations@) == undersized_ids(nodes@, i as nat),
            decreases n - i,
        {
            let ghost so_far = violation_ids(violations@);
            let node = &nodes[i];
            match &node.content {
                NodeContent::Feature { .. } => {
                    score = if score >= 5 { score - 5 } else { 0 };
                },
                NodeContent::Primitive { parameters, .. } => {
                    match parameters.get("width") {
                        Some(width) => {
                            if width.lt_exec(&Scalar::half()) {
                                let mut affected: Vec<ManufacturingProcess> = Vec::new();
                                affected.push(ManufacturingProcess::CNCMilling);
                                violations.push(
                                    ConstraintViolation {
                                        node_id: node.id.clone(),
                                        constraint_type: String::from_str("MinFeatureSize"),
                                        severity: ViolationSeverity::Major,
                                        description: String::from_str(
                                            "Feature size below manufacturing minimum",
                                        ),
                                        affected_processes: affected,
                                    },
                                );
                                assert(violation_ids(violations@) =~= so_far.push(node.id@));
                                score = if score >= 20 { score - 20 } else { 0 };
                            }
                        },
                        None => {},
                    }
                },
                _ => {},
            }
            i += 1;
        }
        let mut processes: Vec<ManufacturingProcess> = Vec::new();
        processes.push(ManufacturingProcess::CNCMilling);
        processes.push(ManufacturingProcess::CNCTurning);
        processes.push(ManufacturingProcess::Printing3D);
        assert(processes@ =~= rated_processes());
        result.manufacturing_analysis.manufacturability_score = score;
        result.manufacturing_analysis.compatible_processes = processes;
        result.manufacturing_analysis.constraint_violations = violations;
    }

    fn analyze_performance_issues(
        &self,
        nodes: &Vec<IRNode>,
        max_depth: usize,
        edge_count: usize,
        warnings: &mut Vec<ValidationWarning>,
    )
        ensures
            notices_of(final(warnings)@) == notices_of(old(warnings)@) + (if max_depth > 10 {
                seq![
                    Notice {
                        warning_type: ValidationWarningType::Performance,
                        severity: WarningSeverity::Medium,
                    },
                ]
            } else {
                Seq::<Notice>::empty()
            }) + (if edge_count > 5 * nodes@.len() {
                seq![
                    Notice {
                        warning_type: ValidationWarningType::Performance,
                        severity: WarningSeverity::Low,
                    },
                ]
            } else {
                Seq::<Notice>::empty()
            }),
    {
        let ghost before = notices_of(warnings@);
        if max_depth > 10 {
            let depth = decimal_text(max_depth);
            let message = join3("Deep dependency chain detected (depth: ", depth.as_str(), ")");
            warnings.push(
                performance_warning(
                    message,
                    WarningSeverity::Medium,
                    "Consider flattening the dependency structure",
                ),
            );
        }
        let ghost middle = notices_of(warnings@);
        assert(middle =~= before + (if max_depth > 10 {
            seq![
                Notice {
                    warning_type: ValidationWarningType::Performance,
                    severity: WarningSeverity::Medium,
                },
            ]
        } else {
            Seq::<Notice>::empty()
        }));
        let n = nodes.len();
        if edge_count / 5 > n || (edge_count / 5 == n && edge_count % 5 > 0) {
            warnings.push(
                performance_warning(
                    String::from_str("High average dependencies per node"),
                    WarningSeverity::Low,
                    "Consider reducing inter-node dependencies",
                ),
            );
            assert(notices_of(warnings@) =~= middle.push(
                Notice {
                    warning_type: ValidationWarningType::Performance,
                    severity: WarningSeverity::Low,
                },
            ));
        } else {
            assert(notices_of(warnings@) =~= middle + Seq::<Notice>::empty());
        }
    }
}

} // verus!
