//! The compiler: from an intent to a versioned result.
//!
//! A compilation runs in steps, and between the steps the host does what
//! the kernel cannot: it tessellates the primitives that have no mesh yet,
//! and it measures the mesh that the tree evaluates to.
//!
//! 1. [`CsgCompiler::begin`] answers from the cache where the intent's hash
//!    is the hash of the last compilation. Otherwise it parses and validates
//!    the intent and says which primitives need a mesh.
//! 2. The host stores those meshes with [`CsgCompiler::store_mesh`].
//! 3. [`CsgCompiler::evaluate_stored`] evaluates the tree and checks the
//!    shape of the mesh.
//! 4. The host measures the mesh.
//! 5. [`CsgCompiler::complete`] holds the measures against the intent's
//!    constraints, assembles the result and remembers it.
//!
//! The first fault ends the compilation: the result then carries the error
//! and nothing else.

use vstd::prelude::*;
use vstd::string::*;
use crate::compiler::csg_evaluator::{
    evaluated, requested, wanted, CsgEvaluator, PrimitiveRequest,
};
use crate::compiler::csg_tree::{CsgNode, CsgTree};
use crate::compiler::intent_parser::{parsed, IntentParser, ParseFault};
use crate::errors::{Fault, KernelError, KernelResult};
use crate::geometry::constraints::{
    report_on, validate_constraints, ConstraintLimits, MeshMeasurements,
};
use crate::text::str_eq;
use crate::types::{
    CompileResult, CompileStatus, ConstraintValue, GeometryIR, ManufacturabilityReport,
    ManufacturingConstraint, MeshData, PreviewMesh, ReportData,
};

verus! {

/// The limits that a list of constraints sets: of the three types that are
/// checked, each takes the last number given for it.
pub open spec fn limits_of(constraints: Seq<ManufacturingConstraint>) -> ConstraintLimits
    decreases constraints.len(),
{
    if constraints.len() == 0 {
        ConstraintLimits::none()
    } else {
        let limits = limits_of(constraints.drop_last());
        match constraints.last().value {
            ConstraintValue::Number(value) => limits.with(constraints.last().type_, value),
            ConstraintValue::Other(_) => limits,
        }
    }
}

/// The fault with which an intent is refused before it is evaluated, if
/// it is: it has no tree, or its tree is not sound.
pub open spec fn intent_fault(ir: GeometryIR) -> Option<Fault> {
    match parsed(ir.operations@) {
        Err(fault) => Some(fault.fault()),
        Ok(tree) => tree.fault(),
    }
}

/// The fault with which a tree is refused when it is evaluated, if it is:
/// it has no mesh, or its mesh has not the shape of a mesh.
pub open spec fn evaluation_fault(tree: CsgTree, meshes: Map<Seq<char>, PreviewMesh>) -> Option<
    Fault,
> {
    match evaluated(tree, meshes) {
        Err(fault) => Some(fault),
        Ok(mesh) => mesh.shape_fault(),
    }
}

/// The result is that of a failed compilation: the error and nothing else.
pub open spec fn is_failure(result: CompileResult, intent_hash: Seq<char>, fault: Fault) -> bool {
    &&& result.status == CompileStatus::Error
    &&& result.intent_hash@ == intent_hash
    &&& result.mesh is None
    &&& result.step is None
    &&& result.topology is None
    &&& result.mfg_report is None
    &&& result.error matches Some(e) && e.reports(fault)
}

/// The result is that of a compilation that went through: the mesh and
/// the report, and no error.
pub open spec fn is_success(
    result: CompileResult,
    status: CompileStatus,
    intent_hash: Seq<char>,
    mesh: MeshData,
    report: ReportData,
) -> bool {
    &&& result.status == status
    &&& result.intent_hash@ == intent_hash
    &&& result.mesh matches Some(m) && m@ == mesh
    &&& result.step is None
    &&& result.topology is None
    &&& result.mfg_report matches Some(r) && r@ == report
    &&& result.error is None
}

/// What the compiler remembers of its last compilation.
pub struct Remembered {
    pub intent_hash: Seq<char>,
    pub mesh: MeshData,
    pub report: ReportData,
}

/// How many meshes the compiler has stored.
#[derive(Debug, Clone, Copy, PartialEq, Eq)]
pub struct CacheStats {
    pub size: usize,
}

/// What the compiler asks for after its first step.
#[derive(Debug)]
pub enum CompileStep {
    /// The compilation is over.
    Finished(CompileResult),
    /// The tree is ready; these primitives need a mesh before it can be
    /// evaluated.
    Tessellate { tree: CsgNode, requests: Vec<PrimitiveRequest> },
}

/// What the compiler asks for after it has evaluated the tree.
#[derive(Debug)]
pub enum EvaluateStep {
    /// The compilation is over: the tree has no mesh.
    Finished(CompileResult),
    /// The mesh of the tree, to be measured.
    Measure(PreviewMesh),
}

#[derive(Debug)]
struct CachedCompilation {
    intent_hash: String,
    mesh: PreviewMesh,
    report: ManufacturabilityReport,
}

/// Compiles intents, and remembers the last compilation.
#[derive(Debug)]
pub struct CsgCompiler {
    parser: IntentParser,
    evaluator: CsgEvaluator,
    cached: Option<CachedCompilation>,
}

impl CsgCompiler {
    /// The last compilation that went through, if the compiler remembers
    /// one.
    pub closed spec fn remembered(&self) -> Option<Remembered> {
        match self.cached {
            Some(cached) => Some(
                Remembered {
                    intent_hash: cached.intent_hash@,
                    mesh: cached.mesh@,
                    report: cached.report@,
                },
            ),
            None => None,
        }
    }

    /// The meshes that are stored for primitives.
    pub closed spec fn meshes(&self) -> Map<Seq<char>, PreviewMesh> {
        self.evaluator.meshes()
    }

    /// The subdivision level at which primitives are to be tessellated.
    pub closed spec fn level(&self) -> u32 {
        self.evaluator.level()
    }

    /// Whether the compiler remembers a compilation of this hash.
    pub open spec fn remembers(&self, intent_hash: Seq<char>) -> bool {
        self.remembered() matches Some(last) && last.intent_hash == intent_hash
    }

    pub fn new() -> (compiler: Self)
        ensures
            compiler.remembered() is None,
            compiler.meshes() == Map::<Seq<char>, PreviewMesh>::empty(),
            compiler.level() == crate::compiler::csg_evaluator::DEFAULT_SUBDIVISIONS,
    {
        CsgCompiler { parser: IntentParser::new(), evaluator: CsgEvaluator::new(), cached: None }
    }

    pub fn with_subdivisions(subdivisions: u32) -> (compiler: Self)
        ensures
            compiler.remembered() is None,
            compiler.meshes() == Map::<Seq<char>, PreviewMesh>::empty(),
            compiler.level() == crate::compiler::csg_evaluator::clamped_level(subdivisions),
    {
        CsgCompiler {
            parser: IntentParser::new(),
            evaluator: CsgEvaluator::with_subdivisions(subdivisions),
            cached: None,
        }
    }

    /// The result of the last compilation, marked as cached, where that
    /// compilation was of the intent with this hash.
    pub fn lookup(&self, intent_hash: &str) -> (r: Option<CompileResult>)
        ensures
            match r {
                Some(result) => self.remembered() matches Some(last) && last.intent_hash
                    == intent_hash@ && is_success(
                    result,
                    CompileStatus::Cached,
                    intent_hash@,
                    last.mesh,
                    last.report,
                ),
                None => !self.remembers(intent_hash@),
            },
    {
        match &self.cached {
            Some(cached) => {
                if str_eq(cached.intent_hash.as_str(), intent_hash) {
                    Some(
                        CompileResult {
                            status: CompileStatus::Cached,
                            intent_hash: cached.intent_hash.clone(),
                            mesh: Some(cached.mesh.clone()),
                            step: None,
                            topology: None,
                            mfg_report: Some(cached.report.clone()),
                            error: None,
                        },
                    )
                } else {
                    None
                }
            },
            None => None,
        }
    }

    /// The result of a compilation that failed.
    pub fn failure(intent_hash: &str, error: KernelError) -> (result: CompileResult)
        ensures
            result.status == CompileStatus::Error,
            result.intent_hash@ == intent_hash@,
            result.mesh is None,
            result.step is None,
            result.topology is None,
            result.mfg_report is None,
            result.error == Some(error),
    {
        CompileResult {
            status: CompileStatus::Error,
            intent_hash: String::from_str(intent_hash),
            mesh: None,
            step: None,
            topology: None,
            mfg_report: None,
            error: Some(error),
        }
    }

    /// Parses an intent and validates its tree.
    pub fn prepare(&mut self, ir: &GeometryIR) -> (r: KernelResult<CsgNode>)
        ensures
            final(self).remembered() == old(self).remembered(),
            final(self).meshes() == old(self).meshes(),
            final(self).level() == old(self).level(),
            match r {
                Ok(tree) => intent_fault(*ir) is None && parsed(ir.operations@) == Ok::<
                    CsgTree,
                    ParseFault,
                >(tree@),
                Err(e) => intent_fault(*ir) matches Some(fault) && e.reports(fault),
            },
    {
        let tree = self.parser.parse(ir)?;
        tree.validate()?;
        Ok(tree)
    }

    /// Checks an intent without compiling it.
    pub fn validate(&mut self, ir: &GeometryIR) -> (r: KernelResult<()>)
        ensures
            final(self).remembered() == old(self).remembered(),
            final(self).meshes() == old(self).meshes(),
            final(self).level() == old(self).level(),
            match r {
                Ok(()) => intent_fault(*ir) is None,
                Err(e) => intent_fault(*ir) matches Some(fault) && e.reports(fault),
            },
    {
        match self.prepare(ir) {
            Ok(_) => Ok(()),
            Err(e) => Err(e),
        }
    }

    /// The first step of a compilation.
    ///
    /// Where the compiler remembers a compilation of this hash, its result
    /// comes back marked as cached. Otherwise the intent is parsed and
    /// validated; a fault ends the compilation, and else the tree comes back
    /// with the primitives that need a mesh.
    pub fn begin(&mut self, ir: &GeometryIR, intent_hash: &str) -> (step: CompileStep)
        ensures
            final(self).remembered() == old(self).remembered(),
            final(self).meshes() == old(self).meshes(),
            final(self).level() == old(self).level(),
            match step {
                CompileStep::Finished(result) => if old(self).remembers(intent_hash@) {
                    let last = old(self).remembered()->0;
                    is_success(
                        result,
                        CompileStatus::Cached,
                        intent_hash@,
                        last.mesh,
                        last.report,
                    )
                } else {
                    intent_fault(*ir) matches Some(fault) && is_failure(
                        result,
                        intent_hash@,
                        fault,
                    )
                },
                CompileStep::Tessellate { tree, requests } => {
                    &&& !old(self).remembers(intent_hash@)
                    &&& intent_fault(*ir) is None
                    &&& parsed(ir.operations@) == Ok::<CsgTree, ParseFault>(tree@)
                    &&& requested(requests@) == wanted(
                        tree@.primitives(),
                        old(self).meshes().dom(),
                    )
                    &&& forall|i: int|
                        0 <= i < requests@.len() ==> (#[trigger] requests@[i]).subdivisions
                            == old(self).level()
                },
            },
    {
        match self.lookup(intent_hash) {
            Some(result) => {
                return CompileStep::Finished(result);
            },
            None => {},
        }
        match self.prepare(ir) {
            Ok(tree) => {
                let requests = self.evaluator.missing_primitives(&tree);
                CompileStep::Tessellate { tree, requests }
            },
            Err(e) => CompileStep::Finished(CsgCompiler::failure(intent_hash, e)),
        }
    }

    /// Stores the mesh of a primitive, unless one is stored already.
    pub fn store_mesh(&mut self, id: &str, mesh: PreviewMesh)
        ensures
            final(self).remembered() == old(self).remembered(),
            final(self).level() == old(self).level(),
            final(self).meshes() == if old(self).meshes().contains_key(id@) {
                old(self).meshes()
            } else {
                old(self).meshes().insert(id@, mesh)
            },
    {
        self.evaluator.store_mesh(id, mesh);
    }

    /// Evaluates a tree over the stored meshes and checks the shape of
    /// the mesh it gives. A fault ends the compilation before anything is
    /// measured.
    pub fn evaluate_stored(&self, intent_hash: &str, tree: &CsgNode) -> (step: EvaluateStep)
        ensures
            match step {
                EvaluateStep::Measure(mesh) => evaluation_fault(tree@, self.meshes()) is None
                    && evaluated(tree@, self.meshes()) == Ok::<MeshData, Fault>(mesh@),
                EvaluateStep::Finished(result) => evaluation_fault(
                    tree@,
                    self.meshes(),
                ) matches Some(fault) && is_failure(result, intent_hash@, fault),
            },
    {
        let mesh = match self.evaluator.evaluate(tree) {
            Ok(mesh) => mesh,
            Err(e) => {
                return EvaluateStep::Finished(CsgCompiler::failure(intent_hash, e));
            },
        };
        match mesh.is_valid() {
            Ok(()) => EvaluateStep::Measure(mesh),
            Err(e) => EvaluateStep::Finished(CsgCompiler::failure(intent_hash, e)),
        }
    }

    /// The limits that the intent's constraints set.
    pub fn extract_limits(ir: &GeometryIR) -> (limits: ConstraintLimits)
        ensures
            limits == limits_of(ir.constraints@),
    {
        let mut limits = ConstraintLimits::new();
        let n = ir.constraints.len();
        let mut i: usize = 0;
        assert(ir.constraints@.take(0) =~= Seq::<ManufacturingConstraint>::empty());
        assert(limits == limits_of(ir.constraints@.take(0)));
        while i < n
            invariant
                n == ir.constraints@.len(),
                i <= n,
                limits == limits_of(ir.constraints@.take(i as int)),
            decreases n - i,
        {
            proof {
                let all = ir.constraints@;
                assert(all.take(i + 1).drop_last() == all.take(i as int));
                assert(all.take(i + 1).last() == all[i as int]);
            }
            let constraint = &ir.constraints[i];
            match &constraint.value {
                ConstraintValue::Number(value) => {
                    limits.insert(constraint.type_, *value);
                },
                ConstraintValue::Other(_) => {},
            }
            i += 1;
        }
        assert(ir.constraints@.take(n as int) == ir.constraints@);
        limits
    }

    /// Holds the measures of a mesh against the constraints of the intent.
    pub fn check_manufacturability(
        &self,
        mesh: &PreviewMesh,
        measured: &MeshMeasurements,
        ir: &GeometryIR,
    ) -> (report: ManufacturabilityReport)
        ensures
            report@ == report_on(mesh@, *measured, limits_of(ir.constraints@)),
    {
        let limits = CsgCompiler::extract_limits(ir);
        validate_constraints(mesh, measured, &limits)
    }

    /// The last step of a compilation: reports on manufacturability,
    /// assembles the result, and remembers it in place of what the
    /// compiler remembered before.
    pub fn complete(
        &mut self,
        ir: &GeometryIR,
        intent_hash: &str,
        mesh: PreviewMesh,
        measured: &MeshMeasurements,
    ) -> (result: CompileResult)
        ensures
            is_success(
                result,
                CompileStatus::Compiled,
                intent_hash@,
                mesh@,
                report_on(mesh@, *measured, limits_of(ir.constraints@)),
            ),
            final(self).remembered() == Some(
                Remembered {
                    intent_hash: intent_hash@,
                    mesh: mesh@,
                    report: report_on(mesh@, *measured, limits_of(ir.constraints@)),
                },
            ),
            final(self).meshes() == old(self).meshes(),
            final(self).level() == old(self).level(),
    {
        let report = self.check_manufacturability(&mesh, measured, ir);
        let result = CompileResult {
            status: CompileStatus::Compiled,
            intent_hash: String::from_str(intent_hash),
            mesh: Some(mesh.clone()),
            step: None,
            topology: None,
            mfg_report: Some(report.clone()),
            error: None,
        };
        self.cached = Some(
            CachedCompilation { intent_hash: String::from_str(intent_hash), mesh, report },
        );
        result
    }

    /// Sets the subdivision level. Everything stored or remembered was
    /// made at the old level, so it is dropped.
    pub fn set_subdivisions(&mut self, subdivisions: u32)
        ensures
            final(self).level() == crate::compiler::csg_evaluator::clamped_level(subdivisions),
            final(self).meshes() == Map::<Seq<char>, PreviewMesh>::empty(),
            final(self).remembered() is None,
    {
        self.evaluator.set_subdivisions(subdivisions);
        self.cached = None;
    }

    /// Forgets the last compilation and drops the stored meshes.
    pub fn clear_cache(&mut self)
        ensures
            final(self).level() == old(self).level(),
            final(self).meshes() == Map::<Seq<char>, PreviewMesh>::empty(),
            final(self).remembered() is None,
    {
        self.cached = None;
        self.evaluator.clear_cache();
    }

    pub fn subdivisions(&self) -> (level: u32)
        ensures
            level == self.level(),
    {
        self.evaluator.subdivisions()
    }

    pub fn cache_stats(&self) -> (stats: CacheStats)
        ensures
            stats.size == self.meshes().dom().len(),
    {
        CacheStats { size: self.evaluator.cache_stats().size }
    }
}

/// What the compiler answers from its cache.
pub open spec fn cache_answer(remembered: Option<Remembered>, intent_hash: Seq<char>) -> Option<
    Remembered,
> {
    match remembered {
        Some(last) if last.intent_hash == intent_hash => remembered,
        _ => None,
    }
}

/// After a compilation went through, the same hash is answered from the
/// cache with the same mesh and report, and no other hash is.
pub proof fn lemma_cache_holds_last_compilation(
    intent_hash: Seq<char>,
    mesh: MeshData,
    report: ReportData,
    asked: Seq<char>,
)
    ensures
        ({
            let remembered = Some(Remembered { intent_hash, mesh, report });
            &&& cache_answer(remembered, intent_hash) == remembered
            &&& asked != intent_hash ==> cache_answer(remembered, asked) is None
        }),
{
}

} // verus!
