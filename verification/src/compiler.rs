//! The compiler's data types: execution steps, resource requirements,
//! compiled protocols, and their mathematical models.
//!
//! Every fractional quantity is a `u64` in milli units, capped at
//! [`crate::fixed::RES_MAX`].

use vstd::prelude::*;

use crate::ast::strings_model;
use crate::value::{obj_model, TurbulanceValue, Val};

verus! {

/// The strategy a compiled protocol will be executed with.
#[derive(Debug, Clone, Copy, PartialEq, Eq, Structural)]
pub enum ExecutionMode {
    Sequential,
    Parallel,
    Adaptive,
    Optimized,
}

/// Resource requirements, each in milli units (thousandths of a core,
/// gigabyte, megabit per second, second).
#[derive(Debug, Clone, Copy, PartialEq, Eq, Structural)]
pub struct ResourceRequirements {
    pub cpu_cores: u64,
    pub memory_gb: u64,
    pub gpu_units: u64,
    pub network_bandwidth_mbps: u64,
    pub estimated_duration_seconds: u64,
    pub storage_gb: u64,
}

impl ResourceRequirements {
    /// Every field stays within the library's resource cap.
    pub open spec fn wf(self) -> bool {
        self.cpu_cores <= crate::fixed::RES_MAX && self.memory_gb <= crate::fixed::RES_MAX
            && self.gpu_units <= crate::fixed::RES_MAX && self.network_bandwidth_mbps
            <= crate::fixed::RES_MAX && self.estimated_duration_seconds <= crate::fixed::RES_MAX
            && self.storage_gb <= crate::fixed::RES_MAX
    }
}

/// One executable step of a compiled protocol.
#[derive(Debug)]
pub struct ExecutionStep {
    pub step_id: String,
    pub stage_name: String,
    pub variable_name: String,
    pub parameters: Vec<(String, TurbulanceValue)>,
    pub dependencies: Vec<String>,
    pub resource_requirements: ResourceRequirements,
    pub line_number: usize,
    pub priority: u64,
    pub timeout_seconds: u64,
}

/// The model of one execution step.
pub struct StepModel {
    pub step_id: Seq<char>,
    pub stage_name: Seq<char>,
    pub variable_name: Seq<char>,
    pub parameters: Seq<(Seq<char>, Val)>,
    pub dependencies: Seq<Seq<char>>,
    pub resource_requirements: ResourceRequirements,
    pub line_number: int,
    pub priority: u64,
    pub timeout_seconds: u64,
}

impl ExecutionStep {
    /// The model of this step.
    pub open spec fn model(self) -> StepModel {
        StepModel {
            step_id: self.step_id@,
            stage_name: self.stage_name@,
            variable_name: self.variable_name@,
            parameters: obj_model(self.parameters@),
            dependencies: strings_model(self.dependencies@),
            resource_requirements: self.resource_requirements,
            line_number: self.line_number as int,
            priority: self.priority,
            timeout_seconds: self.timeout_seconds,
        }
    }
}

/// The models of a sequence of steps.
pub open spec fn steps_model(steps: Seq<ExecutionStep>) -> Seq<StepModel>
    decreases steps,
{
    if steps.len() == 0 {
        Seq::empty()
    } else {
        seq![steps[0].model()] + steps_model(steps.drop_first())
    }
}

/// `steps_model` maps the sequence elementwise.
pub proof fn lemma_steps_model(steps: Seq<ExecutionStep>)
    ensures
        steps_model(steps).len() == steps.len(),
        forall|i: int|
            0 <= i < steps.len() ==> #[trigger] steps_model(steps)[i] == steps[i].model(),
    decreases steps,
{
    if steps.len() > 0 {
        lemma_steps_model(steps.drop_first());
    }
}

/// Appending one step extends the model by its model.
pub proof fn lemma_steps_model_push(steps: Seq<ExecutionStep>, s: ExecutionStep)
    ensures
        steps_model(steps.push(s)) == steps_model(steps).push(s.model()),
{
    lemma_steps_model(steps.push(s));
    lemma_steps_model(steps);
    assert(steps_model(steps.push(s)) =~~= steps_model(steps).push(s.model()));
}

/// The views of a sequence of step-id groups.
pub open spec fn groups_model(gs: Seq<Vec<String>>) -> Seq<Seq<Seq<char>>>
    decreases gs,
{
    if gs.len() == 0 {
        Seq::empty()
    } else {
        seq![strings_model(gs[0]@)] + groups_model(gs.drop_first())
    }
}

/// `groups_model` maps the sequence elementwise.
pub proof fn lemma_groups_model(gs: Seq<Vec<String>>)
    ensures
        groups_model(gs).len() == gs.len(),
        forall|i: int|
            0 <= i < gs.len() ==> #[trigger] groups_model(gs)[i] == strings_model(gs[i]@),
    decreases gs,
{
    if gs.len() > 0 {
        lemma_groups_model(gs.drop_first());
    }
}

/// Appending one group extends the model by its views.
pub proof fn lemma_groups_model_push(gs: Seq<Vec<String>>, g: Vec<String>)
    ensures
        groups_model(gs.push(g)) == groups_model(gs).push(strings_model(g@)),
{
    lemma_groups_model(gs.push(g));
    lemma_groups_model(gs);
    assert(groups_model(gs.push(g)) =~~= groups_model(gs).push(strings_model(g@)));
}

/// A kind of optimization suggestion.
#[derive(Debug, Clone, Copy, PartialEq, Eq, Structural)]
pub enum OptimizationType {
    Parallelization,
    Caching,
    ResourceBalancing,
    DependencyMinimization,
    QualityBoost,
    EfficiencyImprovement,
}

/// One optimization hint: what, where, why, and how urgent (milli).
#[derive(Debug)]
pub struct OptimizationHint {
    pub hint_type: OptimizationType,
    pub target_step: String,
    pub description: String,
    pub priority: u64,
}

/// The model of one hint.
pub struct HintModel {
    pub hint_type: OptimizationType,
    pub target_step: Seq<char>,
    pub description: Seq<char>,
    pub priority: u64,
}

impl OptimizationHint {
    /// The model of this hint.
    pub open spec fn model(self) -> HintModel {
        HintModel {
            hint_type: self.hint_type,
            target_step: self.target_step@,
            description: self.description@,
            priority: self.priority,
        }
    }
}

/// The models of a sequence of hints.
pub open spec fn hints_model(hs: Seq<OptimizationHint>) -> Seq<HintModel>
    decreases hs,
{
    if hs.len() == 0 {
        Seq::empty()
    } else {
        seq![hs[0].model()] + hints_model(hs.drop_first())
    }
}

/// `hints_model` maps the sequence elementwise.
pub proof fn lemma_hints_model(hs: Seq<OptimizationHint>)
    ensures
        hints_model(hs).len() == hs.len(),
        forall|i: int| 0 <= i < hs.len() ==> #[trigger] hints_model(hs)[i] == hs[i].model(),
    decreases hs,
{
    if hs.len() > 0 {
        lemma_hints_model(hs.drop_first());
    }
}

/// The three descriptive artifacts compiled alongside a protocol.
#[derive(Debug)]
pub struct AuxiliaryFiles {
    pub fs_content: String,
    pub ghd_content: String,
    pub hre_content: String,
}

/// A compiled protocol: ordered steps, dependency graph, execution plan,
/// aggregate resources and hints.
#[derive(Debug)]
pub struct CompiledProtocol {
    pub protocol_name: String,
    pub execution_steps: Vec<ExecutionStep>,
    pub execution_mode: ExecutionMode,
    pub total_resource_requirements: ResourceRequirements,
    pub dependency_graph: Vec<(String, Vec<String>)>,
    pub execution_order: Vec<String>,
    pub parallel_groups: Vec<Vec<String>>,
    pub auxiliary_files: AuxiliaryFiles,
    pub optimization_hints: Vec<OptimizationHint>,
}

/// The model of a compiled protocol.
pub struct ProtocolModel {
    pub protocol_name: Seq<char>,
    pub execution_steps: Seq<StepModel>,
    pub execution_mode: ExecutionMode,
    pub total_resource_requirements: ResourceRequirements,
    pub dependency_graph: Seq<(Seq<char>, Seq<Seq<char>>)>,
    pub execution_order: Seq<Seq<char>>,
    pub parallel_groups: Seq<Seq<Seq<char>>>,
    pub fs_content: Seq<char>,
    pub ghd_content: Seq<char>,
    pub hre_content: Seq<char>,
    pub optimization_hints: Seq<HintModel>,
}

impl CompiledProtocol {
    /// The model of this protocol.
    pub open spec fn model(self) -> ProtocolModel {
        ProtocolModel {
            protocol_name: self.protocol_name@,
            execution_steps: steps_model(self.execution_steps@),
            execution_mode: self.execution_mode,
            total_resource_requirements: self.total_resource_requirements,
            dependency_graph: crate::ast::deps_model(self.dependency_graph@),
            execution_order: strings_model(self.execution_order@),
            parallel_groups: groups_model(self.parallel_groups@),
            fs_content: self.auxiliary_files.fs_content@,
            ghd_content: self.auxiliary_files.ghd_content@,
            hre_content: self.auxiliary_files.hre_content@,
            optimization_hints: hints_model(self.optimization_hints@),
        }
    }
}

} // verus!
