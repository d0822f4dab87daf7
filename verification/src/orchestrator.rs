//! Execution semantics of a compiled protocol.
//!
//! The outside world—stage executors, the clock, the quality evaluator—is
//! the host application's business. It reports what happened to each step
//! as a [`StepOutcome`]; the verified functions here decide which steps are
//! attempted under each execution strategy, bill resource usage, and
//! aggregate telemetry, deterministically for every possible report.

use vstd::prelude::*;

use vstd::string::StringExecFns;

use crate::compiler::{
    lemma_steps_model, steps_model, ExecutionStep, ResourceRequirements, StepModel,
};
use crate::fixed::RES_MAX;

verus! {

/// The lifecycle state of one step.
#[derive(Debug, Clone, Copy, PartialEq, Eq, Structural)]
pub enum ExecutionStatus {
    Pending,
    Running,
    Completed,
    Failed,
    Cancelled,
    Timeout,
}

/// Booked resource usage of one step or one run, in milli units.
#[derive(Debug, Clone, Copy, PartialEq, Eq, Structural)]
pub struct ResourceUsage {
    pub cpu_cores_used: u64,
    pub memory_gb_used: u64,
    pub gpu_units_used: u64,
    pub network_bandwidth_mbps_used: u64,
    pub storage_gb_used: u64,
}

/// The six quality dimensions, each in milli (a score of one is 1000).
#[derive(Debug, Clone, Copy, PartialEq, Eq, Structural)]
pub struct QualityMetrics {
    pub accuracy: u64,
    pub completeness: u64,
    pub relevance: u64,
    pub confidence: u64,
    pub novelty: u64,
    pub coherence: u64,
}

/// What the outside world reports for one step: whether the stage executor
/// succeeded, its output or error text, the elapsed wall time in
/// milliseconds, and the evaluator's quality scores.
#[derive(Debug)]
pub struct StepOutcome {
    pub success: bool,
    pub output: String,
    pub error_message: String,
    pub elapsed_millis: u64,
    pub quality: QualityMetrics,
}

/// The model of one outcome.
pub struct OutcomeModel {
    pub success: bool,
    pub output: Seq<char>,
    pub error_message: Seq<char>,
    pub elapsed_millis: u64,
    pub quality: QualityMetrics,
}

impl StepOutcome {
    /// The model of this outcome.
    pub open spec fn model(self) -> OutcomeModel {
        OutcomeModel {
            success: self.success,
            output: self.output@,
            error_message: self.error_message@,
            elapsed_millis: self.elapsed_millis,
            quality: self.quality,
        }
    }
}

/// The models of a sequence of outcomes.
pub open spec fn outcomes_model(ocs: Seq<StepOutcome>) -> Seq<OutcomeModel>
    decreases ocs,
{
    if ocs.len() == 0 {
        Seq::empty()
    } else {
        seq![ocs[0].model()] + outcomes_model(ocs.drop_first())
    }
}

/// `outcomes_model` maps the sequence elementwise.
pub proof fn lemma_outcomes_model(ocs: Seq<StepOutcome>)
    ensures
        outcomes_model(ocs).len() == ocs.len(),
        forall|i: int|
            0 <= i < ocs.len() ==> #[trigger] outcomes_model(ocs)[i] == ocs[i].model(),
    decreases ocs,
{
    if ocs.len() > 0 {
        lemma_outcomes_model(ocs.drop_first());
    }
}

/// The record of one step after a run.
#[derive(Debug)]
pub struct StepResult {
    pub step_id: String,
    pub status: ExecutionStatus,
    pub output: String,
    pub execution_time_seconds: u64,
    pub resource_usage: ResourceUsage,
    pub quality_metrics: QualityMetrics,
    pub error_message: Option<String>,
}

/// The model of one step result.
pub struct StepResultModel {
    pub step_id: Seq<char>,
    pub status: ExecutionStatus,
    pub output: Seq<char>,
    pub execution_time_seconds: u64,
    pub resource_usage: ResourceUsage,
    pub quality_metrics: QualityMetrics,
    pub error_message: Option<Seq<char>>,
}

impl StepResult {
    /// The model of this result.
    pub open spec fn model(self) -> StepResultModel {
        StepResultModel {
            step_id: self.step_id@,
            status: self.status,
            output: self.output@,
            execution_time_seconds: self.execution_time_seconds,
            resource_usage: self.resource_usage,
            quality_metrics: self.quality_metrics,
            error_message: match self.error_message {
                Some(m) => Some(m@),
                None => None,
            },
        }
    }
}

/// The models of a sequence of step results.
pub open spec fn results_model(rs: Seq<StepResult>) -> Seq<StepResultModel>
    decreases rs,
{
    if rs.len() == 0 {
        Seq::empty()
    } else {
        seq![rs[0].model()] + results_model(rs.drop_first())
    }
}

/// `results_model` maps the sequence elementwise.
pub proof fn lemma_results_model(rs: Seq<StepResult>)
    ensures
        results_model(rs).len() == rs.len(),
        forall|i: int| 0 <= i < rs.len() ==> #[trigger] results_model(rs)[i] == rs[i].model(),
    decreases rs,
{
    if rs.len() > 0 {
        lemma_results_model(rs.drop_first());
    }
}

/// Appending one result extends the model by its model.
pub proof fn lemma_results_model_push(rs: Seq<StepResult>, r: StepResult)
    ensures
        results_model(rs.push(r)) == results_model(rs).push(r.model()),
{
    lemma_results_model(rs.push(r));
    lemma_results_model(rs);
    assert(results_model(rs.push(r)) =~~= results_model(rs).push(r.model()));
}

/// Zero usage.
pub open spec fn spec_zero_usage() -> ResourceUsage {
    ResourceUsage {
        cpu_cores_used: 0,
        memory_gb_used: 0,
        gpu_units_used: 0,
        network_bandwidth_mbps_used: 0,
        storage_gb_used: 0,
    }
}

/// Zero quality.
pub open spec fn spec_zero_quality() -> QualityMetrics {
    QualityMetrics {
        accuracy: 0,
        completeness: 0,
        relevance: 0,
        confidence: 0,
        novelty: 0,
        coherence: 0,
    }
}

/// The proportional bill for one resource: the requested amount scaled by
/// elapsed time over estimated duration, capped at the resource limit; zero
/// when no duration was estimated.
pub open spec fn spec_billed(req: u64, elapsed: u64, est: u64) -> u64 {
    if est == 0 {
        0
    } else if req * elapsed / (est as int) > RES_MAX {
        RES_MAX
    } else {
        (req * elapsed / (est as int)) as u64
    }
}

/// Bills one resource dimension.
pub fn billed(req: u64, elapsed: u64, est: u64) -> (r: u64)
    ensures
        r == spec_billed(req, elapsed, est),
{
    if est == 0 {
        0
    } else {
        proof {
            assert((req as int) * (elapsed as int) <= (u64::MAX as int) * (u64::MAX as int))
                by (nonlinear_arith)
                requires
                    req <= u64::MAX,
                    elapsed <= u64::MAX,
            ;
        }
        let wide: u128 = (req as u128) * (elapsed as u128) / (est as u128);
        if wide > RES_MAX as u128 {
            RES_MAX
        } else {
            wide as u64
        }
    }
}

/// The booked usage of one attempted step.
pub open spec fn spec_step_usage(req: ResourceRequirements, elapsed: u64) -> ResourceUsage {
    ResourceUsage {
        cpu_cores_used: spec_billed(req.cpu_cores, elapsed, req.estimated_duration_seconds),
        memory_gb_used: spec_billed(req.memory_gb, elapsed, req.estimated_duration_seconds),
        gpu_units_used: spec_billed(req.gpu_units, elapsed, req.estimated_duration_seconds),
        network_bandwidth_mbps_used: spec_billed(
            req.network_bandwidth_mbps,
            elapsed,
            req.estimated_duration_seconds,
        ),
        storage_gb_used: req.storage_gb,
    }
}

/// The result of one attempted step: Completed with the executor's output,
/// or Failed with its error message; the booked usage is proportional to
/// the elapsed time, and the quality scores are the evaluator's.
pub open spec fn spec_step_result(step: StepModel, oc: OutcomeModel) -> StepResultModel {
    StepResultModel {
        step_id: step.step_id,
        status: if oc.success {
            ExecutionStatus::Completed
        } else {
            ExecutionStatus::Failed
        },
        output: if oc.success {
            oc.output
        } else {
            Seq::empty()
        },
        execution_time_seconds: oc.elapsed_millis,
        resource_usage: spec_step_usage(step.resource_requirements, oc.elapsed_millis),
        quality_metrics: oc.quality,
        error_message: if oc.success {
            None
        } else {
            Some(oc.error_message)
        },
    }
}

/// The result of a step that was never attempted: Pending, with nothing
/// booked.
pub open spec fn spec_pending_result(step: StepModel) -> StepResultModel {
    StepResultModel {
        step_id: step.step_id,
        status: ExecutionStatus::Pending,
        output: Seq::empty(),
        execution_time_seconds: 0,
        resource_usage: spec_zero_usage(),
        quality_metrics: spec_zero_quality(),
        error_message: None,
    }
}

/// Settles one attempted step from its outcome.
pub fn step_result_from_outcome(step: &ExecutionStep, oc: &StepOutcome) -> (r: StepResult)
    ensures
        r.model() == spec_step_result(step.model(), oc.model()),
{
    let req = step.resource_requirements;
    let usage = ResourceUsage {
        cpu_cores_used: billed(req.cpu_cores, oc.elapsed_millis, req.estimated_duration_seconds),
        memory_gb_used: billed(
            req.memory_gb,
            oc.elapsed_millis,
            req.estimated_duration_seconds,
        ),
        gpu_units_used: billed(
            req.gpu_units,
            oc.elapsed_millis,
            req.estimated_duration_seconds,
        ),
        network_bandwidth_mbps_used: billed(
            req.network_bandwidth_mbps,
            oc.elapsed_millis,
            req.estimated_duration_seconds,
        ),
        storage_gb_used: req.storage_gb,
    };
    proof {
        reveal_strlit("");
        assert(""@ =~= Seq::<char>::empty());
    }
    if oc.success {
        StepResult {
            step_id: step.step_id.clone(),
            status: ExecutionStatus::Completed,
            output: oc.output.clone(),
            execution_time_seconds: oc.elapsed_millis,
            resource_usage: usage,
            quality_metrics: oc.quality,
            error_message: None,
        }
    } else {
        StepResult {
            step_id: step.step_id.clone(),
            status: ExecutionStatus::Failed,
            output: <String as StringExecFns>::from_str(""),
            execution_time_seconds: oc.elapsed_millis,
            resource_usage: usage,
            quality_metrics: oc.quality,
            error_message: Some(oc.error_message.clone()),
        }
    }
}

/// Builds the Pending result of an unattempted step.
pub fn pending_result(step: &ExecutionStep) -> (r: StepResult)
    ensures
        r.model() == spec_pending_result(step.model()),
{
    proof {
        reveal_strlit("");
        assert(""@ =~= Seq::<char>::empty());
    }
    StepResult {
        step_id: step.step_id.clone(),
        status: ExecutionStatus::Pending,
        output: <String as StringExecFns>::from_str(""),
        execution_time_seconds: 0,
        resource_usage: ResourceUsage {
            cpu_cores_used: 0,
            memory_gb_used: 0,
            gpu_units_used: 0,
            network_bandwidth_mbps_used: 0,
            storage_gb_used: 0,
        },
        quality_metrics: QualityMetrics {
            accuracy: 0,
            completeness: 0,
            relevance: 0,
            confidence: 0,
            novelty: 0,
            coherence: 0,
        },
        error_message: None,
    }
}

/// The index of the step with the given id, if any; the first match wins.
pub open spec fn spec_step_index(sm: Seq<StepModel>, id: Seq<char>) -> Option<int>
    decreases sm,
{
    if sm.len() == 0 {
        None
    } else if sm[0].step_id == id {
        Some(0)
    } else {
        match spec_step_index(sm.drop_first(), id) {
            Some(k) => Some(k + 1),
            None => None,
        }
    }
}

/// The found index is in range and matches.
pub proof fn lemma_step_index(sm: Seq<StepModel>, id: Seq<char>)
    ensures
        match spec_step_index(sm, id) {
            Some(k) => 0 <= k < sm.len() && sm[k].step_id == id,
            None => forall|k: int| 0 <= k < sm.len() ==> (#[trigger] sm[k]).step_id != id,
        },
    decreases sm,
{
    if sm.len() > 0 && sm[0].step_id != id {
        lemma_step_index(sm.drop_first(), id);
        match spec_step_index(sm.drop_first(), id) {
            Some(k) => {
                assert(sm[k + 1] == sm.drop_first()[k]);
            },
            None => {
                assert forall|k: int| 0 <= k < sm.len() implies (#[trigger] sm[k]).step_id
                    != id by {
                    if k > 0 {
                        assert(sm[k] == sm.drop_first()[k - 1]);
                    }
                }
            },
        }
    }
}

/// Finds the step with the given id.
pub fn step_index(steps: &Vec<ExecutionStep>, id: &String) -> (r: Option<usize>)
    ensures
        match r {
            Some(k) => spec_step_index(steps_model(steps@), id@) == Some(k as int) && k
                < steps@.len(),
            None => spec_step_index(steps_model(steps@), id@) is None,
        },
{
    let ghost sm = steps_model(steps@);
    proof {
        lemma_steps_model(steps@);
    }
    let mut i: usize = 0;
    proof {
        assert(sm.skip(0) =~= sm);
    }
    while i < steps.len()
        invariant
            i <= steps@.len(),
            sm == steps_model(steps@),
            sm.len() == steps@.len(),
            forall|k: int| 0 <= k < steps@.len() ==> #[trigger] sm[k] == steps@[k].model(),
            spec_step_index(sm, id@) == match spec_step_index(sm.skip(i as int), id@) {
                Some(k) => Some(k + i),
                None => None::<int>,
            },
        decreases steps@.len() - i,
    {
        proof {
            assert(sm.skip(i as int)[0] == sm[i as int]);
            assert(sm.skip(i as int).drop_first() =~= sm.skip(i + 1));
        }
        if steps[i].step_id == *id {
            return Some(i);
        }
        i = i + 1;
    }
    proof {
        assert(sm.skip(sm.len() as int) =~= Seq::<StepModel>::empty());
    }
    None
}

} // verus!
