//! The run record: overall status, aggregated usage, quality and
//! statistics, and the orchestrator that books whole runs.

use vstd::prelude::*;

use vstd::string::StringExecFns;

use crate::ast::{lemma_strings_model, lemma_strings_model_push, strings_model};
use crate::compiler::{
    lemma_steps_model, steps_model, CompiledProtocol, ResourceRequirements, StepModel,
};
use crate::execute::{
    attempted_ids, spec_attempted, spec_results_from, spec_usage_from, SelectedStrategy,
};
use crate::fixed::RES_MAX;
use crate::orchestrator::{
    lemma_results_model, outcomes_model, results_model, ExecutionStatus, QualityMetrics,
    ResourceUsage, StepOutcome, StepResult, StepResultModel,
};
use crate::FourSidedTriangleError;

verus! {

/// Telemetry of one run.
#[derive(Debug)]
pub struct ExecutionStatistics {
    pub steps_completed: usize,
    pub steps_failed: usize,
    pub parallelization_efficiency: u64,
    pub resource_utilization_efficiency: u64,
    pub average_step_quality: u64,
    pub bottleneck_stages: Vec<String>,
}

/// The model of the telemetry.
pub struct StatisticsModel {
    pub steps_completed: int,
    pub steps_failed: int,
    pub parallelization_efficiency: u64,
    pub resource_utilization_efficiency: u64,
    pub average_step_quality: u64,
    pub bottleneck_stages: Seq<Seq<char>>,
}

impl ExecutionStatistics {
    /// The model of this telemetry.
    pub open spec fn model(self) -> StatisticsModel {
        StatisticsModel {
            steps_completed: self.steps_completed as int,
            steps_failed: self.steps_failed as int,
            parallelization_efficiency: self.parallelization_efficiency,
            resource_utilization_efficiency: self.resource_utilization_efficiency,
            average_step_quality: self.average_step_quality,
            bottleneck_stages: strings_model(self.bottleneck_stages@),
        }
    }
}

/// The record of one whole run.
#[derive(Debug)]
pub struct ExecutionResult {
    pub protocol_name: String,
    pub overall_status: ExecutionStatus,
    pub step_results: Vec<StepResult>,
    pub total_execution_time_seconds: u64,
    pub total_resource_usage: ResourceUsage,
    pub overall_quality_metrics: QualityMetrics,
    pub execution_statistics: ExecutionStatistics,
}

/// The model of a run record.
pub struct ExecutionResultModel {
    pub protocol_name: Seq<char>,
    pub overall_status: ExecutionStatus,
    pub step_results: Seq<StepResultModel>,
    pub total_execution_time_seconds: u64,
    pub total_resource_usage: ResourceUsage,
    pub overall_quality_metrics: QualityMetrics,
    pub execution_statistics: StatisticsModel,
}

impl ExecutionResult {
    /// The model of this record.
    pub open spec fn model(self) -> ExecutionResultModel {
        ExecutionResultModel {
            protocol_name: self.protocol_name@,
            overall_status: self.overall_status,
            step_results: results_model(self.step_results@),
            total_execution_time_seconds: self.total_execution_time_seconds,
            total_resource_usage: self.total_resource_usage,
            overall_quality_metrics: self.overall_quality_metrics,
            execution_statistics: self.execution_statistics.model(),
        }
    }
}

/// A quantity capped at the resource limit.
pub open spec fn spec_cap(v: int) -> u64 {
    if v > RES_MAX {
        RES_MAX
    } else {
        v as u64
    }
}

/// The number of results with the given status.
pub open spec fn spec_count_status(rm: Seq<StepResultModel>, st: ExecutionStatus, i: int) -> int
    decreases rm.len() - i,
{
    if i < 0 || i >= rm.len() {
        0
    } else if rm[i].status == st {
        1 + spec_count_status(rm, st, i + 1)
    } else {
        spec_count_status(rm, st, i + 1)
    }
}

/// The number of attempted results: those not Pending.
pub open spec fn spec_attempted_count(rm: Seq<StepResultModel>, i: int) -> int
    decreases rm.len() - i,
{
    if i < 0 || i >= rm.len() {
        0
    } else if rm[i].status != ExecutionStatus::Pending {
        1 + spec_attempted_count(rm, i + 1)
    } else {
        spec_attempted_count(rm, i + 1)
    }
}

/// The six quality sums over the attempted results.
pub open spec fn spec_q_sums(rm: Seq<StepResultModel>, i: int) -> (
    int,
    int,
    int,
    int,
    int,
    int,
)
    decreases rm.len() - i,
{
    if i < 0 || i >= rm.len() {
        (0, 0, 0, 0, 0, 0)
    } else {
        let t = spec_q_sums(rm, i + 1);
        if rm[i].status != ExecutionStatus::Pending {
            (
                rm[i].quality_metrics.accuracy + t.0,
                rm[i].quality_metrics.completeness + t.1,
                rm[i].quality_metrics.relevance + t.2,
                rm[i].quality_metrics.confidence + t.3,
                rm[i].quality_metrics.novelty + t.4,
                rm[i].quality_metrics.coherence + t.5,
            )
        } else {
            t
        }
    }
}

/// The mean of each quality dimension over the attempted results; zero
/// when nothing was attempted.
pub open spec fn spec_overall_quality(rm: Seq<StepResultModel>) -> QualityMetrics {
    let n = spec_attempted_count(rm, 0);
    let t = spec_q_sums(rm, 0);
    if n == 0 {
        crate::orchestrator::spec_zero_quality()
    } else {
        QualityMetrics {
            accuracy: (t.0 / n) as u64,
            completeness: (t.1 / n) as u64,
            relevance: (t.2 / n) as u64,
            confidence: (t.3 / n) as u64,
            novelty: (t.4 / n) as u64,
            coherence: (t.5 / n) as u64,
        }
    }
}

/// The sum of the attempted results' per-step quality means.
pub open spec fn spec_stepq_sum(rm: Seq<StepResultModel>, i: int) -> int
    decreases rm.len() - i,
{
    if i < 0 || i >= rm.len() {
        0
    } else {
        let rest = spec_stepq_sum(rm, i + 1);
        if rm[i].status != ExecutionStatus::Pending {
            let q = rm[i].quality_metrics;
            (q.accuracy + q.completeness + q.relevance + q.confidence + q.novelty + q.coherence)
                / 6 + rest
        } else {
            rest
        }
    }
}

/// The booked time of the run: the sum of the steps' execution times.
pub open spec fn spec_time_sum(rm: Seq<StepResultModel>, i: int) -> int
    decreases rm.len() - i,
{
    if i < 0 || i >= rm.len() {
        0
    } else {
        rm[i].execution_time_seconds + spec_time_sum(rm, i + 1)
    }
}

/// The estimated durations of the protocol's steps, summed.
pub open spec fn spec_est_sum(sm: Seq<StepModel>, i: int) -> int
    decreases sm.len() - i,
{
    if i < 0 || i >= sm.len() {
        0
    } else {
        sm[i].resource_requirements.estimated_duration_seconds + spec_est_sum(sm, i + 1)
    }
}

/// The member count over all parallel groups.
pub open spec fn spec_group_sizes(groups: Seq<Seq<Seq<char>>>, i: int) -> int
    decreases groups.len() - i,
{
    if i < 0 || i >= groups.len() {
        0
    } else {
        groups[i].len() + spec_group_sizes(groups, i + 1)
    }
}

/// The ids of the steps whose booked time crossed the bottleneck threshold
/// of thirty seconds.
pub open spec fn spec_bottlenecks(rm: Seq<StepResultModel>, i: int) -> Seq<Seq<char>>
    decreases rm.len() - i,
{
    if i < 0 || i >= rm.len() {
        Seq::empty()
    } else {
        let rest = spec_bottlenecks(rm, i + 1);
        if rm[i].execution_time_seconds > 30000 {
            seq![rm[i].step_id] + rest
        } else {
            rest
        }
    }
}

/// The telemetry of a run.
pub open spec fn spec_statistics(
    rm: Seq<StepResultModel>,
    p: crate::compiler::ProtocolModel,
) -> StatisticsModel {
    let act = spec_cap(spec_time_sum(rm, 0));
    let est = spec_cap(spec_est_sum(p.execution_steps, 0));
    let n = spec_attempted_count(rm, 0);
    StatisticsModel {
        steps_completed: spec_count_status(rm, ExecutionStatus::Completed, 0),
        steps_failed: spec_count_status(rm, ExecutionStatus::Failed, 0),
        parallelization_efficiency: if p.parallel_groups.len() == 0 || p.execution_steps.len()
            == 0 {
            0
        } else {
            spec_cap(
                spec_cap(spec_group_sizes(p.parallel_groups, 0)) * 1000 / (
                p.execution_steps.len() as int),
            )
        },
        resource_utilization_efficiency: if act == 0 {
            0
        } else {
            spec_cap(est * 1000 / (act as int))
        },
        average_step_quality: if n == 0 {
            0
        } else {
            (spec_stepq_sum(rm, 0) / n) as u64
        },
        bottleneck_stages: spec_bottlenecks(rm, 0),
    }
}

/// Whether every result completed.
pub open spec fn spec_all_completed(rm: Seq<StepResultModel>) -> bool {
    forall|i: int| 0 <= i < rm.len() ==> (#[trigger] rm[i]).status == ExecutionStatus::Completed
}

/// The record of running a protocol against the reported outcomes, or the
/// message naming the first step id the plan mentions that no step carries.
pub open spec fn spec_execution_result(
    p: crate::compiler::ProtocolModel,
    ocs: Seq<crate::orchestrator::OutcomeModel>,
    selected: SelectedStrategy,
) -> Result<ExecutionResultModel, Seq<char>> {
    match spec_attempted(p, ocs, selected) {
        Err(id) => Err("Step not found: "@ + id),
        Ok(att) => {
            let rm = spec_results_from(p.execution_steps, ocs, att, 0);
            Ok(
                ExecutionResultModel {
                    protocol_name: p.protocol_name,
                    overall_status: if spec_all_completed(rm) {
                        ExecutionStatus::Completed
                    } else {
                        ExecutionStatus::Failed
                    },
                    step_results: rm,
                    total_execution_time_seconds: spec_cap(spec_time_sum(rm, 0)),
                    total_resource_usage: spec_usage_from(
                        rm,
                        0,
                        crate::orchestrator::spec_zero_usage(),
                    ),
                    overall_quality_metrics: spec_overall_quality(rm),
                    execution_statistics: spec_statistics(rm, p),
                },
            )
        },
    }
}

/// The capacities of the orchestrator's admission-control pool, in whole
/// permits.
#[derive(Debug, Clone, Copy, PartialEq, Eq, Structural)]
pub struct ResourcePool {
    pub cpu_capacity: u64,
    pub memory_capacity: u64,
    pub gpu_capacity: u64,
    pub network_capacity: u64,
    pub storage_capacity: u64,
}

/// The whole permits a step must acquire for each resource: its milli
/// requirement rounded down to whole units.
pub fn permits_for(req: &ResourceRequirements) -> (r: (u64, u64, u64, u64, u64))
    ensures
        r.0 == req.cpu_cores / 1000,
        r.1 == req.memory_gb / 1000,
        r.2 == req.gpu_units / 1000,
        r.3 == req.network_bandwidth_mbps / 1000,
        r.4 == req.storage_gb / 1000,
{
    (
        req.cpu_cores / 1000,
        req.memory_gb / 1000,
        req.gpu_units / 1000,
        req.network_bandwidth_mbps / 1000,
        req.storage_gb / 1000,
    )
}

/// The orchestrator: the pool capacities and the running statistics. The
/// host application owns the concurrency; this type owns the run
/// bookkeeping.
pub struct TurbulanceOrchestrator {
    pub resource_pool: ResourcePool,
    pub protocols_executed: usize,
    pub total_steps_executed: usize,
    pub total_execution_time_millis: u64,
    pub successful_protocols: usize,
}

impl TurbulanceOrchestrator {
    /// A fresh orchestrator with the standard pool: sixteen cores,
    /// thirty-two gigabytes, four processor units, a thousand megabits and
    /// a hundred gigabytes of storage.
    pub fn new() -> (r: TurbulanceOrchestrator)
        ensures
            r.resource_pool == (ResourcePool {
                cpu_capacity: 16,
                memory_capacity: 32,
                gpu_capacity: 4,
                network_capacity: 1000,
                storage_capacity: 100,
            }),
            r.protocols_executed == 0,
            r.total_steps_executed == 0,
            r.total_execution_time_millis == 0,
            r.successful_protocols == 0,
    {
        TurbulanceOrchestrator {
            resource_pool: ResourcePool {
                cpu_capacity: 16,
                memory_capacity: 32,
                gpu_capacity: 4,
                network_capacity: 1000,
                storage_capacity: 100,
            },
            protocols_executed: 0,
            total_steps_executed: 0,
            total_execution_time_millis: 0,
            successful_protocols: 0,
        }
    }

    /// Books a whole run from the outcomes the outside world reported, one
    /// per step. Fails exactly when the plan names a step id that no step
    /// carries.
    pub fn execute_protocol(
        &mut self,
        protocol: &CompiledProtocol,
        outcomes: &Vec<StepOutcome>,
        selected: SelectedStrategy,
    ) -> (r: Result<ExecutionResult, FourSidedTriangleError>)
        requires
            outcomes@.len() == protocol.execution_steps@.len(),
        ensures
            ({
                let spec = spec_execution_result(
                    protocol.model(),
                    outcomes_model(outcomes@),
                    selected,
                );
                match r {
                    Ok(er) => spec is Ok && er.model() == spec->Ok_0
                        && final(self).resource_pool == old(self).resource_pool
                        && final(self).protocols_executed == crate::script::spec_sat_add(
                        old(self).protocols_executed as int,
                        1,
                    ) && final(self).total_steps_executed == crate::script::spec_sat_add(
                        old(self).total_steps_executed as int,
                        protocol.execution_steps@.len() as int,
                    ) && final(self).total_execution_time_millis
                        == crate::fixed::spec_add_milli(
                        old(self).total_execution_time_millis,
                        spec->Ok_0.total_execution_time_seconds,
                    ) && final(self).successful_protocols == (
                    if spec->Ok_0.overall_status == ExecutionStatus::Completed {
                        crate::script::spec_sat_add(old(self).successful_protocols as int, 1)
                    } else {
                        old(self).successful_protocols as int
                    }),
                    Err(e) => spec is Err && (
                    e matches FourSidedTriangleError::ComputationalError { message }
                        && message@ == spec->Err_0) && *final(self) == *old(self),
                }
            }),
    {
        let ghost p = protocol.model();
        let ghost cm = outcomes_model(outcomes@);
        let att = match attempted_ids(protocol, outcomes, selected) {
            Ok(att) => att,
            Err(id) => {
                let message = <String as StringExecFns>::from_str("Step not found: ").concat(
                    id.as_str(),
                );
                return Err(FourSidedTriangleError::ComputationalError { message });
            },
        };
        let results = self.settle_run(protocol, outcomes, &att);
        Ok(results)
    }

    /// Settles every step and aggregates the run record.
    fn settle_run(
        &mut self,
        protocol: &CompiledProtocol,
        outcomes: &Vec<StepOutcome>,
        att: &Vec<String>,
    ) -> (r: ExecutionResult)
        requires
            outcomes@.len() == protocol.execution_steps@.len(),
        ensures
            ({
                let rm = spec_results_from(
                    steps_model(protocol.execution_steps@),
                    outcomes_model(outcomes@),
                    strings_model(att@),
                    0,
                );
                r.model() == (ExecutionResultModel {
                    protocol_name: protocol.protocol_name@,
                    overall_status: if spec_all_completed(rm) {
                        ExecutionStatus::Completed
                    } else {
                        ExecutionStatus::Failed
                    },
                    step_results: rm,
                    total_execution_time_seconds: spec_cap(spec_time_sum(rm, 0)),
                    total_resource_usage: spec_usage_from(
                        rm,
                        0,
                        crate::orchestrator::spec_zero_usage(),
                    ),
                    overall_quality_metrics: spec_overall_quality(rm),
                    execution_statistics: spec_statistics(rm, protocol.model()),
                }) && final(self).resource_pool == old(self).resource_pool
                    && final(self).protocols_executed == crate::script::spec_sat_add(
                    old(self).protocols_executed as int,
                    1,
                ) && final(self).total_steps_executed == crate::script::spec_sat_add(
                    old(self).total_steps_executed as int,
                    protocol.execution_steps@.len() as int,
                ) && final(self).total_execution_time_millis == crate::fixed::spec_add_milli(
                    old(self).total_execution_time_millis,
                    spec_cap(spec_time_sum(rm, 0)),
                ) && final(self).successful_protocols == (if spec_all_completed(rm) {
                    crate::script::spec_sat_add(old(self).successful_protocols as int, 1)
                } else {
                    old(self).successful_protocols as int
                })
            }),
    {
        let results = crate::execute::settle_results(
            &protocol.execution_steps,
            outcomes,
            att,
        );
        let ghost rm = results_model(results@);
        proof {
            lemma_results_model(results@);
            crate::execute::lemma_results_from_len(
                steps_model(protocol.execution_steps@),
                outcomes_model(outcomes@),
                strings_model(att@),
                0,
            );
            crate::compiler::lemma_steps_model(protocol.execution_steps@);
            assert(results@.len() == protocol.execution_steps@.len());
        }
        let usage = crate::execute::usage_total(&results);
        // Counts, sums and bottlenecks, one pass each.
        let mut completed: usize = 0;
        let mut failed: usize = 0;
        let mut attempted: usize = 0;
        let mut qa: u128 = 0;
        let mut qb: u128 = 0;
        let mut qc: u128 = 0;
        let mut qd: u128 = 0;
        let mut qe: u128 = 0;
        let mut qf: u128 = 0;
        let mut stepq: u128 = 0;
        let mut tsum: u128 = 0;
        let mut bottlenecks: Vec<String> = Vec::new();
        let mut i: usize = 0;
        proof {
            lemma_strings_model(bottlenecks@);
            assert(strings_model(bottlenecks@) =~= Seq::<Seq<char>>::empty());
        }
        while i < results.len()
            invariant
                i <= results@.len(),
                rm == results_model(results@),
                rm.len() == results@.len(),
                forall|k: int|
                    0 <= k < results@.len() ==> #[trigger] rm[k] == results@[k].model(),
                completed + spec_count_status(rm, ExecutionStatus::Completed, i as int)
                    == spec_count_status(rm, ExecutionStatus::Completed, 0),
                failed + spec_count_status(rm, ExecutionStatus::Failed, i as int)
                    == spec_count_status(rm, ExecutionStatus::Failed, 0),
                attempted + spec_attempted_count(rm, i as int) == spec_attempted_count(rm, 0),
                completed <= i && failed <= i && attempted <= i,
                ({
                    let t = spec_q_sums(rm, 0);
                    let u = spec_q_sums(rm, i as int);
                    qa + u.0 == t.0 && qb + u.1 == t.1 && qc + u.2 == t.2 && qd + u.3 == t.3
                        && qe + u.4 == t.4 && qf + u.5 == t.5
                }),
                qa <= i * (u64::MAX as int) && qb <= i * (u64::MAX as int) && qc <= i * (
                u64::MAX as int) && qd <= i * (u64::MAX as int) && qe <= i * (
                u64::MAX as int) && qf <= i * (u64::MAX as int),
                stepq + spec_stepq_sum(rm, i as int) == spec_stepq_sum(rm, 0),
                stepq <= i * (u64::MAX as int),
                tsum + spec_time_sum(rm, i as int) == spec_time_sum(rm, 0),
                tsum <= i * (u64::MAX as int),
                strings_model(bottlenecks@) + spec_bottlenecks(rm, i as int)
                    == spec_bottlenecks(rm, 0),
            decreases results@.len() - i,
        {
            proof {
                assert((i + 1) * (u64::MAX as int) == i * (u64::MAX as int) + u64::MAX);
            }
            let st = results[i].status;
            if matches!(st, ExecutionStatus::Completed) {
                completed = completed + 1;
            }
            if matches!(st, ExecutionStatus::Failed) {
                failed = failed + 1;
            }
            if !matches!(st, ExecutionStatus::Pending) {
                attempted = attempted + 1;
                let q = results[i].quality_metrics;
                qa = qa + q.accuracy as u128;
                qb = qb + q.completeness as u128;
                qc = qc + q.relevance as u128;
                qd = qd + q.confidence as u128;
                qe = qe + q.novelty as u128;
                qf = qf + q.coherence as u128;
                let six: u128 = q.accuracy as u128 + q.completeness as u128 + q.relevance
                    as u128 + q.confidence as u128 + q.novelty as u128 + q.coherence as u128;
                proof {
                    assert(six / 6 <= u64::MAX);
                }
                stepq = stepq + six / 6;
            }
            tsum = tsum + results[i].execution_time_seconds as u128;
            if results[i].execution_time_seconds > 30000 {
                let id = results[i].step_id.clone();
                proof {
                    lemma_strings_model_push(bottlenecks@, id);
                    assert(strings_model(bottlenecks@).push(id@) + spec_bottlenecks(
                        rm,
                        i + 1,
                    ) =~= strings_model(bottlenecks@) + (seq![rm[i as int].step_id]
                        + spec_bottlenecks(rm, i + 1)));
                }
                bottlenecks.push(id);
            }
            i = i + 1;
        }
        proof {
            assert(spec_bottlenecks(rm, results@.len() as int) =~= Seq::<Seq<char>>::empty());
            assert(strings_model(bottlenecks@) + Seq::<Seq<char>>::empty() =~= strings_model(
                bottlenecks@,
            ));
        }
        let total_time: u64 = if tsum > RES_MAX as u128 {
            RES_MAX
        } else {
            tsum as u64
        };
        // Estimated durations of the protocol's steps.
        let ghost sm = steps_model(protocol.execution_steps@);
        proof {
            lemma_steps_model(protocol.execution_steps@);
        }
        let mut esum: u128 = 0;
        let mut e: usize = 0;
        while e < protocol.execution_steps.len()
            invariant
                e <= protocol.execution_steps@.len(),
                sm == steps_model(protocol.execution_steps@),
                sm.len() == protocol.execution_steps@.len(),
                forall|k: int|
                    0 <= k < protocol.execution_steps@.len() ==> #[trigger] sm[k]
                        == protocol.execution_steps@[k].model(),
                esum + spec_est_sum(sm, e as int) == spec_est_sum(sm, 0),
                esum <= e * (u64::MAX as int),
            decreases protocol.execution_steps@.len() - e,
        {
            proof {
                assert((e + 1) * (u64::MAX as int) == e * (u64::MAX as int) + u64::MAX);
            }
            esum = esum
                + protocol.execution_steps[e].resource_requirements.estimated_duration_seconds
                as u128;
            e = e + 1;
        }
        let est_c: u64 = if esum > RES_MAX as u128 {
            RES_MAX
        } else {
            esum as u64
        };
        let res_eff: u64 = if total_time == 0 {
            0
        } else {
            let wide: u128 = (est_c as u128) * 1000 / (total_time as u128);
            if wide > RES_MAX as u128 {
                RES_MAX
            } else {
                wide as u64
            }
        };
        // Group sizes.
        let ghost gm = crate::compiler::groups_model(protocol.parallel_groups@);
        proof {
            crate::compiler::lemma_groups_model(protocol.parallel_groups@);
        }
        let mut gsum: u128 = 0;
        let mut gidx: usize = 0;
        while gidx < protocol.parallel_groups.len()
            invariant
                gidx <= protocol.parallel_groups@.len(),
                gm == crate::compiler::groups_model(protocol.parallel_groups@),
                gm.len() == protocol.parallel_groups@.len(),
                forall|k: int|
                    0 <= k < protocol.parallel_groups@.len() ==> #[trigger] gm[k]
                        == strings_model(protocol.parallel_groups@[k]@),
                gsum + spec_group_sizes(gm, gidx as int) == spec_group_sizes(gm, 0),
                gsum <= gidx * (u64::MAX as int),
            decreases protocol.parallel_groups@.len() - gidx,
        {
            proof {
                lemma_strings_model(protocol.parallel_groups@[gidx as int]@);
                assert((gidx + 1) * (u64::MAX as int) == gidx * (u64::MAX as int) + u64::MAX);
            }
            gsum = gsum + protocol.parallel_groups[gidx].len() as u128;
            gidx = gidx + 1;
        }
        let gs_c: u64 = if gsum > RES_MAX as u128 {
            RES_MAX
        } else {
            gsum as u64
        };
        let par_eff: u64 = if protocol.parallel_groups.len() == 0
            || protocol.execution_steps.len() == 0 {
            0
        } else {
            let wide: u128 = (gs_c as u128) * 1000 / (protocol.execution_steps.len() as u128);
            if wide > RES_MAX as u128 {
                RES_MAX
            } else {
                wide as u64
            }
        };
        let avg_quality: u64 = if attempted == 0 {
            0
        } else {
            (stepq / (attempted as u128)) as u64
        };
        let quality = if attempted == 0 {
            QualityMetrics {
                accuracy: 0,
                completeness: 0,
                relevance: 0,
                confidence: 0,
                novelty: 0,
                coherence: 0,
            }
        } else {
            let n = attempted as u128;
            QualityMetrics {
                accuracy: (qa / n) as u64,
                completeness: (qb / n) as u64,
                relevance: (qc / n) as u64,
                confidence: (qd / n) as u64,
                novelty: (qe / n) as u64,
                coherence: (qf / n) as u64,
            }
        };
        // Overall status: Completed exactly when every step completed.
        let mut all_completed = true;
        let mut c: usize = 0;
        while c < results.len()
            invariant
                c <= results@.len(),
                rm == results_model(results@),
                rm.len() == results@.len(),
                forall|k: int|
                    0 <= k < results@.len() ==> #[trigger] rm[k] == results@[k].model(),
                all_completed == forall|k: int|
                    0 <= k < c ==> (#[trigger] rm[k]).status == ExecutionStatus::Completed,
            decreases results@.len() - c,
        {
            if !matches!(results[c].status, ExecutionStatus::Completed) {
                all_completed = false;
                proof {
                    assert(rm[c as int].status != ExecutionStatus::Completed);
                }
            }
            c = c + 1;
        }
        let stats = ExecutionStatistics {
            steps_completed: completed,
            steps_failed: failed,
            parallelization_efficiency: par_eff,
            resource_utilization_efficiency: res_eff,
            average_step_quality: avg_quality,
            bottleneck_stages: bottlenecks,
        };
        // Book the run in the orchestrator's statistics.
        self.protocols_executed = crate::script::sat_add(self.protocols_executed, 1);
        self.total_steps_executed = crate::script::sat_add(
            self.total_steps_executed,
            results.len(),
        );
        self.total_execution_time_millis = crate::fixed::add_milli(
            self.total_execution_time_millis,
            total_time,
        );
        if all_completed {
            self.successful_protocols = crate::script::sat_add(self.successful_protocols, 1);
        }
        ExecutionResult {
            protocol_name: protocol.protocol_name.clone(),
            overall_status: if all_completed {
                ExecutionStatus::Completed
            } else {
                ExecutionStatus::Failed
            },
            step_results: results,
            total_execution_time_seconds: total_time,
            total_resource_usage: usage,
            overall_quality_metrics: quality,
            execution_statistics: stats,
        }
    }

    /// The orchestrator's statistics, in milli units.
    pub fn get_statistics(&self) -> (r: Vec<(String, u64)>)
        ensures
            r@.len() == 5,
            r@[0].1 == crate::fixed::spec_mul_milli(self.protocols_executed as u64, 1000000),
            r@[1].1 == crate::fixed::spec_mul_milli(self.total_steps_executed as u64, 1000000),
            r@[2].1 == crate::fixed::spec_mul_milli(self.successful_protocols as u64, 1000000),
            r@[3].1 == crate::fixed::spec_ratio_milli(
                self.successful_protocols as u64,
                self.protocols_executed as u64,
            ),
            r@[4].1 == crate::fixed::spec_ratio_milli(
                self.total_execution_time_millis,
                self.protocols_executed as u64,
            ),
    {
        let mut stats: Vec<(String, u64)> = Vec::new();
        stats.push(
            (
                <String as StringExecFns>::from_str("protocols_executed"),
                crate::fixed::mul_milli(self.protocols_executed as u64, 1000000),
            ),
        );
        stats.push(
            (
                <String as StringExecFns>::from_str("total_steps_executed"),
                crate::fixed::mul_milli(self.total_steps_executed as u64, 1000000),
            ),
        );
        stats.push(
            (
                <String as StringExecFns>::from_str("successful_protocols"),
                crate::fixed::mul_milli(self.successful_protocols as u64, 1000000),
            ),
        );
        stats.push(
            (
                <String as StringExecFns>::from_str("success_rate"),
                crate::fixed::ratio_milli(
                    self.successful_protocols as u64,
                    self.protocols_executed as u64,
                ),
            ),
        );
        stats.push(
            (
                <String as StringExecFns>::from_str("avg_execution_time_millis"),
                crate::fixed::ratio_milli(
                    self.total_execution_time_millis,
                    self.protocols_executed as u64,
                ),
            ),
        );
        stats
    }
}

} // verus!
