//! Aggregate resource requirements of a compiled protocol.
//!
//! Parallel mode books the per-resource maximum across steps with storage
//! summed; Sequential mode books the per-resource mean with duration and
//! storage summed; Adaptive and Optimized book the arithmetic mean of the
//! two, keeping Parallel's storage.

use vstd::prelude::*;

use crate::compiler::{
    lemma_steps_model, steps_model, ExecutionMode, ExecutionStep, ResourceRequirements,
    StepModel,
};
use crate::fixed::{add_milli, spec_add_milli};

verus! {

/// All-zero requirements.
pub open spec fn spec_zero_resources() -> ResourceRequirements {
    ResourceRequirements {
        cpu_cores: 0,
        memory_gb: 0,
        gpu_units: 0,
        network_bandwidth_mbps: 0,
        estimated_duration_seconds: 0,
        storage_gb: 0,
    }
}

/// The larger of two milli quantities.
pub open spec fn spec_max(a: u64, b: u64) -> u64 {
    if a > b {
        a
    } else {
        b
    }
}

/// One step folded into the parallel aggregate: fieldwise maximum, storage
/// summed.
pub open spec fn spec_par_combine(a: ResourceRequirements, s: ResourceRequirements)
    -> ResourceRequirements {
    ResourceRequirements {
        cpu_cores: spec_max(a.cpu_cores, s.cpu_cores),
        memory_gb: spec_max(a.memory_gb, s.memory_gb),
        gpu_units: spec_max(a.gpu_units, s.gpu_units),
        network_bandwidth_mbps: spec_max(a.network_bandwidth_mbps, s.network_bandwidth_mbps),
        estimated_duration_seconds: spec_max(
            a.estimated_duration_seconds,
            s.estimated_duration_seconds,
        ),
        storage_gb: spec_add_milli(a.storage_gb, s.storage_gb),
    }
}

/// The running parallel aggregate of the steps from `i` on.
pub open spec fn spec_par_from(sm: Seq<StepModel>, i: int, acc: ResourceRequirements)
    -> ResourceRequirements
    decreases sm.len() - i,
{
    if i < 0 || i >= sm.len() {
        acc
    } else {
        spec_par_from(sm, i + 1, spec_par_combine(acc, sm[i].resource_requirements))
    }
}

/// The parallel aggregate.
pub open spec fn spec_par_total(sm: Seq<StepModel>) -> ResourceRequirements {
    spec_par_from(sm, 0, spec_zero_resources())
}

/// One step folded into the fieldwise sums, all capped.
pub open spec fn spec_sum_combine(a: ResourceRequirements, s: ResourceRequirements)
    -> ResourceRequirements {
    ResourceRequirements {
        cpu_cores: spec_add_milli(a.cpu_cores, s.cpu_cores),
        memory_gb: spec_add_milli(a.memory_gb, s.memory_gb),
        gpu_units: spec_add_milli(a.gpu_units, s.gpu_units),
        network_bandwidth_mbps: spec_add_milli(
            a.network_bandwidth_mbps,
            s.network_bandwidth_mbps,
        ),
        estimated_duration_seconds: spec_add_milli(
            a.estimated_duration_seconds,
            s.estimated_duration_seconds,
        ),
        storage_gb: spec_add_milli(a.storage_gb, s.storage_gb),
    }
}

/// The running fieldwise sums of the steps from `i` on.
pub open spec fn spec_sum_from(sm: Seq<StepModel>, i: int, acc: ResourceRequirements)
    -> ResourceRequirements
    decreases sm.len() - i,
{
    if i < 0 || i >= sm.len() {
        acc
    } else {
        spec_sum_from(sm, i + 1, spec_sum_combine(acc, sm[i].resource_requirements))
    }
}

/// The sequential aggregate: the mean of each resource, with duration and
/// storage summed; zero for an empty protocol.
pub open spec fn spec_seq_total(sm: Seq<StepModel>) -> ResourceRequirements {
    let s = spec_sum_from(sm, 0, spec_zero_resources());
    let n = sm.len() as u64;
    if n == 0 {
        spec_zero_resources()
    } else {
        ResourceRequirements {
            cpu_cores: s.cpu_cores / n,
            memory_gb: s.memory_gb / n,
            gpu_units: s.gpu_units / n,
            network_bandwidth_mbps: s.network_bandwidth_mbps / n,
            estimated_duration_seconds: s.estimated_duration_seconds,
            storage_gb: s.storage_gb,
        }
    }
}

/// The adaptive aggregate: the fieldwise mean of the parallel and
/// sequential aggregates, with Parallel's storage.
pub open spec fn spec_adaptive_total(sm: Seq<StepModel>) -> ResourceRequirements {
    let p = spec_par_total(sm);
    let q = spec_seq_total(sm);
    ResourceRequirements {
        cpu_cores: ((p.cpu_cores + q.cpu_cores) / 2) as u64,
        memory_gb: ((p.memory_gb + q.memory_gb) / 2) as u64,
        gpu_units: ((p.gpu_units + q.gpu_units) / 2) as u64,
        network_bandwidth_mbps: ((p.network_bandwidth_mbps + q.network_bandwidth_mbps)
            / 2) as u64,
        estimated_duration_seconds: ((p.estimated_duration_seconds
            + q.estimated_duration_seconds) / 2) as u64,
        storage_gb: p.storage_gb,
    }
}

/// The aggregate requirements under the given execution mode.
pub open spec fn spec_total_resources(sm: Seq<StepModel>, mode: ExecutionMode)
    -> ResourceRequirements {
    match mode {
        ExecutionMode::Parallel => spec_par_total(sm),
        ExecutionMode::Sequential => spec_seq_total(sm),
        _ => spec_adaptive_total(sm),
    }
}

/// Whether every step's requirements are within the resource cap.
pub open spec fn spec_steps_wf(sm: Seq<StepModel>) -> bool {
    forall|k: int| 0 <= k < sm.len() ==> (#[trigger] sm[k].resource_requirements).wf()
}

/// The parallel fold keeps the aggregate within the cap.
proof fn lemma_par_from_wf(sm: Seq<StepModel>, i: int, acc: ResourceRequirements)
    requires
        spec_steps_wf(sm),
        acc.wf(),
    ensures
        spec_par_from(sm, i, acc).wf(),
    decreases sm.len() - i,
{
    if 0 <= i < sm.len() {
        lemma_par_from_wf(sm, i + 1, spec_par_combine(acc, sm[i].resource_requirements));
    }
}

/// The sum fold keeps the sums within the cap.
pub proof fn lemma_sum_from_wf(sm: Seq<StepModel>, i: int, acc: ResourceRequirements)
    requires
        acc.wf(),
    ensures
        spec_sum_from(sm, i, acc).wf(),
    decreases sm.len() - i,
{
    if 0 <= i < sm.len() {
        lemma_sum_from_wf(sm, i + 1, spec_sum_combine(acc, sm[i].resource_requirements));
    }
}

/// Every aggregate is within the cap.
pub proof fn lemma_total_resources_wf(sm: Seq<StepModel>, mode: ExecutionMode)
    requires
        spec_steps_wf(sm),
    ensures
        spec_total_resources(sm, mode).wf(),
{
    lemma_par_from_wf(sm, 0, spec_zero_resources());
    lemma_sum_from_wf(sm, 0, spec_zero_resources());
}

/// The parallel fold's processor figure dominates the accumulator and every
/// remaining step, and is attained by the accumulator or by some step.
proof fn lemma_par_from_cpu(sm: Seq<StepModel>, i: int, acc: ResourceRequirements)
    requires
        0 <= i,
    ensures
        spec_par_from(sm, i, acc).cpu_cores >= acc.cpu_cores,
        forall|k: int|
            i <= k < sm.len() && 0 <= k ==> spec_par_from(sm, i, acc).cpu_cores >= (
            #[trigger] sm[k].resource_requirements).cpu_cores,
        spec_par_from(sm, i, acc).cpu_cores == acc.cpu_cores || exists|k: int|
            i <= k < sm.len() && 0 <= k && spec_par_from(sm, i, acc).cpu_cores == (
            #[trigger] sm[k].resource_requirements).cpu_cores,
    decreases sm.len() - i,
{
    if 0 <= i < sm.len() {
        let acc1 = spec_par_combine(acc, sm[i].resource_requirements);
        lemma_par_from_cpu(sm, i + 1, acc1);
        assert forall|k: int| i <= k < sm.len() && 0 <= k implies spec_par_from(
            sm,
            i,
            acc,
        ).cpu_cores >= (#[trigger] sm[k].resource_requirements).cpu_cores by {
            if k == i {
                assert(spec_par_from(sm, i, acc).cpu_cores >= acc1.cpu_cores);
            }
        }
        if spec_par_from(sm, i, acc).cpu_cores == acc1.cpu_cores {
            if acc.cpu_cores >= sm[i].resource_requirements.cpu_cores {
                assert(acc1.cpu_cores == acc.cpu_cores);
            } else {
                assert(spec_par_from(sm, i, acc).cpu_cores == sm[i]
                    .resource_requirements.cpu_cores);
            }
        }
    }
}

/// The Parallel aggregate's processor figure is exactly the maximum of the
/// steps' processor demands (zero for an empty protocol).
pub proof fn lemma_parallel_cpu_is_max(sm: Seq<StepModel>)
    ensures
        forall|k: int|
            0 <= k < sm.len() ==> spec_par_total(sm).cpu_cores >= (#[trigger] sm[k]
                .resource_requirements).cpu_cores,
        sm.len() > 0 ==> exists|k: int|
            0 <= k < sm.len() && spec_par_total(sm).cpu_cores == (#[trigger] sm[k]
                .resource_requirements).cpu_cores,
        sm.len() == 0 ==> spec_par_total(sm).cpu_cores == 0,
{
    lemma_par_from_cpu(sm, 0, spec_zero_resources());
    if sm.len() > 0 && spec_par_total(sm).cpu_cores == 0 {
        assert(spec_par_total(sm).cpu_cores == sm[0].resource_requirements.cpu_cores);
    }
}

/// Folds one step into the parallel aggregate.
fn par_combine(a: ResourceRequirements, s: ResourceRequirements) -> (r: ResourceRequirements)
    ensures
        r == spec_par_combine(a, s),
{
    ResourceRequirements {
        cpu_cores: if a.cpu_cores > s.cpu_cores {
            a.cpu_cores
        } else {
            s.cpu_cores
        },
        memory_gb: if a.memory_gb > s.memory_gb {
            a.memory_gb
        } else {
            s.memory_gb
        },
        gpu_units: if a.gpu_units > s.gpu_units {
            a.gpu_units
        } else {
            s.gpu_units
        },
        network_bandwidth_mbps: if a.network_bandwidth_mbps > s.network_bandwidth_mbps {
            a.network_bandwidth_mbps
        } else {
            s.network_bandwidth_mbps
        },
        estimated_duration_seconds: if a.estimated_duration_seconds
            > s.estimated_duration_seconds {
            a.estimated_duration_seconds
        } else {
            s.estimated_duration_seconds
        },
        storage_gb: add_milli(a.storage_gb, s.storage_gb),
    }
}

/// Folds one step into the fieldwise sums.
fn sum_combine(a: ResourceRequirements, s: ResourceRequirements) -> (r: ResourceRequirements)
    ensures
        r == spec_sum_combine(a, s),
{
    ResourceRequirements {
        cpu_cores: add_milli(a.cpu_cores, s.cpu_cores),
        memory_gb: add_milli(a.memory_gb, s.memory_gb),
        gpu_units: add_milli(a.gpu_units, s.gpu_units),
        network_bandwidth_mbps: add_milli(a.network_bandwidth_mbps, s.network_bandwidth_mbps),
        estimated_duration_seconds: add_milli(
            a.estimated_duration_seconds,
            s.estimated_duration_seconds,
        ),
        storage_gb: add_milli(a.storage_gb, s.storage_gb),
    }
}

/// Computes the aggregate requirements of the steps under the given mode.
pub fn calculate_total_resources(steps: &Vec<ExecutionStep>, mode: ExecutionMode) -> (r:
    ResourceRequirements)
    ensures
        r == spec_total_resources(steps_model(steps@), mode),
{
    let ghost sm = steps_model(steps@);
    proof {
        lemma_steps_model(steps@);
    }
    let zero = ResourceRequirements {
        cpu_cores: 0,
        memory_gb: 0,
        gpu_units: 0,
        network_bandwidth_mbps: 0,
        estimated_duration_seconds: 0,
        storage_gb: 0,
    };
    let mut par = zero;
    let mut sums = zero;
    let mut i: usize = 0;
    while i < steps.len()
        invariant
            i <= steps@.len(),
            sm == steps_model(steps@),
            sm.len() == steps@.len(),
            forall|k: int| 0 <= k < steps@.len() ==> #[trigger] sm[k] == steps@[k].model(),
            spec_par_from(sm, i as int, par) == spec_par_total(sm),
            spec_sum_from(sm, i as int, sums) == spec_sum_from(
                sm,
                0,
                spec_zero_resources(),
            ),
            par.storage_gb <= crate::fixed::RES_MAX,
            sums.wf(),
        decreases steps@.len() - i,
    {
        par = par_combine(par, steps[i].resource_requirements);
        sums = sum_combine(sums, steps[i].resource_requirements);
        i = i + 1;
    }
    match mode {
        ExecutionMode::Parallel => par,
        ExecutionMode::Sequential => {
            if steps.len() == 0 {
                zero
            } else {
                let n = steps.len() as u64;
                ResourceRequirements {
                    cpu_cores: sums.cpu_cores / n,
                    memory_gb: sums.memory_gb / n,
                    gpu_units: sums.gpu_units / n,
                    network_bandwidth_mbps: sums.network_bandwidth_mbps / n,
                    estimated_duration_seconds: sums.estimated_duration_seconds,
                    storage_gb: sums.storage_gb,
                }
            }
        },
        _ => {
            let n_is_zero = steps.len() == 0;
            let q = if n_is_zero {
                zero
            } else {
                let n = steps.len() as u64;
                ResourceRequirements {
                    cpu_cores: sums.cpu_cores / n,
                    memory_gb: sums.memory_gb / n,
                    gpu_units: sums.gpu_units / n,
                    network_bandwidth_mbps: sums.network_bandwidth_mbps / n,
                    estimated_duration_seconds: sums.estimated_duration_seconds,
                    storage_gb: sums.storage_gb,
                }
            };
            proof {
                assert(q == spec_seq_total(sm));
                lemma_sum_from_wf(sm, 0, spec_zero_resources());
            }
            let pt = par;
            ResourceRequirements {
                cpu_cores: half_sum(pt.cpu_cores, q.cpu_cores),
                memory_gb: half_sum(pt.memory_gb, q.memory_gb),
                gpu_units: half_sum(pt.gpu_units, q.gpu_units),
                network_bandwidth_mbps: half_sum(
                    pt.network_bandwidth_mbps,
                    q.network_bandwidth_mbps,
                ),
                estimated_duration_seconds: half_sum(
                    pt.estimated_duration_seconds,
                    q.estimated_duration_seconds,
                ),
                storage_gb: pt.storage_gb,
            }
        },
    }
}

/// Computes the capped fieldwise sums of the steps' requirements.
pub fn resource_sums(steps: &Vec<ExecutionStep>) -> (r: ResourceRequirements)
    ensures
        r == spec_sum_from(steps_model(steps@), 0, spec_zero_resources()),
        r.wf(),
{
    let ghost sm = steps_model(steps@);
    proof {
        lemma_steps_model(steps@);
    }
    let mut sums = ResourceRequirements {
        cpu_cores: 0,
        memory_gb: 0,
        gpu_units: 0,
        network_bandwidth_mbps: 0,
        estimated_duration_seconds: 0,
        storage_gb: 0,
    };
    let mut i: usize = 0;
    while i < steps.len()
        invariant
            i <= steps@.len(),
            sm == steps_model(steps@),
            sm.len() == steps@.len(),
            forall|k: int| 0 <= k < steps@.len() ==> #[trigger] sm[k] == steps@[k].model(),
            spec_sum_from(sm, i as int, sums) == spec_sum_from(sm, 0, spec_zero_resources()),
            sums.wf(),
        decreases steps@.len() - i,
    {
        sums = sum_combine(sums, steps[i].resource_requirements);
        i = i + 1;
    }
    sums
}

/// The mean of two quantities, in saturating arithmetic.
fn half_sum(a: u64, b: u64) -> (r: u64)
    ensures
        r == ((a + b) / 2) as u64,
{
    let wide: u128 = (a as u128 + b as u128) / 2;
    wide as u64
}

} // verus!
