//! The execution strategies and the run-level aggregation.
//!
//! Given the outcome the outside world reported for each step, the
//! strategies decide which steps were attempted: Sequential walks the
//! execution order and halts after the first failure; Parallel runs the
//! parallel groups in order and starts no group after one that failed,
//! falling back to the execution order when the protocol has no groups;
//! Adaptive books a Parallel run but re-books it Sequentially when the
//! booked processor or memory usage exceeds four fifths of the declared
//! totals; Optimized dispatches on the strategy the outside optimizer
//! selected. Unattempted steps stay Pending.

use vstd::prelude::*;

use vstd::string::StringExecFns;

use crate::ast::strings_model;
use crate::compiler::{
    groups_model, lemma_groups_model, lemma_steps_model, steps_model, CompiledProtocol,
    ExecutionMode, ExecutionStep, StepModel,
};
use crate::fixed::{add_milli, spec_add_milli};
use crate::orchestrator::{
    lemma_outcomes_model, lemma_results_model, lemma_results_model_push, outcomes_model,
    pending_result, results_model, spec_pending_result, spec_step_index, spec_step_result,
    spec_zero_usage, step_index, step_result_from_outcome, OutcomeModel, ResourceUsage,
    StepOutcome, StepResult, StepResultModel,
};
use crate::plan::seq_contains;
use crate::FourSidedTriangleError;

verus! {

/// The strategy the outside optimizer selected for an Optimized run.
#[derive(Debug, Clone, Copy, PartialEq, Eq, Structural)]
pub enum SelectedStrategy {
    Parallel,
    Sequential,
    Adaptive,
}

/// The ids attempted by a Sequential run of the order from `i` on: each id
/// must name a step; a failing step is the last attempted.
pub open spec fn spec_seq_attempted(
    order: Seq<Seq<char>>,
    sm: Seq<StepModel>,
    ocs: Seq<OutcomeModel>,
    i: int,
) -> Result<Seq<Seq<char>>, Seq<char>>
    decreases order.len() - i,
{
    if i < 0 || i >= order.len() {
        Ok(Seq::empty())
    } else {
        match spec_step_index(sm, order[i]) {
            None => Err(order[i]),
            Some(k) => if !ocs[k].success {
                Ok(seq![order[i]])
            } else {
                match spec_seq_attempted(order, sm, ocs, i + 1) {
                    Ok(rest) => Ok(seq![order[i]] + rest),
                    Err(e) => Err(e),
                }
            },
        }
    }
}

/// The first id of the group that names no step, if any.
pub open spec fn spec_group_unresolved(
    group: Seq<Seq<char>>,
    sm: Seq<StepModel>,
    j: int,
) -> Option<Seq<char>>
    decreases group.len() - j,
{
    if j < 0 || j >= group.len() {
        None
    } else if spec_step_index(sm, group[j]) is None {
        Some(group[j])
    } else {
        spec_group_unresolved(group, sm, j + 1)
    }
}

/// Whether any member of the group failed.
pub open spec fn spec_group_failed(
    group: Seq<Seq<char>>,
    sm: Seq<StepModel>,
    ocs: Seq<OutcomeModel>,
    j: int,
) -> bool
    decreases group.len() - j,
{
    if j < 0 || j >= group.len() {
        false
    } else {
        (match spec_step_index(sm, group[j]) {
            Some(k) => !ocs[k].success,
            None => false,
        }) || spec_group_failed(group, sm, ocs, j + 1)
    }
}

/// The ids attempted by a Parallel run of the groups from `j` on: every
/// member of a started group runs; a group with a failure is the last
/// started.
pub open spec fn spec_par_attempted(
    groups: Seq<Seq<Seq<char>>>,
    sm: Seq<StepModel>,
    ocs: Seq<OutcomeModel>,
    j: int,
) -> Result<Seq<Seq<char>>, Seq<char>>
    decreases groups.len() - j,
{
    if j < 0 || j >= groups.len() {
        Ok(Seq::empty())
    } else {
        match spec_group_unresolved(groups[j], sm, 0) {
            Some(id) => Err(id),
            None => if spec_group_failed(groups[j], sm, ocs, 0) {
                Ok(groups[j])
            } else {
                match spec_par_attempted(groups, sm, ocs, j + 1) {
                    Ok(rest) => Ok(groups[j] + rest),
                    Err(e) => Err(e),
                }
            },
        }
    }
}

/// The per-step results of a run: attempted steps settle from their
/// outcomes; the rest stay Pending.
pub open spec fn spec_results_from(
    sm: Seq<StepModel>,
    ocs: Seq<OutcomeModel>,
    att: Seq<Seq<char>>,
    i: int,
) -> Seq<StepResultModel>
    decreases sm.len() - i,
{
    if i < 0 || i >= sm.len() {
        Seq::empty()
    } else {
        let head = if seq_contains(att, sm[i].step_id) {
            spec_step_result(sm[i], ocs[i])
        } else {
            spec_pending_result(sm[i])
        };
        seq![head] + spec_results_from(sm, ocs, att, i + 1)
    }
}

/// A run settles exactly one result per step.
pub proof fn lemma_results_from_len(
    sm: Seq<StepModel>,
    ocs: Seq<OutcomeModel>,
    att: Seq<Seq<char>>,
    i: int,
)
    requires
        0 <= i <= sm.len(),
    ensures
        spec_results_from(sm, ocs, att, i).len() == sm.len() - i,
    decreases sm.len() - i,
{
    if i < sm.len() {
        lemma_results_from_len(sm, ocs, att, i + 1);
    }
}

/// The total booked usage of a run, fieldwise capped.
pub open spec fn spec_usage_from(
    rm: Seq<StepResultModel>,
    i: int,
    acc: ResourceUsage,
) -> ResourceUsage
    decreases rm.len() - i,
{
    if i < 0 || i >= rm.len() {
        acc
    } else {
        spec_usage_from(
            rm,
            i + 1,
            ResourceUsage {
                cpu_cores_used: spec_add_milli(
                    acc.cpu_cores_used,
                    rm[i].resource_usage.cpu_cores_used,
                ),
                memory_gb_used: spec_add_milli(
                    acc.memory_gb_used,
                    rm[i].resource_usage.memory_gb_used,
                ),
                gpu_units_used: spec_add_milli(
                    acc.gpu_units_used,
                    rm[i].resource_usage.gpu_units_used,
                ),
                network_bandwidth_mbps_used: spec_add_milli(
                    acc.network_bandwidth_mbps_used,
                    rm[i].resource_usage.network_bandwidth_mbps_used,
                ),
                storage_gb_used: spec_add_milli(
                    acc.storage_gb_used,
                    rm[i].resource_usage.storage_gb_used,
                ),
            },
        )
    }
}

/// The ids a Parallel booking attempts: the parallel groups, run in listed
/// order; a protocol without parallel groups (every layer a singleton)
/// falls back to walking the execution order, so its steps still run.
pub open spec fn spec_parallel_booking(
    groups: Seq<Seq<Seq<char>>>,
    order: Seq<Seq<char>>,
    sm: Seq<StepModel>,
    ocs: Seq<OutcomeModel>,
) -> Result<Seq<Seq<char>>, Seq<char>> {
    if groups.len() == 0 {
        spec_seq_attempted(order, sm, ocs, 0)
    } else {
        spec_par_attempted(groups, sm, ocs, 0)
    }
}

/// Whether booked usage exceeds four fifths of a declared requirement; an
/// undeclared requirement is exceeded by any booked usage.
pub open spec fn spec_over_budget(used: u64, declared: u64) -> bool {
    if declared == 0 {
        used > 0
    } else {
        5 * used > 4 * declared
    }
}

/// The ids a run attempts under the given mode (with the outside
/// optimizer's selection for an Optimized run), or the first id that names
/// no step.
pub open spec fn spec_attempted(
    p: crate::compiler::ProtocolModel,
    ocs: Seq<OutcomeModel>,
    selected: SelectedStrategy,
) -> Result<Seq<Seq<char>>, Seq<char>>
    decreases 2int,
{
    match p.execution_mode {
        ExecutionMode::Sequential => spec_seq_attempted(p.execution_order, p.execution_steps, ocs, 0),
        ExecutionMode::Parallel => spec_parallel_booking(
            p.parallel_groups,
            p.execution_order,
            p.execution_steps,
            ocs,
        ),
        ExecutionMode::Adaptive => spec_adaptive_attempted(p, ocs),
        ExecutionMode::Optimized => match selected {
            SelectedStrategy::Parallel => spec_parallel_booking(
                p.parallel_groups,
                p.execution_order,
                p.execution_steps,
                ocs,
            ),
            SelectedStrategy::Sequential => spec_seq_attempted(
                p.execution_order,
                p.execution_steps,
                ocs,
                0,
            ),
            SelectedStrategy::Adaptive => spec_adaptive_attempted(p, ocs),
        },
    }
}

/// The ids an Adaptive run attempts: the Parallel run's, unless its booked
/// processor or memory usage exceeds four fifths of the declared totals, in
/// which case the whole protocol is re-booked Sequentially.
pub open spec fn spec_adaptive_attempted(
    p: crate::compiler::ProtocolModel,
    ocs: Seq<OutcomeModel>,
) -> Result<Seq<Seq<char>>, Seq<char>>
    decreases 1int,
{
    match spec_parallel_booking(p.parallel_groups, p.execution_order, p.execution_steps, ocs) {
        Err(e) => Err(e),
        Ok(att) => {
            let rm = spec_results_from(p.execution_steps, ocs, att, 0);
            let usage = spec_usage_from(rm, 0, spec_zero_usage());
            if spec_over_budget(usage.cpu_cores_used, p.total_resource_requirements.cpu_cores)
                || spec_over_budget(
                usage.memory_gb_used,
                p.total_resource_requirements.memory_gb,
            ) {
                spec_seq_attempted(p.execution_order, p.execution_steps, ocs, 0)
            } else {
                Ok(att)
            }
        },
    }
}

/// Computes the ids attempted by a Sequential run.
fn seq_attempted(
    order: &Vec<String>,
    steps: &Vec<ExecutionStep>,
    outcomes: &Vec<StepOutcome>,
) -> (r: Result<Vec<String>, String>)
    requires
        outcomes@.len() == steps@.len(),
    ensures
        ({
            let spec = spec_seq_attempted(
                strings_model(order@),
                steps_model(steps@),
                outcomes_model(outcomes@),
                0,
            );
            match r {
                Ok(att) => spec == Ok::<_, Seq<char>>(strings_model(att@)),
                Err(id) => spec == Err::<Seq<Seq<char>>, _>(id@),
            }
        }),
{
    let ghost om = strings_model(order@);
    let ghost sm = steps_model(steps@);
    let ghost cm = outcomes_model(outcomes@);
    proof {
        crate::ast::lemma_strings_model(order@);
        lemma_steps_model(steps@);
        lemma_outcomes_model(outcomes@);
    }
    let mut att: Vec<String> = Vec::new();
    let mut i: usize = 0;
    proof {
        assert(strings_model(att@) =~= Seq::<Seq<char>>::empty());
    }
    while i < order.len()
        invariant
            i <= order@.len(),
            om == strings_model(order@),
            sm == steps_model(steps@),
            cm == outcomes_model(outcomes@),
            om.len() == order@.len(),
            sm.len() == steps@.len(),
            cm.len() == outcomes@.len(),
            outcomes@.len() == steps@.len(),
            forall|k: int| 0 <= k < order@.len() ==> #[trigger] om[k] == order@[k]@,
            forall|k: int| 0 <= k < steps@.len() ==> #[trigger] sm[k] == steps@[k].model(),
            forall|k: int|
                0 <= k < outcomes@.len() ==> #[trigger] cm[k] == outcomes@[k].model(),
            ({
                let whole = spec_seq_attempted(om, sm, cm, 0);
                let rest = spec_seq_attempted(om, sm, cm, i as int);
                match rest {
                    Ok(tail) => whole == Ok::<_, Seq<char>>(strings_model(att@) + tail),
                    Err(e) => whole is Err && whole->Err_0 == e,
                }
            }),
        decreases order@.len() - i,
    {
        let id = &order[i];
        match step_index(steps, id) {
            None => {
                return Err(id.clone());
            },
            Some(k) => {
                let ghost before = strings_model(att@);
                let s = id.clone();
                proof {
                    crate::ast::lemma_strings_model_push(att@, s);
                }
                let stop = !outcomes[k].success;
                att.push(s);
                if stop {
                    proof {
                        assert(spec_seq_attempted(om, sm, cm, i as int) == Ok::<
                            _,
                            Seq<char>,
                        >(seq![om[i as int]]));
                        assert(before.push(om[i as int]) =~= before + seq![om[i as int]]);
                    }
                    return Ok(att);
                }
                proof {
                    let rest_now = spec_seq_attempted(om, sm, cm, i + 1);
                    if rest_now is Ok {
                        assert(before.push(om[i as int]) + rest_now->Ok_0 =~= before + (
                        seq![om[i as int]] + rest_now->Ok_0));
                    }
                }
            },
        }
        i = i + 1;
    }
    proof {
        assert(spec_seq_attempted(om, sm, cm, order@.len() as int) == Ok::<_, Seq<char>>(
            Seq::<Seq<char>>::empty(),
        ));
        assert(strings_model(att@) + Seq::<Seq<char>>::empty() =~= strings_model(att@));
    }
    Ok(att)
}

/// Computes the ids attempted by a Parallel run.
fn par_attempted(
    groups: &Vec<Vec<String>>,
    steps: &Vec<ExecutionStep>,
    outcomes: &Vec<StepOutcome>,
) -> (r: Result<Vec<String>, String>)
    requires
        outcomes@.len() == steps@.len(),
    ensures
        ({
            let spec = spec_par_attempted(
                groups_model(groups@),
                steps_model(steps@),
                outcomes_model(outcomes@),
                0,
            );
            match r {
                Ok(att) => spec == Ok::<_, Seq<char>>(strings_model(att@)),
                Err(id) => spec == Err::<Seq<Seq<char>>, _>(id@),
            }
        }),
{
    let ghost gm = groups_model(groups@);
    let ghost sm = steps_model(steps@);
    let ghost cm = outcomes_model(outcomes@);
    proof {
        lemma_groups_model(groups@);
        lemma_steps_model(steps@);
        lemma_outcomes_model(outcomes@);
    }
    let mut att: Vec<String> = Vec::new();
    let mut j: usize = 0;
    proof {
        assert(strings_model(att@) =~= Seq::<Seq<char>>::empty());
    }
    while j < groups.len()
        invariant
            j <= groups@.len(),
            gm == groups_model(groups@),
            sm == steps_model(steps@),
            cm == outcomes_model(outcomes@),
            gm.len() == groups@.len(),
            sm.len() == steps@.len(),
            cm.len() == outcomes@.len(),
            outcomes@.len() == steps@.len(),
            forall|k: int|
                0 <= k < groups@.len() ==> #[trigger] gm[k] == strings_model(groups@[k]@),
            forall|k: int| 0 <= k < steps@.len() ==> #[trigger] sm[k] == steps@[k].model(),
            forall|k: int|
                0 <= k < outcomes@.len() ==> #[trigger] cm[k] == outcomes@[k].model(),
            ({
                let whole = spec_par_attempted(gm, sm, cm, 0);
                let rest = spec_par_attempted(gm, sm, cm, j as int);
                match rest {
                    Ok(tail) => whole == Ok::<_, Seq<char>>(strings_model(att@) + tail),
                    Err(e) => whole is Err && whole->Err_0 == e,
                }
            }),
        decreases groups@.len() - j,
    {
        let group = &groups[j];
        let ghost grm = strings_model(group@);
        proof {
            crate::ast::lemma_strings_model(group@);
        }
        // Resolve every member and notice failures.
        let mut failed = false;
        let mut missing: Option<String> = None;
        let mut w: usize = 0;
        while w < group.len()
            invariant
                w <= group@.len(),
                grm == strings_model(group@),
                sm == steps_model(steps@),
                cm == outcomes_model(outcomes@),
                grm.len() == group@.len(),
                sm.len() == steps@.len(),
                cm.len() == outcomes@.len(),
                outcomes@.len() == steps@.len(),
                forall|k: int| 0 <= k < group@.len() ==> #[trigger] grm[k] == group@[k]@,
                forall|k: int|
                    0 <= k < steps@.len() ==> #[trigger] sm[k] == steps@[k].model(),
                forall|k: int|
                    0 <= k < outcomes@.len() ==> #[trigger] cm[k] == outcomes@[k].model(),
                missing is None ==> spec_group_unresolved(grm, sm, 0)
                    == spec_group_unresolved(grm, sm, w as int),
                missing matches Some(id) ==> spec_group_unresolved(grm, sm, 0) == Some(id@),
                missing is None ==> spec_group_failed(grm, sm, cm, 0) == (failed
                    || spec_group_failed(grm, sm, cm, w as int)),
            decreases group@.len() - w,
        {
            if matches!(missing, None) {
                match step_index(steps, &group[w]) {
                    None => {
                        missing = Some(group[w].clone());
                    },
                    Some(k) => {
                        if !outcomes[k].success {
                            failed = true;
                        }
                    },
                }
            }
            w = w + 1;
        }
        match missing {
            Some(id) => {
                return Err(id);
            },
            None => {},
        }
        proof {
            assert(spec_group_unresolved(grm, sm, group@.len() as int) is None);
            assert(!spec_group_failed(grm, sm, cm, group@.len() as int));
        }
        // Start the group: every member is attempted.
        let moved = crate::plan::clone_strings(group);
        let ghost before = strings_model(att@);
        proof {
            crate::ast::lemma_strings_model(moved@);
        }
        let mut idx: usize = 0;
        while idx < moved.len()
            invariant
                idx <= moved@.len(),
                strings_model(moved@) == grm,
                strings_model(moved@).len() == moved@.len(),
                forall|k: int|
                    0 <= k < moved@.len() ==> #[trigger] strings_model(moved@)[k]
                        == moved@[k]@,
                strings_model(att@) == before + grm.take(idx as int),
            decreases moved@.len() - idx,
        {
            let s = moved[idx].clone();
            proof {
                crate::ast::lemma_strings_model_push(att@, s);
                assert(grm.take(idx + 1) =~= grm.take(idx as int).push(grm[idx as int]));
            }
            att.push(s);
            idx = idx + 1;
        }
        proof {
            assert(grm.take(grm.len() as int) =~= grm);
            assert(strings_model(att@) == before + grm);
        }
        if failed {
            proof {
                assert(spec_par_attempted(gm, sm, cm, j as int) == Ok::<_, Seq<char>>(grm));
                assert(spec_par_attempted(gm, sm, cm, 0) == Ok::<_, Seq<char>>(
                    strings_model(att@),
                ));
            }
            return Ok(att);
        }
        proof {
            let rest_now = spec_par_attempted(gm, sm, cm, j + 1);
            if rest_now is Ok {
                assert((before + grm) + rest_now->Ok_0 =~= before + (grm + rest_now->Ok_0));
            }
        }
        j = j + 1;
    }
    proof {
        assert(spec_par_attempted(gm, sm, cm, groups@.len() as int) == Ok::<_, Seq<char>>(
            Seq::<Seq<char>>::empty(),
        ));
        assert(strings_model(att@) + Seq::<Seq<char>>::empty() =~= strings_model(att@));
    }
    Ok(att)
}

/// Settles every step of the protocol: attempted steps from their outcomes,
/// the rest Pending.
pub fn settle_results(
    steps: &Vec<ExecutionStep>,
    outcomes: &Vec<StepOutcome>,
    att: &Vec<String>,
) -> (r: Vec<StepResult>)
    requires
        outcomes@.len() == steps@.len(),
    ensures
        results_model(r@) == spec_results_from(
            steps_model(steps@),
            outcomes_model(outcomes@),
            strings_model(att@),
            0,
        ),
{
    let ghost sm = steps_model(steps@);
    let ghost cm = outcomes_model(outcomes@);
    let ghost am = strings_model(att@);
    proof {
        lemma_steps_model(steps@);
        lemma_outcomes_model(outcomes@);
    }
    let mut out: Vec<StepResult> = Vec::new();
    let mut i: usize = 0;
    proof {
        assert(results_model(out@) =~= Seq::<StepResultModel>::empty());
        assert(results_model(out@) + spec_results_from(sm, cm, am, 0) =~= spec_results_from(
            sm,
            cm,
            am,
            0,
        ));
    }
    while i < steps.len()
        invariant
            i <= steps@.len(),
            sm == steps_model(steps@),
            cm == outcomes_model(outcomes@),
            am == strings_model(att@),
            sm.len() == steps@.len(),
            cm.len() == outcomes@.len(),
            outcomes@.len() == steps@.len(),
            forall|k: int| 0 <= k < steps@.len() ==> #[trigger] sm[k] == steps@[k].model(),
            forall|k: int|
                0 <= k < outcomes@.len() ==> #[trigger] cm[k] == outcomes@[k].model(),
            results_model(out@) + spec_results_from(sm, cm, am, i as int)
                == spec_results_from(sm, cm, am, 0),
        decreases steps@.len() - i,
    {
        let here = crate::plan::contains_str(att, &steps[i].step_id);
        let r = if here {
            step_result_from_outcome(&steps[i], &outcomes[i])
        } else {
            pending_result(&steps[i])
        };
        proof {
            lemma_results_model_push(out@, r);
            let head = if seq_contains(am, sm[i as int].step_id) {
                spec_step_result(sm[i as int], cm[i as int])
            } else {
                spec_pending_result(sm[i as int])
            };
            assert(r.model() == head);
            assert(results_model(out@).push(head) + spec_results_from(sm, cm, am, i + 1)
                =~= results_model(out@) + (seq![head] + spec_results_from(sm, cm, am, i + 1)));
        }
        out.push(r);
        i = i + 1;
    }
    proof {
        assert(spec_results_from(sm, cm, am, steps@.len() as int) =~= Seq::<
            StepResultModel,
        >::empty());
        assert(results_model(out@) + Seq::<StepResultModel>::empty() =~= results_model(out@));
    }
    out
}

/// Sums the booked usage of a run.
pub fn usage_total(results: &Vec<StepResult>) -> (r: ResourceUsage)
    ensures
        r == spec_usage_from(results_model(results@), 0, spec_zero_usage()),
{
    let ghost rm = results_model(results@);
    proof {
        lemma_results_model(results@);
    }
    let mut acc = ResourceUsage {
        cpu_cores_used: 0,
        memory_gb_used: 0,
        gpu_units_used: 0,
        network_bandwidth_mbps_used: 0,
        storage_gb_used: 0,
    };
    let mut i: usize = 0;
    while i < results.len()
        invariant
            i <= results@.len(),
            rm == results_model(results@),
            rm.len() == results@.len(),
            forall|k: int| 0 <= k < results@.len() ==> #[trigger] rm[k] == results@[k].model(),
            spec_usage_from(rm, i as int, acc) == spec_usage_from(rm, 0, spec_zero_usage()),
        decreases results@.len() - i,
    {
        let u = results[i].resource_usage;
        acc = ResourceUsage {
            cpu_cores_used: add_milli(acc.cpu_cores_used, u.cpu_cores_used),
            memory_gb_used: add_milli(acc.memory_gb_used, u.memory_gb_used),
            gpu_units_used: add_milli(acc.gpu_units_used, u.gpu_units_used),
            network_bandwidth_mbps_used: add_milli(
                acc.network_bandwidth_mbps_used,
                u.network_bandwidth_mbps_used,
            ),
            storage_gb_used: add_milli(acc.storage_gb_used, u.storage_gb_used),
        };
        i = i + 1;
    }
    acc
}

/// Tests whether booked usage exceeds four fifths of a declared figure.
fn over_budget(used: u64, declared: u64) -> (r: bool)
    ensures
        r == spec_over_budget(used, declared),
{
    if declared == 0 {
        used > 0
    } else {
        let lhs: u128 = 5 * (used as u128);
        let rhs: u128 = 4 * (declared as u128);
        lhs > rhs
    }
}

/// Books a Sequential run: the per-step results of walking the execution
/// order, halting after the first failure. Fails exactly when the order
/// names a step id that no step carries.
pub fn execute_sequential(
    protocol: &CompiledProtocol,
    outcomes: &Vec<StepOutcome>,
) -> (r: Result<Vec<StepResult>, FourSidedTriangleError>)
    requires
        outcomes@.len() == protocol.execution_steps@.len(),
    ensures
        ({
            let sm = steps_model(protocol.execution_steps@);
            let cm = outcomes_model(outcomes@);
            let spec = spec_seq_attempted(
                strings_model(protocol.execution_order@),
                sm,
                cm,
                0,
            );
            match r {
                Ok(results) => spec is Ok && results_model(results@) == spec_results_from(
                    sm,
                    cm,
                    spec->Ok_0,
                    0,
                ),
                Err(e) => spec is Err && (
                e matches FourSidedTriangleError::ComputationalError { message } && message@
                    == "Step not found: "@ + spec->Err_0),
            }
        }),
{
    match seq_attempted(&protocol.execution_order, &protocol.execution_steps, outcomes) {
        Ok(att) => Ok(settle_results(&protocol.execution_steps, outcomes, &att)),
        Err(id) => {
            let message = <String as StringExecFns>::from_str("Step not found: ").concat(
                id.as_str(),
            );
            Err(FourSidedTriangleError::ComputationalError { message })
        },
    }
}

/// Books a Parallel run: the per-step results of starting the parallel
/// groups in order, with no group started after one that failed; without
/// any parallel groups the run walks the execution order instead. Fails
/// exactly when the plan names a step id that no step carries.
pub fn execute_parallel(
    protocol: &CompiledProtocol,
    outcomes: &Vec<StepOutcome>,
) -> (r: Result<Vec<StepResult>, FourSidedTriangleError>)
    requires
        outcomes@.len() == protocol.execution_steps@.len(),
    ensures
        ({
            let sm = steps_model(protocol.execution_steps@);
            let cm = outcomes_model(outcomes@);
            let spec = spec_parallel_booking(
                groups_model(protocol.parallel_groups@),
                strings_model(protocol.execution_order@),
                sm,
                cm,
            );
            match r {
                Ok(results) => spec is Ok && results_model(results@) == spec_results_from(
                    sm,
                    cm,
                    spec->Ok_0,
                    0,
                ),
                Err(e) => spec is Err && (
                e matches FourSidedTriangleError::ComputationalError { message } && message@
                    == "Step not found: "@ + spec->Err_0),
            }
        }),
{
    proof {
        crate::compiler::lemma_groups_model(protocol.parallel_groups@);
    }
    let booked = if protocol.parallel_groups.len() == 0 {
        seq_attempted(&protocol.execution_order, &protocol.execution_steps, outcomes)
    } else {
        par_attempted(&protocol.parallel_groups, &protocol.execution_steps, outcomes)
    };
    match booked {
        Ok(att) => Ok(settle_results(&protocol.execution_steps, outcomes, &att)),
        Err(id) => {
            let message = <String as StringExecFns>::from_str("Step not found: ").concat(
                id.as_str(),
            );
            Err(FourSidedTriangleError::ComputationalError { message })
        },
    }
}

/// Runs one strategy over the outcomes: computes the attempted ids.
pub fn attempted_ids(
    protocol: &CompiledProtocol,
    outcomes: &Vec<StepOutcome>,
    selected: SelectedStrategy,
) -> (r: Result<Vec<String>, String>)
    requires
        outcomes@.len() == protocol.execution_steps@.len(),
    ensures
        ({
            let spec = spec_attempted(protocol.model(), outcomes_model(outcomes@), selected);
            match r {
                Ok(att) => spec == Ok::<_, Seq<char>>(strings_model(att@)),
                Err(id) => spec == Err::<Seq<Seq<char>>, _>(id@),
            }
        }),
{
    let run_adaptive = matches!(protocol.execution_mode, ExecutionMode::Adaptive) || (
    matches!(protocol.execution_mode, ExecutionMode::Optimized) && matches!(
        selected,
        SelectedStrategy::Adaptive,
    ));
    let run_parallel = matches!(protocol.execution_mode, ExecutionMode::Parallel) || (
    matches!(protocol.execution_mode, ExecutionMode::Optimized) && matches!(
        selected,
        SelectedStrategy::Parallel,
    ));
    proof {
        crate::compiler::lemma_groups_model(protocol.parallel_groups@);
    }
    if run_adaptive {
        let booked = if protocol.parallel_groups.len() == 0 {
            seq_attempted(&protocol.execution_order, &protocol.execution_steps, outcomes)
        } else {
            par_attempted(&protocol.parallel_groups, &protocol.execution_steps, outcomes)
        };
        let att = match booked {
            Ok(att) => att,
            Err(id) => {
                return Err(id);
            },
        };
        let results = settle_results(&protocol.execution_steps, outcomes, &att);
        let usage = usage_total(&results);
        if over_budget(usage.cpu_cores_used, protocol.total_resource_requirements.cpu_cores)
            || over_budget(
            usage.memory_gb_used,
            protocol.total_resource_requirements.memory_gb,
        ) {
            seq_attempted(&protocol.execution_order, &protocol.execution_steps, outcomes)
        } else {
            Ok(att)
        }
    } else if run_parallel {
        if protocol.parallel_groups.len() == 0 {
            seq_attempted(&protocol.execution_order, &protocol.execution_steps, outcomes)
        } else {
            par_attempted(&protocol.parallel_groups, &protocol.execution_steps, outcomes)
        }
    } else {
        seq_attempted(&protocol.execution_order, &protocol.execution_steps, outcomes)
    }
}

} // verus!
