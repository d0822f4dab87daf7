//! The three descriptive artifacts compiled alongside a protocol: a
//! network-topology summary, a resource-orchestration summary, and a
//! metacognitive-complexity summary, each as compact JSON text.
//!
//! The artifacts are descriptive only: nothing downstream in the library
//! depends on them.

use vstd::prelude::*;

use vstd::string::StringExecFns;

use crate::ast::{lemma_strings_model, lemma_strings_model_push, strings_model};
use crate::compiler::{lemma_steps_model, steps_model, ExecutionStep, StepModel};
use crate::fixed::{add_milli, spec_add_milli, RES_MAX};
use crate::hints::{join_strings, spec_join};
use crate::json::{dec_str, json_string, milli_str, spec_dec_str, spec_json_string,
    spec_milli_str};
use crate::totals::{spec_adaptive_total, spec_seq_total, spec_sum_from, spec_zero_resources};

verus! {

/// The consciousness level the topology summary assigns to a stage.
pub open spec fn spec_consciousness(stage: Seq<char>) -> u64 {
    if stage == "stage2_domain_knowledge"@ {
        900
    } else if stage == "stage3_reasoning_optimization"@ {
        850
    } else if stage == "stage5_scoring"@ {
        800
    } else if stage == "stage7_verification"@ {
        750
    } else {
        700
    }
}

/// Looks up the consciousness level of a stage.
fn consciousness(stage: &String) -> (r: u64)
    ensures
        r == spec_consciousness(stage@),
{
    if *stage == <String as StringExecFns>::from_str("stage2_domain_knowledge") {
        900
    } else if *stage == <String as StringExecFns>::from_str("stage3_reasoning_optimization") {
        850
    } else if *stage == <String as StringExecFns>::from_str("stage5_scoring") {
        800
    } else if *stage == <String as StringExecFns>::from_str("stage7_verification") {
        750
    } else {
        700
    }
}

/// One node of the topology summary.
pub open spec fn spec_fs_node(s: StepModel) -> Seq<char> {
    "{\"id\":"@ + spec_json_string(s.step_id) + ",\"stage\":"@ + spec_json_string(s.stage_name)
        + ",\"consciousness_level\":"@ + spec_milli_str(spec_consciousness(s.stage_name))
        + ",\"resource_intensity\":"@ + spec_milli_str(
        spec_add_milli(
            s.resource_requirements.cpu_cores,
            (s.resource_requirements.memory_gb / 4) as u64,
        ),
    ) + "}"@
}

/// The node texts of the steps from `i` on.
pub open spec fn spec_fs_nodes_from(sm: Seq<StepModel>, i: int) -> Seq<Seq<char>>
    decreases sm.len() - i,
{
    if i < 0 || i >= sm.len() {
        Seq::empty()
    } else {
        seq![spec_fs_node(sm[i])] + spec_fs_nodes_from(sm, i + 1)
    }
}

/// The count of steps without raw dependencies.
pub open spec fn spec_indep_raw(sm: Seq<StepModel>, i: int) -> int
    decreases sm.len() - i,
{
    if i < 0 || i >= sm.len() {
        0
    } else if sm[i].dependencies.len() == 0 {
        1 + spec_indep_raw(sm, i + 1)
    } else {
        spec_indep_raw(sm, i + 1)
    }
}

/// The network-topology summary.
pub open spec fn spec_fs_content(name: Seq<char>, sm: Seq<StepModel>) -> Seq<char> {
    "{\"protocol_name\":"@ + spec_json_string(name) + ",\"network_topology\":{\"nodes\":["@
        + spec_join(spec_fs_nodes_from(sm, 0), ","@)
        + "],\"edges\":[],\"consciousness_levels\":{}},\"processing_flow\":{\"stages\":"@
        + spec_dec_str(sm.len()) + ",\"parallel_capacity\":"@ + spec_dec_str(
        spec_indep_raw(sm, 0) as nat,
    ) + ",\"complexity_score\":"@ + spec_milli_str(
        spec_sum_from(sm, 0, spec_zero_resources()).cpu_cores,
    ) + "}}"@
}

/// One step of the orchestration summary.
pub open spec fn spec_ghd_step(s: StepModel) -> Seq<char> {
    "{\"id\":"@ + spec_json_string(s.step_id) + ",\"stage\":"@ + spec_json_string(s.stage_name)
        + ",\"priority\":"@ + spec_milli_str(s.priority) + ",\"dependencies\":["@ + spec_join(
        spec_js_list(s.dependencies, 0),
        ","@,
    ) + "]}"@
}

/// JSON string literals for each item from `i` on.
pub open spec fn spec_js_list(items: Seq<Seq<char>>, i: int) -> Seq<Seq<char>>
    decreases items.len() - i,
{
    if i < 0 || i >= items.len() {
        Seq::empty()
    } else {
        seq![spec_json_string(items[i])] + spec_js_list(items, i + 1)
    }
}

/// The step texts of the orchestration summary from `i` on.
pub open spec fn spec_ghd_steps_from(sm: Seq<StepModel>, i: int) -> Seq<Seq<char>>
    decreases sm.len() - i,
{
    if i < 0 || i >= sm.len() {
        Seq::empty()
    } else {
        seq![spec_ghd_step(sm[i])] + spec_ghd_steps_from(sm, i + 1)
    }
}

/// The resource-orchestration summary, built over the adaptive aggregate.
pub open spec fn spec_ghd_content(name: Seq<char>, sm: Seq<StepModel>) -> Seq<char> {
    let t = spec_adaptive_total(sm);
    "{\"protocol_name\":"@ + spec_json_string(name) + ",\"resource_allocation\":{\"cpu_cores\":"@
        + spec_milli_str(t.cpu_cores) + ",\"memory_gb\":"@ + spec_milli_str(t.memory_gb)
        + ",\"gpu_units\":"@ + spec_milli_str(t.gpu_units) + ",\"network_bandwidth_mbps\":"@
        + spec_milli_str(t.network_bandwidth_mbps) + ",\"storage_gb\":"@ + spec_milli_str(
        t.storage_gb,
    ) + "},\"orchestration_plan\":{\"execution_mode\":\"adaptive\",\"estimated_duration\":"@
        + spec_milli_str(t.estimated_duration_seconds) + ",\"steps\":["@ + spec_join(
        spec_ghd_steps_from(sm, 0),
        ","@,
    ) + "]}}"@
}

/// The floor of the base-two logarithm.
pub open spec fn spec_log2(n: nat) -> nat
    decreases n,
{
    if n <= 1 {
        0
    } else {
        1 + spec_log2(n / 2)
    }
}

/// Computes the floor of the base-two logarithm.
fn log2_floor(n: u64) -> (r: u64)
    ensures
        r == spec_log2(n as nat),
        r <= 64,
    decreases n,
{
    proof {
        lemma_log2_u64(n as nat);
    }
    if n <= 1 {
        0
    } else {
        1 + log2_floor(n / 2)
    }
}

/// The raw dependency count over all steps.
pub open spec fn spec_raw_dep_sum(sm: Seq<StepModel>, i: int) -> int
    decreases sm.len() - i,
{
    if i < 0 || i >= sm.len() {
        0
    } else {
        sm[i].dependencies.len() + spec_raw_dep_sum(sm, i + 1)
    }
}

/// The complexity assessment, in milli: a third of the sum of a natural-log
/// approximation of the step count (0.693 per doubling), the mean raw
/// dependency count, and the mean processor demand.
pub open spec fn spec_complexity(sm: Seq<StepModel>) -> u64 {
    let n = sm.len();
    if n == 0 {
        0
    } else {
        let ln_milli = spec_log2(n) * 693;
        let dep_sum: int = if spec_raw_dep_sum(sm, 0) > RES_MAX {
            RES_MAX as int
        } else {
            spec_raw_dep_sum(sm, 0)
        };
        let avg_deps = dep_sum * 1000 / (n as int);
        let avg_deps_capped: int = if avg_deps > RES_MAX {
            RES_MAX as int
        } else {
            avg_deps
        };
        let cpu_mean = spec_seq_total(sm).cpu_cores;
        (((ln_milli + avg_deps_capped + cpu_mean) / 3) as u64)
    }
}

/// The uncertainty notes of the steps from `i` on: long steps and partial
/// processor-unit use.
pub open spec fn spec_uncertainty_from(sm: Seq<StepModel>, i: int) -> Seq<Seq<char>>
    decreases sm.len() - i,
{
    if i < 0 || i >= sm.len() {
        Seq::empty()
    } else {
        let first: Seq<Seq<char>> = if sm[i].resource_requirements.estimated_duration_seconds
            > 30000 {
            seq![spec_json_string("Long duration step: "@ + sm[i].stage_name)]
        } else {
            Seq::empty()
        };
        let second: Seq<Seq<char>> = if sm[i].resource_requirements.gpu_units > 0
            && sm[i].resource_requirements.gpu_units < 1000 {
            seq![spec_json_string("Partial GPU utilization: "@ + sm[i].stage_name)]
        } else {
            Seq::empty()
        };
        first + second + spec_uncertainty_from(sm, i + 1)
    }
}

/// The count of steps using any processor units.
pub open spec fn spec_gpu_steps(sm: Seq<StepModel>, i: int) -> int
    decreases sm.len() - i,
{
    if i < 0 || i >= sm.len() {
        0
    } else if sm[i].resource_requirements.gpu_units > 0 {
        1 + spec_gpu_steps(sm, i + 1)
    } else {
        spec_gpu_steps(sm, i + 1)
    }
}

/// The optimization opportunities: one for long protocols, one for mixed
/// workloads.
pub open spec fn spec_opportunities(sm: Seq<StepModel>) -> Seq<Seq<char>> {
    let first: Seq<Seq<char>> = if spec_sum_from(
        sm,
        0,
        spec_zero_resources(),
    ).estimated_duration_seconds > 120000 {
        seq![
            spec_json_string("Consider parallelization to reduce total execution time"@),
        ]
    } else {
        Seq::empty()
    };
    let g = spec_gpu_steps(sm, 0);
    let second: Seq<Seq<char>> = if g > 0 && g < sm.len() {
        seq![
            spec_json_string("Mixed GPU/CPU workload detected, consider resource scheduling"@),
        ]
    } else {
        Seq::empty()
    };
    first + second
}

/// The critical stages: those demanding more than three processor cores.
pub open spec fn spec_critical_from(sm: Seq<StepModel>, i: int) -> Seq<Seq<char>>
    decreases sm.len() - i,
{
    if i < 0 || i >= sm.len() {
        Seq::empty()
    } else {
        let rest = spec_critical_from(sm, i + 1);
        if sm[i].resource_requirements.cpu_cores > 3000 {
            seq![spec_json_string(sm[i].stage_name)] + rest
        } else {
            rest
        }
    }
}

/// The fallback strategies of the steps from `i` on.
pub open spec fn spec_fallback_from(sm: Seq<StepModel>, i: int) -> Seq<Seq<char>>
    decreases sm.len() - i,
{
    if i < 0 || i >= sm.len() {
        Seq::empty()
    } else {
        let first: Seq<Seq<char>> = if sm[i].resource_requirements.cpu_cores > 4000 {
            seq![spec_json_string("Reduce parallel processing for "@ + sm[i].stage_name)]
        } else {
            Seq::empty()
        };
        let second: Seq<Seq<char>> = if sm[i].resource_requirements.memory_gb > 8000 {
            seq![spec_json_string("Use memory streaming for "@ + sm[i].stage_name)]
        } else {
            Seq::empty()
        };
        first + second + spec_fallback_from(sm, i + 1)
    }
}

/// The metacognitive-complexity summary.
pub open spec fn spec_hre_content(name: Seq<char>, sm: Seq<StepModel>) -> Seq<char> {
    "{\"protocol_name\":"@ + spec_json_string(name)
        + ",\"metacognitive_profile\":{\"complexity_assessment\":"@ + spec_milli_str(
        spec_complexity(sm),
    ) + ",\"uncertainty_factors\":["@ + spec_join(spec_uncertainty_from(sm, 0), ","@)
        + "],\"optimization_opportunities\":["@ + spec_join(spec_opportunities(sm), ","@)
        + "]},\"decision_memory\":{\"critical_stages\":["@ + spec_join(
        spec_critical_from(sm, 0),
        ","@,
    ) + "],\"fallback_strategies\":["@ + spec_join(spec_fallback_from(sm, 0), ","@) + "]}}"@
}

/// Builds the topology node texts.
fn fs_nodes(steps: &Vec<ExecutionStep>) -> (r: Vec<String>)
    ensures
        strings_model(r@) == spec_fs_nodes_from(steps_model(steps@), 0),
{
    let ghost sm = steps_model(steps@);
    proof {
        lemma_steps_model(steps@);
    }
    let mut items: Vec<String> = Vec::new();
    let mut i: usize = 0;
    proof {
        assert(strings_model(items@) =~= Seq::<Seq<char>>::empty());
        assert(strings_model(items@) + spec_fs_nodes_from(sm, 0) =~= spec_fs_nodes_from(sm, 0));
    }
    while i < steps.len()
        invariant
            i <= steps@.len(),
            sm == steps_model(steps@),
            sm.len() == steps@.len(),
            forall|k: int| 0 <= k < steps@.len() ==> #[trigger] sm[k] == steps@[k].model(),
            strings_model(items@) + spec_fs_nodes_from(sm, i as int) == spec_fs_nodes_from(
                sm,
                0,
            ),
        decreases steps@.len() - i,
    {
        let s = &steps[i];
        let intensity = add_milli(
            s.resource_requirements.cpu_cores,
            s.resource_requirements.memory_gb / 4,
        );
        let item = <String as StringExecFns>::from_str("{\"id\":").concat(
            json_string(&s.step_id).as_str(),
        ).concat(",\"stage\":").concat(json_string(&s.stage_name).as_str()).concat(
            ",\"consciousness_level\":",
        ).concat(milli_str(consciousness(&s.stage_name)).as_str()).concat(
            ",\"resource_intensity\":",
        ).concat(milli_str(intensity).as_str()).concat("}");
        proof {
            assert(item@ == spec_fs_node(sm[i as int]));
            lemma_strings_model_push(items@, item);
            assert(strings_model(items@).push(item@) + spec_fs_nodes_from(sm, i + 1)
                =~= strings_model(items@) + (seq![spec_fs_node(sm[i as int])]
                + spec_fs_nodes_from(sm, i + 1)));
        }
        items.push(item);
        i = i + 1;
    }
    proof {
        assert(spec_fs_nodes_from(sm, steps@.len() as int) =~= Seq::<Seq<char>>::empty());
        assert(strings_model(items@) + Seq::<Seq<char>>::empty() =~= strings_model(items@));
    }
    items
}

/// Counts the steps without raw dependencies.
fn indep_raw(steps: &Vec<ExecutionStep>) -> (r: usize)
    ensures
        r == spec_indep_raw(steps_model(steps@), 0),
{
    let ghost sm = steps_model(steps@);
    proof {
        lemma_steps_model(steps@);
    }
    let mut count: usize = 0;
    let mut i: usize = 0;
    while i < steps.len()
        invariant
            i <= steps@.len(),
            sm == steps_model(steps@),
            sm.len() == steps@.len(),
            forall|k: int| 0 <= k < steps@.len() ==> #[trigger] sm[k] == steps@[k].model(),
            count + spec_indep_raw(sm, i as int) == spec_indep_raw(sm, 0),
            count <= i,
        decreases steps@.len() - i,
    {
        proof {
            crate::ast::lemma_strings_model(steps@[i as int].dependencies@);
        }
        if steps[i].dependencies.len() == 0 {
            count = count + 1;
        }
        i = i + 1;
    }
    count
}

/// Builds JSON string literals for every item.
fn js_list(items: &Vec<String>) -> (r: Vec<String>)
    ensures
        strings_model(r@) == spec_js_list(strings_model(items@), 0),
{
    let ghost m = strings_model(items@);
    proof {
        lemma_strings_model(items@);
    }
    let mut out: Vec<String> = Vec::new();
    let mut i: usize = 0;
    proof {
        assert(strings_model(out@) =~= Seq::<Seq<char>>::empty());
        assert(strings_model(out@) + spec_js_list(m, 0) =~= spec_js_list(m, 0));
    }
    while i < items.len()
        invariant
            i <= items@.len(),
            m == strings_model(items@),
            m.len() == items@.len(),
            forall|k: int| 0 <= k < items@.len() ==> #[trigger] m[k] == items@[k]@,
            strings_model(out@) + spec_js_list(m, i as int) == spec_js_list(m, 0),
        decreases items@.len() - i,
    {
        let j = json_string(&items[i]);
        proof {
            lemma_strings_model_push(out@, j);
            assert(strings_model(out@).push(j@) + spec_js_list(m, i + 1) =~= strings_model(
                out@,
            ) + (seq![spec_json_string(m[i as int])] + spec_js_list(m, i + 1)));
        }
        out.push(j);
        i = i + 1;
    }
    proof {
        assert(spec_js_list(m, items@.len() as int) =~= Seq::<Seq<char>>::empty());
        assert(strings_model(out@) + Seq::<Seq<char>>::empty() =~= strings_model(out@));
    }
    out
}

/// Builds the orchestration step texts.
fn ghd_steps(steps: &Vec<ExecutionStep>) -> (r: Vec<String>)
    ensures
        strings_model(r@) == spec_ghd_steps_from(steps_model(steps@), 0),
{
    let ghost sm = steps_model(steps@);
    proof {
        lemma_steps_model(steps@);
    }
    let mut items: Vec<String> = Vec::new();
    let mut i: usize = 0;
    proof {
        assert(strings_model(items@) =~= Seq::<Seq<char>>::empty());
        assert(strings_model(items@) + spec_ghd_steps_from(sm, 0) =~= spec_ghd_steps_from(
            sm,
            0,
        ));
    }
    while i < steps.len()
        invariant
            i <= steps@.len(),
            sm == steps_model(steps@),
            sm.len() == steps@.len(),
            forall|k: int| 0 <= k < steps@.len() ==> #[trigger] sm[k] == steps@[k].model(),
            strings_model(items@) + spec_ghd_steps_from(sm, i as int) == spec_ghd_steps_from(
                sm,
                0,
            ),
        decreases steps@.len() - i,
    {
        let s = &steps[i];
        let deps_json = js_list(&s.dependencies);
        let deps_joined = join_strings(&deps_json, ",");
        let item = <String as StringExecFns>::from_str("{\"id\":").concat(
            json_string(&s.step_id).as_str(),
        ).concat(",\"stage\":").concat(json_string(&s.stage_name).as_str()).concat(
            ",\"priority\":",
        ).concat(milli_str(s.priority).as_str()).concat(",\"dependencies\":[").concat(
            deps_joined.as_str(),
        ).concat("]}");
        proof {
            assert(item@ == spec_ghd_step(sm[i as int]));
            lemma_strings_model_push(items@, item);
            assert(strings_model(items@).push(item@) + spec_ghd_steps_from(sm, i + 1)
                =~= strings_model(items@) + (seq![spec_ghd_step(sm[i as int])]
                + spec_ghd_steps_from(sm, i + 1)));
        }
        items.push(item);
        i = i + 1;
    }
    proof {
        assert(spec_ghd_steps_from(sm, steps@.len() as int) =~= Seq::<Seq<char>>::empty());
        assert(strings_model(items@) + Seq::<Seq<char>>::empty() =~= strings_model(items@));
    }
    items
}

/// Computes the complexity assessment.
fn complexity(steps: &Vec<ExecutionStep>) -> (r: u64)
    ensures
        r == spec_complexity(steps_model(steps@)),
{
    let ghost sm = steps_model(steps@);
    proof {
        lemma_steps_model(steps@);
    }
    if steps.len() == 0 {
        return 0;
    }
    let n = steps.len();
    let mut dep_sum: u128 = 0;
    let mut i: usize = 0;
    while i < steps.len()
        invariant
            i <= steps@.len(),
            sm == steps_model(steps@),
            sm.len() == steps@.len(),
            forall|k: int| 0 <= k < steps@.len() ==> #[trigger] sm[k] == steps@[k].model(),
            dep_sum + spec_raw_dep_sum(sm, i as int) == spec_raw_dep_sum(sm, 0),
            dep_sum <= i * (u64::MAX as int),
        decreases steps@.len() - i,
    {
        proof {
            crate::ast::lemma_strings_model(steps@[i as int].dependencies@);
            assert((i + 1) * (u64::MAX as int) == i * (u64::MAX as int) + u64::MAX);
        }
        dep_sum = dep_sum + steps[i].dependencies.len() as u128;
        i = i + 1;
    }
    let capped: u64 = if dep_sum > RES_MAX as u128 {
        RES_MAX
    } else {
        dep_sum as u64
    };
    let avg: u64 = {
        let wide: u128 = (capped as u128) * 1000 / (n as u128);
        if wide > RES_MAX as u128 {
            RES_MAX
        } else {
            wide as u64
        }
    };
    let seq_total = crate::totals::calculate_total_resources(
        steps,
        crate::compiler::ExecutionMode::Sequential,
    );
    let ln_milli = log2_floor(n as u64) * 693;
    proof {
        crate::totals::lemma_sum_from_wf(sm, 0, spec_zero_resources());
        assert(seq_total.cpu_cores <= RES_MAX);
    }
    (ln_milli + avg + seq_total.cpu_cores) / 3
}

/// A value that fits a machine word has logarithm at most sixty-four.
proof fn lemma_log2_u64(n: nat)
    requires
        n <= u64::MAX,
    ensures
        spec_log2(n) <= 64,
{
    vstd::arithmetic::power2::lemma2_to64();
    lemma_log2_below(n, 64);
}

/// The logarithm of anything below two to the `k` is at most `k`.
proof fn lemma_log2_below(n: nat, k: nat)
    requires
        n < vstd::arithmetic::power2::pow2(k),
    ensures
        spec_log2(n) <= k,
    decreases n,
{
    if n > 1 {
        assert(k > 0) by {
            if k == 0 {
                vstd::arithmetic::power2::lemma_pow2_unfold(1);
                assert(vstd::arithmetic::power2::pow2(0) == 1) by {
                    vstd::arithmetic::power2::lemma2_to64();
                }
            }
        }
        vstd::arithmetic::power2::lemma_pow2_unfold(k);
        lemma_log2_below(n / 2, (k - 1) as nat);
    }
}

/// Builds a per-step list of JSON string items, one or two per step
/// depending on its requirements.
fn uncertainty_list(steps: &Vec<ExecutionStep>) -> (r: Vec<String>)
    ensures
        strings_model(r@) == spec_uncertainty_from(steps_model(steps@), 0),
{
    let ghost sm = steps_model(steps@);
    proof {
        lemma_steps_model(steps@);
    }
    let mut items: Vec<String> = Vec::new();
    let mut i: usize = 0;
    proof {
        assert(strings_model(items@) =~= Seq::<Seq<char>>::empty());
        assert(strings_model(items@) + spec_uncertainty_from(sm, 0) =~= spec_uncertainty_from(
            sm,
            0,
        ));
    }
    while i < steps.len()
        invariant
            i <= steps@.len(),
            sm == steps_model(steps@),
            sm.len() == steps@.len(),
            forall|k: int| 0 <= k < steps@.len() ==> #[trigger] sm[k] == steps@[k].model(),
            strings_model(items@) + spec_uncertainty_from(sm, i as int)
                == spec_uncertainty_from(sm, 0),
        decreases steps@.len() - i,
    {
        let s = &steps[i];
        let ghost before = strings_model(items@);
        let ghost first: Seq<Seq<char>> = if sm[i as int]
            .resource_requirements.estimated_duration_seconds > 30000 {
            seq![spec_json_string("Long duration step: "@ + sm[i as int].stage_name)]
        } else {
            Seq::<Seq<char>>::empty()
        };
        let ghost second: Seq<Seq<char>> = if sm[i as int].resource_requirements.gpu_units > 0
            && sm[i as int].resource_requirements.gpu_units < 1000 {
            seq![spec_json_string("Partial GPU utilization: "@ + sm[i as int].stage_name)]
        } else {
            Seq::<Seq<char>>::empty()
        };
        if s.resource_requirements.estimated_duration_seconds > 30000 {
            let text = <String as StringExecFns>::from_str("Long duration step: ").concat(
                s.stage_name.as_str(),
            );
            let j = json_string(&text);
            proof {
                lemma_strings_model_push(items@, j);
            }
            items.push(j);
        }
        if s.resource_requirements.gpu_units > 0 && s.resource_requirements.gpu_units < 1000 {
            let text = <String as StringExecFns>::from_str(
                "Partial GPU utilization: ",
            ).concat(s.stage_name.as_str());
            let j = json_string(&text);
            proof {
                lemma_strings_model_push(items@, j);
            }
            items.push(j);
        }
        proof {
            assert(strings_model(items@) =~= before + first + second);
            assert(before + first + second + spec_uncertainty_from(sm, i + 1) =~= before + (
            first + second + spec_uncertainty_from(sm, i + 1)));
        }
        i = i + 1;
    }
    proof {
        assert(spec_uncertainty_from(sm, steps@.len() as int) =~= Seq::<Seq<char>>::empty());
        assert(strings_model(items@) + Seq::<Seq<char>>::empty() =~= strings_model(items@));
    }
    items
}

/// Builds the fallback-strategy list.
fn fallback_list(steps: &Vec<ExecutionStep>) -> (r: Vec<String>)
    ensures
        strings_model(r@) == spec_fallback_from(steps_model(steps@), 0),
{
    let ghost sm = steps_model(steps@);
    proof {
        lemma_steps_model(steps@);
    }
    let mut items: Vec<String> = Vec::new();
    let mut i: usize = 0;
    proof {
        assert(strings_model(items@) =~= Seq::<Seq<char>>::empty());
        assert(strings_model(items@) + spec_fallback_from(sm, 0) =~= spec_fallback_from(
            sm,
            0,
        ));
    }
    while i < steps.len()
        invariant
            i <= steps@.len(),
            sm == steps_model(steps@),
            sm.len() == steps@.len(),
            forall|k: int| 0 <= k < steps@.len() ==> #[trigger] sm[k] == steps@[k].model(),
            strings_model(items@) + spec_fallback_from(sm, i as int) == spec_fallback_from(
                sm,
                0,
            ),
        decreases steps@.len() - i,
    {
        let s = &steps[i];
        let ghost before = strings_model(items@);
        let ghost first: Seq<Seq<char>> = if sm[i as int].resource_requirements.cpu_cores
            > 4000 {
            seq![spec_json_string("Reduce parallel processing for "@ + sm[i as int].stage_name)]
        } else {
            Seq::<Seq<char>>::empty()
        };
        let ghost second: Seq<Seq<char>> = if sm[i as int].resource_requirements.memory_gb
            > 8000 {
            seq![spec_json_string("Use memory streaming for "@ + sm[i as int].stage_name)]
        } else {
            Seq::<Seq<char>>::empty()
        };
        if s.resource_requirements.cpu_cores > 4000 {
            let text = <String as StringExecFns>::from_str(
                "Reduce parallel processing for ",
            ).concat(s.stage_name.as_str());
            let j = json_string(&text);
            proof {
                lemma_strings_model_push(items@, j);
            }
            items.push(j);
        }
        if s.resource_requirements.memory_gb > 8000 {
            let text = <String as StringExecFns>::from_str(
                "Use memory streaming for ",
            ).concat(s.stage_name.as_str());
            let j = json_string(&text);
            proof {
                lemma_strings_model_push(items@, j);
            }
            items.push(j);
        }
        proof {
            assert(strings_model(items@) =~= before + first + second);
            assert(before + first + second + spec_fallback_from(sm, i + 1) =~= before + (first
                + second + spec_fallback_from(sm, i + 1)));
        }
        i = i + 1;
    }
    proof {
        assert(spec_fallback_from(sm, steps@.len() as int) =~= Seq::<Seq<char>>::empty());
        assert(strings_model(items@) + Seq::<Seq<char>>::empty() =~= strings_model(items@));
    }
    items
}

/// Builds the critical-stage list.
fn critical_list(steps: &Vec<ExecutionStep>) -> (r: Vec<String>)
    ensures
        strings_model(r@) == spec_critical_from(steps_model(steps@), 0),
{
    let ghost sm = steps_model(steps@);
    proof {
        lemma_steps_model(steps@);
    }
    let mut items: Vec<String> = Vec::new();
    let mut i: usize = 0;
    proof {
        assert(strings_model(items@) =~= Seq::<Seq<char>>::empty());
        assert(strings_model(items@) + spec_critical_from(sm, 0) =~= spec_critical_from(
            sm,
            0,
        ));
    }
    while i < steps.len()
        invariant
            i <= steps@.len(),
            sm == steps_model(steps@),
            sm.len() == steps@.len(),
            forall|k: int| 0 <= k < steps@.len() ==> #[trigger] sm[k] == steps@[k].model(),
            strings_model(items@) + spec_critical_from(sm, i as int) == spec_critical_from(
                sm,
                0,
            ),
        decreases steps@.len() - i,
    {
        if steps[i].resource_requirements.cpu_cores > 3000 {
            let j = json_string(&steps[i].stage_name);
            proof {
                lemma_strings_model_push(items@, j);
                assert(strings_model(items@).push(j@) + spec_critical_from(sm, i + 1)
                    =~= strings_model(items@) + (seq![
                    spec_json_string(sm[i as int].stage_name)
                ] + spec_critical_from(sm, i + 1)));
            }
            items.push(j);
        }
        i = i + 1;
    }
    proof {
        assert(spec_critical_from(sm, steps@.len() as int) =~= Seq::<Seq<char>>::empty());
        assert(strings_model(items@) + Seq::<Seq<char>>::empty() =~= strings_model(items@));
    }
    items
}

/// Counts the steps using any processor units.
fn gpu_steps(steps: &Vec<ExecutionStep>) -> (r: usize)
    ensures
        r == spec_gpu_steps(steps_model(steps@), 0),
{
    let ghost sm = steps_model(steps@);
    proof {
        lemma_steps_model(steps@);
    }
    let mut count: usize = 0;
    let mut i: usize = 0;
    while i < steps.len()
        invariant
            i <= steps@.len(),
            sm == steps_model(steps@),
            sm.len() == steps@.len(),
            forall|k: int| 0 <= k < steps@.len() ==> #[trigger] sm[k] == steps@[k].model(),
            count + spec_gpu_steps(sm, i as int) == spec_gpu_steps(sm, 0),
            count <= i,
        decreases steps@.len() - i,
    {
        if steps[i].resource_requirements.gpu_units > 0 {
            count = count + 1;
        }
        i = i + 1;
    }
    count
}

/// Builds the opportunity list.
fn opportunities_list(steps: &Vec<ExecutionStep>) -> (r: Vec<String>)
    ensures
        strings_model(r@) == spec_opportunities(steps_model(steps@)),
{
    let ghost sm = steps_model(steps@);
    proof {
        lemma_steps_model(steps@);
    }
    let sums = crate::totals::resource_sums(steps);
    let g = gpu_steps(steps);
    let mut items: Vec<String> = Vec::new();
    proof {
        assert(strings_model(items@) =~= Seq::<Seq<char>>::empty());
    }
    if sums.estimated_duration_seconds > 120000 {
        let t = <String as StringExecFns>::from_str(
            "Consider parallelization to reduce total execution time",
        );
        let j = json_string(&t);
        proof {
            lemma_strings_model_push(items@, j);
        }
        items.push(j);
    }
    if g > 0 && g < steps.len() {
        let t = <String as StringExecFns>::from_str(
            "Mixed GPU/CPU workload detected, consider resource scheduling",
        );
        let j = json_string(&t);
        proof {
            lemma_strings_model_push(items@, j);
        }
        items.push(j);
    }
    proof {
        assert(strings_model(items@) =~= spec_opportunities(sm));
    }
    items
}

/// Compiles the three descriptive artifacts.
pub fn generate_auxiliary_files(
    protocol_name: &String,
    steps: &Vec<ExecutionStep>,
) -> (r: crate::compiler::AuxiliaryFiles)
    ensures
        r.fs_content@ == spec_fs_content(protocol_name@, steps_model(steps@)),
        r.ghd_content@ == spec_ghd_content(protocol_name@, steps_model(steps@)),
        r.hre_content@ == spec_hre_content(protocol_name@, steps_model(steps@)),
{
    let ghost sm = steps_model(steps@);
    proof {
        lemma_steps_model(steps@);
    }
    let nodes = fs_nodes(steps);
    let sums = crate::totals::resource_sums(steps);
    let fs_content = <String as StringExecFns>::from_str("{\"protocol_name\":").concat(
        json_string(protocol_name).as_str(),
    ).concat(",\"network_topology\":{\"nodes\":[").concat(
        join_strings(&nodes, ",").as_str(),
    ).concat("],\"edges\":[],\"consciousness_levels\":{}},\"processing_flow\":{\"stages\":")
        .concat(dec_str(steps.len() as u64).as_str()).concat(",\"parallel_capacity\":").concat(
        dec_str(indep_raw(steps) as u64).as_str(),
    ).concat(",\"complexity_score\":").concat(milli_str(sums.cpu_cores).as_str()).concat(
        "}}",
    );
    proof {
        assert(spec_dec_str(steps@.len() as nat) == spec_dec_str(sm.len()));
        assert(fs_content@ == spec_fs_content(protocol_name@, sm));
    }
    let t = crate::totals::calculate_total_resources(
        steps,
        crate::compiler::ExecutionMode::Adaptive,
    );
    let gsteps = ghd_steps(steps);
    let ghd_content = <String as StringExecFns>::from_str("{\"protocol_name\":").concat(
        json_string(protocol_name).as_str(),
    ).concat(",\"resource_allocation\":{\"cpu_cores\":").concat(
        milli_str(t.cpu_cores).as_str(),
    ).concat(",\"memory_gb\":").concat(milli_str(t.memory_gb).as_str()).concat(
        ",\"gpu_units\":",
    ).concat(milli_str(t.gpu_units).as_str()).concat(",\"network_bandwidth_mbps\":").concat(
        milli_str(t.network_bandwidth_mbps).as_str(),
    ).concat(",\"storage_gb\":").concat(milli_str(t.storage_gb).as_str()).concat(
        "},\"orchestration_plan\":{\"execution_mode\":\"adaptive\",\"estimated_duration\":",
    ).concat(milli_str(t.estimated_duration_seconds).as_str()).concat(",\"steps\":[").concat(
        join_strings(&gsteps, ",").as_str(),
    ).concat("]}}");
    proof {
        assert(ghd_content@ == spec_ghd_content(protocol_name@, sm));
    }
    let unc = uncertainty_list(steps);
    let opp = opportunities_list(steps);
    let crit = critical_list(steps);
    let fall = fallback_list(steps);
    let hre_content = <String as StringExecFns>::from_str("{\"protocol_name\":").concat(
        json_string(protocol_name).as_str(),
    ).concat(",\"metacognitive_profile\":{\"complexity_assessment\":").concat(
        milli_str(complexity(steps)).as_str(),
    ).concat(",\"uncertainty_factors\":[").concat(join_strings(&unc, ",").as_str()).concat(
        "],\"optimization_opportunities\":[",
    ).concat(join_strings(&opp, ",").as_str()).concat(
        "]},\"decision_memory\":{\"critical_stages\":[",
    ).concat(join_strings(&crit, ",").as_str()).concat("],\"fallback_strategies\":[").concat(
        join_strings(&fall, ",").as_str(),
    ).concat("]}}");
    proof {
        assert(hre_content@ == spec_hre_content(protocol_name@, sm));
    }
    crate::compiler::AuxiliaryFiles { fs_content, ghd_content, hre_content }
}

} // verus!
