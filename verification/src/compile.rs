//! Compilation: a parsed script to an executable protocol.
//!
//! Compilation extracts one step per pipeline-stage node, resolves the
//! dependency graph, rejects cyclic graphs, chooses the execution mode,
//! lays out the execution order and parallel groups, aggregates resources,
//! emits the descriptive artifacts, and derives optimization hints.
//! `spec_compile` pins the entire result; compilation of equal scripts
//! yields equal protocols.

use vstd::prelude::*;

use vstd::string::StringExecFns;

use crate::ast::{
    deps_model, lemma_nodes_model, lemma_strings_model, lemma_strings_model_push, nodes_model,
    strings_model, NodeModel, NodeType, ScriptModel, TurbulanceScript,
};
use crate::compiler::{
    lemma_steps_model, lemma_steps_model_push, steps_model, CompiledProtocol, ExecutionMode,
    ExecutionStep, ProtocolModel, StepModel,
};
use crate::fixed::{mul_milli, spec_mul_milli};
use crate::plan::{
    layering, lemma_layers_topological, seq_contains, spec_all_done, spec_big_groups,
    spec_concat_layers, spec_deps_of, spec_graph, spec_ids, spec_is_topological, spec_layers,
};
use crate::stages::{
    adjust_resource_requirements, map_stage, resource_model, spec_adjust, spec_neg_override,
    spec_resource_model, spec_stage_mapping,
};
use crate::totals::{calculate_total_resources, spec_steps_wf, spec_total_resources};
use crate::value::{obj_get, obj_model, TurbulanceValue, Val};
use crate::FourSidedTriangleError;

verus! {

/// The step extracted from one pipeline-stage node, or the message of the
/// validation failure it raises.
pub open spec fn spec_extract_from(
    proto: Seq<char>,
    calls: Seq<NodeModel>,
    i: int,
    seen: Seq<Seq<char>>,
) -> Result<Seq<StepModel>, Seq<char>>
    decreases calls.len() - i,
{
    if i < 0 || i >= calls.len() {
        Ok(Seq::empty())
    } else {
        let n = calls[i];
        if n.node_type != NodeType::PipelineStage {
            spec_extract_from(proto, calls, i + 1, seen)
        } else if n.name is None {
            Err("Pipeline stage missing variable name"@)
        } else {
            let var = n.name->0;
            if seq_contains(seen, var) {
                Err("Duplicate variable name in protocol"@)
            } else {
                match obj_get(n.parameters, "stage"@) {
                    Some(Val::Str(stg)) => {
                        let actual = spec_stage_mapping(stg);
                        let base = spec_resource_model(actual);
                        let cfg_or: Option<Seq<(Seq<char>, Val)>> = match obj_get(
                            n.parameters,
                            "config"@,
                        ) {
                            Some(Val::Object(cfg)) => Some(cfg),
                            _ => None,
                        };
                        if cfg_or is Some && spec_neg_override(cfg_or->0) {
                            Err("Negative resource override in configuration"@)
                        } else {
                            let adjusted = match cfg_or {
                                Some(cfg) => spec_adjust(base, cfg),
                                None => base,
                            };
                            let step = StepModel {
                                step_id: proto + "_"@ + var,
                                stage_name: actual,
                                variable_name: var,
                                parameters: n.parameters,
                                dependencies: n.dependencies,
                                resource_requirements: adjusted,
                                line_number: n.line_number,
                                priority: 1000,
                                timeout_seconds: spec_mul_milli(
                                    base.estimated_duration_seconds,
                                    3000,
                                ),
                            };
                            match spec_extract_from(proto, calls, i + 1, seen.push(var)) {
                                Ok(rest) => Ok(seq![step] + rest),
                                Err(m) => Err(m),
                            }
                        }
                    },
                    _ => Err("Pipeline stage missing stage name"@),
                }
            }
        }
    }
}

/// The steps of a script: one per pipeline-stage node.
pub open spec fn spec_extract(s: ScriptModel) -> Result<Seq<StepModel>, Seq<char>> {
    spec_extract_from(s.protocol_name, s.pipeline_calls, 0, Seq::empty())
}

/// Extraction keeps every step's requirements within the resource cap.
pub proof fn lemma_extract_wf(
    proto: Seq<char>,
    calls: Seq<NodeModel>,
    i: int,
    seen: Seq<Seq<char>>,
)
    requires
        spec_extract_from(proto, calls, i, seen) is Ok,
    ensures
        spec_steps_wf(spec_extract_from(proto, calls, i, seen)->Ok_0),
    decreases calls.len() - i,
{
    if 0 <= i < calls.len() {
        let n = calls[i];
        if n.node_type != NodeType::PipelineStage {
            lemma_extract_wf(proto, calls, i + 1, seen);
        } else {
            let var = n.name->0;
            match obj_get(n.parameters, "stage"@) {
                Some(Val::Str(stg)) => {
                    let base = spec_resource_model(spec_stage_mapping(stg));
                    lemma_extract_wf(proto, calls, i + 1, seen.push(var));
                    let r = spec_extract_from(proto, calls, i, seen)->Ok_0;
                    let rest = spec_extract_from(proto, calls, i + 1, seen.push(var))->Ok_0;
                    assert(r.drop_first() =~= rest);
                    assert(forall|k: int|
                        0 <= k < r.len() ==> (#[trigger] r[k].resource_requirements).wf()) by {
                        assert forall|k: int| 0 <= k < r.len() implies (#[trigger] r[k]
                            .resource_requirements).wf() by {
                            if k == 0 {
                                match obj_get(n.parameters, "config"@) {
                                    Some(Val::Object(cfg)) => {
                                        crate::stages::lemma_adjust_wf(base, cfg);
                                    },
                                    _ => {},
                                }
                            } else {
                                assert(r[k] == rest[k - 1]);
                            }
                        }
                    }
                },
                _ => {},
            }
        }
    }
}

/// The message naming a dependency cycle, raised while the execution mode
/// is chosen.
pub open spec fn spec_cycle_message() -> Seq<char> {
    "Circular dependency detected"@
}

/// The message naming a stuck plan: remaining steps with none ready. Plan
/// construction alone raises it; under `compile_protocol` the cycle check
/// runs first, so there it is unreachable.
pub open spec fn spec_deadlock_message() -> Seq<char> {
    "Deadlock in dependency graph"@
}

/// Whether some entry of the graph depends on `id`.
pub open spec fn spec_depended_on(g: Seq<(Seq<char>, Seq<Seq<char>>)>, id: Seq<char>) -> bool {
    exists|j: int| 0 <= j < g.len() && seq_contains((#[trigger] g[j]).1, id)
}

/// The count of independent steps. A step is independent when it touches no
/// dependency edge at all: it carries no resolved dependencies and no step
/// depends on it. Under this reading, a protocol of mutually independent
/// stages is all-independent, and a strictly linear chain has no
/// independent step.
pub open spec fn spec_indep(
    sm: Seq<StepModel>,
    g: Seq<(Seq<char>, Seq<Seq<char>>)>,
    i: int,
) -> int
    decreases sm.len() - i,
{
    if i < 0 || i >= sm.len() {
        0
    } else if spec_deps_of(g, sm[i].step_id).len() == 0 && !spec_depended_on(
        g,
        sm[i].step_id,
    ) {
        1 + spec_indep(sm, g, i + 1)
    } else {
        spec_indep(sm, g, i + 1)
    }
}

/// The total resolved dependency count over the graph's entries.
pub open spec fn spec_sum_deps(g: Seq<(Seq<char>, Seq<Seq<char>>)>, i: int) -> int
    decreases g.len() - i,
{
    if i < 0 || i >= g.len() {
        0
    } else {
        g[i].1.len() + spec_sum_deps(g, i + 1)
    }
}

/// The execution mode chosen for steps, graph and layers: all steps
/// independent runs Parallel; none independent runs Sequential (so a
/// strictly linear chain runs Sequential); otherwise shallow graphs with
/// low fan-in run Adaptive and anything else runs Optimized.
pub open spec fn spec_mode_given(
    sm: Seq<StepModel>,
    g: Seq<(Seq<char>, Seq<Seq<char>>)>,
    ls: Seq<Seq<Seq<char>>>,
) -> ExecutionMode {
    let total = sm.len() as int;
    let ind = spec_indep(sm, g, 0);
    if ind == total {
        ExecutionMode::Parallel
    } else if ind == 0 {
        ExecutionMode::Sequential
    } else if ls.len() <= 3 && spec_sum_deps(g, 0) < 2 * total {
        ExecutionMode::Adaptive
    } else {
        ExecutionMode::Optimized
    }
}

/// The execution mode of steps under a graph, or a cycle failure.
pub open spec fn spec_mode(
    sm: Seq<StepModel>,
    g: Seq<(Seq<char>, Seq<Seq<char>>)>,
) -> Result<ExecutionMode, ()> {
    match spec_layers(spec_ids(sm), g, Seq::empty(), sm.len() as nat) {
        Ok(ls) => Ok(spec_mode_given(sm, g, ls)),
        Err(()) => Err(()),
    }
}

/// The compiled protocol of a script, or the message of the validation
/// failure compilation raises: a pipeline node without a variable name or
/// stage name, a duplicate variable name, a negative resource override, or
/// a dependency cycle.
pub open spec fn spec_compile(s: ScriptModel) -> Result<ProtocolModel, Seq<char>> {
    match spec_extract(s) {
        Err(m) => Err(m),
        Ok(sm) => {
            let g = spec_graph(sm);
            match spec_layers(spec_ids(sm), g, Seq::empty(), sm.len() as nat) {
                Err(()) => Err(spec_cycle_message()),
                Ok(ls) => {
                    let mode = spec_mode_given(sm, g, ls);
                    Ok(
                        ProtocolModel {
                            protocol_name: s.protocol_name,
                            execution_steps: sm,
                            execution_mode: mode,
                            total_resource_requirements: spec_total_resources(sm, mode),
                            dependency_graph: g,
                            execution_order: spec_concat_layers(ls),
                            parallel_groups: spec_big_groups(ls),
                            fs_content: crate::auxfiles::spec_fs_content(s.protocol_name, sm),
                            ghd_content: crate::auxfiles::spec_ghd_content(
                                s.protocol_name,
                                sm,
                            ),
                            hre_content: crate::auxfiles::spec_hre_content(
                                s.protocol_name,
                                sm,
                            ),
                            optimization_hints: crate::hints::spec_hints(sm, g),
                        },
                    )
                },
            }
        },
    }
}

/// Collects the step ids.
fn collect_ids(steps: &Vec<ExecutionStep>) -> (r: Vec<String>)
    ensures
        strings_model(r@) == spec_ids(steps_model(steps@)),
{
    let ghost sm = steps_model(steps@);
    proof {
        lemma_steps_model(steps@);
        lemma_spec_ids(sm);
    }
    let mut ids: Vec<String> = Vec::new();
    let mut i: usize = 0;
    proof {
        lemma_strings_model(ids@);
        assert(strings_model(ids@) =~= spec_ids(sm).take(0));
    }
    while i < steps.len()
        invariant
            i <= steps@.len(),
            sm == steps_model(steps@),
            sm.len() == steps@.len(),
            forall|k: int| 0 <= k < steps@.len() ==> #[trigger] sm[k] == steps@[k].model(),
            spec_ids(sm).len() == sm.len(),
            forall|k: int| 0 <= k < sm.len() ==> #[trigger] spec_ids(sm)[k] == sm[k].step_id,
            strings_model(ids@) == spec_ids(sm).take(i as int),
        decreases steps@.len() - i,
    {
        let id = steps[i].step_id.clone();
        proof {
            lemma_strings_model_push(ids@, id);
            assert(spec_ids(sm).take(i + 1) =~= spec_ids(sm).take(i as int).push(
                spec_ids(sm)[i as int],
            ));
        }
        ids.push(id);
        i = i + 1;
    }
    proof {
        assert(spec_ids(sm).take(sm.len() as int) =~= spec_ids(sm));
    }
    ids
}

/// `spec_ids` maps the steps elementwise.
pub proof fn lemma_spec_ids(sm: Seq<StepModel>)
    ensures
        spec_ids(sm).len() == sm.len(),
        forall|k: int| 0 <= k < sm.len() ==> #[trigger] spec_ids(sm)[k] == sm[k].step_id,
    decreases sm,
{
    if sm.len() > 0 {
        lemma_spec_ids(sm.drop_first());
    }
}

/// Extracts one execution step per pipeline-stage node. Fails exactly when
/// a pipeline node lacks a variable name or stage name, repeats a variable
/// name, or carries a negative resource override.
pub fn extract_execution_steps(script: &TurbulanceScript) -> (r: Result<
    Vec<ExecutionStep>,
    FourSidedTriangleError,
>)
    ensures
        match r {
            Ok(steps) => spec_extract(script.model()) == Ok::<_, Seq<char>>(
                steps_model(steps@),
            ),
            Err(e) => spec_extract(script.model()) is Err && (
            e matches FourSidedTriangleError::ValidationError { message } && message@
                == spec_extract(script.model())->Err_0),
        },
{
    let ghost sc = script.model();
    let ghost pm = nodes_model(script.pipeline_calls@);
    proof {
        lemma_nodes_model(script.pipeline_calls@);
    }
    let mut steps: Vec<ExecutionStep> = Vec::new();
    let mut seen: Vec<String> = Vec::new();
    let mut i: usize = 0;
    proof {
        lemma_strings_model(seen@);
        assert(strings_model(seen@) =~= Seq::<Seq<char>>::empty());
        assert(steps_model(steps@) =~= Seq::<StepModel>::empty());
    }
    while i < script.pipeline_calls.len()
        invariant
            i <= script.pipeline_calls@.len(),
            sc == script.model(),
            pm == nodes_model(script.pipeline_calls@),
            pm.len() == script.pipeline_calls@.len(),
            forall|k: int|
                0 <= k < script.pipeline_calls@.len() ==> #[trigger] pm[k]
                    == script.pipeline_calls@[k].model(),
            sc.pipeline_calls == pm,
            sc.protocol_name == script.protocol_name@,
            ({
                let whole = spec_extract_from(sc.protocol_name, pm, 0, Seq::empty());
                let rest = spec_extract_from(
                    sc.protocol_name,
                    pm,
                    i as int,
                    strings_model(seen@),
                );
                match rest {
                    Ok(tail) => whole == Ok::<_, Seq<char>>(steps_model(steps@) + tail),
                    Err(m) => whole is Err && whole->Err_0 == m,
                }
            }),
        decreases script.pipeline_calls@.len() - i,
    {
        let node = &script.pipeline_calls[i];
        if !matches!(node.node_type, NodeType::PipelineStage) {
            i = i + 1;
            continue ;
        }
        let var = match &node.name {
            Some(nm) => nm,
            None => {
                return Err(
                    FourSidedTriangleError::ValidationError {
                        message: <String as StringExecFns>::from_str(
                            "Pipeline stage missing variable name",
                        ),
                    },
                );
            },
        };
        if crate::plan::contains_str(&seen, var) {
            return Err(
                FourSidedTriangleError::ValidationError {
                    message: <String as StringExecFns>::from_str(
                        "Duplicate variable name in protocol",
                    ),
                },
            );
        }
        let stage_key = <String as StringExecFns>::from_str("stage");
        let stage = match crate::value::object_get(&node.parameters, &stage_key) {
            Some(TurbulanceValue::Str(s)) => s,
            _ => {
                return Err(
                    FourSidedTriangleError::ValidationError {
                        message: <String as StringExecFns>::from_str(
                            "Pipeline stage missing stage name",
                        ),
                    },
                );
            },
        };
        let actual = map_stage(stage);
        let base = resource_model(&actual);
        let cfg_key = <String as StringExecFns>::from_str("config");
        let adjusted = match crate::value::object_get(&node.parameters, &cfg_key) {
            Some(TurbulanceValue::Object(cfg)) => {
                match adjust_resource_requirements(base, cfg) {
                    Ok(a) => a,
                    Err(()) => {
                        return Err(
                            FourSidedTriangleError::ValidationError {
                                message: <String as StringExecFns>::from_str(
                                    "Negative resource override in configuration",
                                ),
                            },
                        );
                    },
                }
            },
            _ => base,
        };
        let step_id = script.protocol_name.clone().concat("_").concat(var.as_str());
        let step = ExecutionStep {
            step_id,
            stage_name: actual,
            variable_name: var.clone(),
            parameters: crate::value::dup_pairs(&node.parameters),
            dependencies: crate::plan::clone_strings(&node.dependencies),
            resource_requirements: adjusted,
            line_number: node.line_number,
            priority: 1000,
            timeout_seconds: mul_milli(base.estimated_duration_seconds, 3000),
        };
        proof {
            lemma_steps_model_push(steps@, step);
            lemma_strings_model_push(seen@, *var);
            assert(step.step_id@ == sc.protocol_name + "_"@ + var@);
            assert(obj_model(step.parameters@) == pm[i as int].parameters);
            assert(strings_model(step.dependencies@) == pm[i as int].dependencies);
            let sm_old = strings_model(seen@);
            let rest_now = spec_extract_from(sc.protocol_name, pm, i + 1, sm_old.push(var@));
            match rest_now {
                Ok(tail) => {
                    assert(spec_extract_from(sc.protocol_name, pm, i as int, sm_old)
                        == Ok::<Seq<StepModel>, Seq<char>>(seq![step.model()] + tail));
                    assert(steps_model(steps@).push(step.model()) + tail =~= steps_model(
                        steps@,
                    ) + (seq![step.model()] + tail));
                },
                Err(m) => {
                    assert(spec_extract_from(sc.protocol_name, pm, i as int, sm_old)
                        == Err::<Seq<StepModel>, Seq<char>>(m));
                },
            }
        }
        steps.push(step);
        seen.push(var.clone());
        i = i + 1;
    }
    proof {
        assert(spec_extract_from(
            sc.protocol_name,
            pm,
            script.pipeline_calls@.len() as int,
            strings_model(seen@),
        ) == Ok::<Seq<StepModel>, Seq<char>>(Seq::empty()));
        assert(steps_model(steps@) + Seq::<StepModel>::empty() =~= steps_model(steps@));
    }
    Ok(steps)
}

/// Tests whether any graph entry depends on `id`.
fn depended_on(graph: &Vec<(String, Vec<String>)>, id: &String) -> (r: bool)
    ensures
        r == spec_depended_on(deps_model(graph@), id@),
{
    let ghost g = deps_model(graph@);
    proof {
        crate::ast::lemma_deps_model(graph@);
    }
    let mut j: usize = 0;
    while j < graph.len()
        invariant
            j <= graph@.len(),
            g == deps_model(graph@),
            g.len() == graph@.len(),
            forall|k: int|
                0 <= k < graph@.len() ==> #[trigger] g[k] == (
                    graph@[k].0@,
                    strings_model(graph@[k].1@),
                ),
            forall|k: int| 0 <= k < j ==> !seq_contains((#[trigger] g[k]).1, id@),
        decreases graph@.len() - j,
    {
        if crate::plan::contains_str(&graph[j].1, id) {
            proof {
                assert(seq_contains(g[j as int].1, id@));
            }
            return true;
        }
        j = j + 1;
    }
    false
}

/// Chooses the execution mode of the steps under the graph. Fails exactly
/// when the graph is cyclic.
pub fn determine_execution_mode(
    steps: &Vec<ExecutionStep>,
    graph: &Vec<(String, Vec<String>)>,
) -> (r: Result<ExecutionMode, FourSidedTriangleError>)
    ensures
        ({
            let spec = spec_mode(steps_model(steps@), deps_model(graph@));
            match r {
                Ok(m) => spec == Ok::<_, ()>(m),
                Err(e) => spec is Err && (e matches FourSidedTriangleError::ValidationError {
                    message,
                } && message@ == spec_cycle_message()),
            }
        }),
{
    let ghost sm = steps_model(steps@);
    let ghost g = deps_model(graph@);
    proof {
        lemma_steps_model(steps@);
    }
    let ids = collect_ids(steps);
    proof {
        lemma_strings_model(ids@);
        lemma_spec_ids(sm);
        assert(ids@.len() == sm.len());
        crate::ast::lemma_deps_model(graph@);
    }
    let ls = match layering(&ids, graph) {
        Ok(ls) => ls,
        Err(()) => {
            return Err(
                FourSidedTriangleError::ValidationError {
                    message: <String as StringExecFns>::from_str(
                        "Circular dependency detected",
                    ),
                },
            );
        },
    };
    proof {
        crate::compiler::lemma_groups_model(ls@);
    }
    // Count the independent steps.
    let mut indep: usize = 0;
    let mut i: usize = 0;
    while i < steps.len()
        invariant
            i <= steps@.len(),
            sm == steps_model(steps@),
            g == deps_model(graph@),
            sm.len() == steps@.len(),
            forall|k: int| 0 <= k < steps@.len() ==> #[trigger] sm[k] == steps@[k].model(),
            indep + spec_indep(sm, g, i as int) == spec_indep(sm, g, 0),
            indep <= i,
        decreases steps@.len() - i,
    {
        let no_deps = match crate::plan::graph_deps(graph, &steps[i].step_id) {
            Some(d) => {
                proof {
                    lemma_strings_model(d@);
                }
                d.len() == 0
            },
            None => true,
        };
        if no_deps && !depended_on(graph, &steps[i].step_id) {
            indep = indep + 1;
        }
        i = i + 1;
    }
    // Sum the resolved dependency counts.
    let mut dsum: u128 = 0;
    let mut k: usize = 0;
    while k < graph.len()
        invariant
            k <= graph@.len(),
            g == deps_model(graph@),
            g.len() == graph@.len(),
            forall|j: int|
                0 <= j < graph@.len() ==> #[trigger] g[j] == (
                    graph@[j].0@,
                    strings_model(graph@[j].1@),
                ),
            dsum + spec_sum_deps(g, k as int) == spec_sum_deps(g, 0),
            dsum <= k * (u64::MAX as int),
        decreases graph@.len() - k,
    {
        proof {
            lemma_strings_model(graph@[k as int].1@);
            assert((k + 1) * (u64::MAX as int) == k * (u64::MAX as int) + u64::MAX);
        }
        dsum = dsum + graph[k].1.len() as u128;
        k = k + 1;
    }
    let total = steps.len();
    if indep == total {
        Ok(ExecutionMode::Parallel)
    } else if indep == 0 {
        Ok(ExecutionMode::Sequential)
    } else if ls.len() <= 3 && dsum < 2 * (total as u128) {
        Ok(ExecutionMode::Adaptive)
    } else {
        Ok(ExecutionMode::Optimized)
    }
}

/// Computes the execution order and the parallel groups. Fails, reporting
/// a stuck plan, exactly when remaining steps have no ready member — which
/// happens exactly on a cyclic graph.
pub fn calculate_execution_plan(
    steps: &Vec<ExecutionStep>,
    graph: &Vec<(String, Vec<String>)>,
) -> (r: Result<(Vec<String>, Vec<Vec<String>>), FourSidedTriangleError>)
    ensures
        ({
            let spec = spec_layers(
                spec_ids(steps_model(steps@)),
                deps_model(graph@),
                Seq::empty(),
                steps_model(steps@).len() as nat,
            );
            match r {
                Ok((order, groups)) => spec is Ok && strings_model(order@)
                    == spec_concat_layers(spec->Ok_0) && crate::compiler::groups_model(groups@)
                    == spec_big_groups(spec->Ok_0),
                Err(e) => spec is Err && (e matches FourSidedTriangleError::ValidationError {
                    message,
                } && message@ == spec_deadlock_message()),
            }
        }),
{
    let ghost sm = steps_model(steps@);
    let ghost g = deps_model(graph@);
    proof {
        lemma_steps_model(steps@);
        lemma_spec_ids(sm);
    }
    let ids = collect_ids(steps);
    let ls = match layering(&ids, graph) {
        Ok(ls) => ls,
        Err(()) => {
            proof {
                lemma_strings_model(ids@);
            }
            return Err(
                FourSidedTriangleError::ValidationError {
                    message: <String as StringExecFns>::from_str(
                        "Deadlock in dependency graph",
                    ),
                },
            );
        },
    };
    let ghost lm = crate::compiler::groups_model(ls@);
    proof {
        crate::compiler::lemma_groups_model(ls@);
        lemma_strings_model(ids@);
    }
    // Flatten the layers into the execution order.
    let mut order: Vec<String> = Vec::new();
    let mut i: usize = 0;
    proof {
        lemma_strings_model(order@);
        assert(strings_model(order@) =~= spec_concat_layers(lm.take(0)));
    }
    while i < ls.len()
        invariant
            i <= ls@.len(),
            lm == crate::compiler::groups_model(ls@),
            lm.len() == ls@.len(),
            forall|k: int|
                0 <= k < ls@.len() ==> #[trigger] lm[k] == strings_model(ls@[k]@),
            strings_model(order@) == spec_concat_layers(lm.take(i as int)),
        decreases ls@.len() - i,
    {
        let layer = crate::plan::clone_strings(&ls[i]);
        let ghost before = strings_model(order@);
        let mut w: usize = 0;
        proof {
            lemma_strings_model(layer@);
            assert(strings_model(layer@).take(0) =~= Seq::<Seq<char>>::empty());
            assert(before + strings_model(layer@).take(0) =~= before);
        }
        while w < layer.len()
            invariant
                w <= layer@.len(),
                strings_model(layer@).len() == layer@.len(),
                forall|k: int|
                    0 <= k < layer@.len() ==> #[trigger] strings_model(layer@)[k]
                        == layer@[k]@,
                strings_model(order@) == before + strings_model(layer@).take(w as int),
            decreases layer@.len() - w,
        {
            let s = layer[w].clone();
            proof {
                lemma_strings_model_push(order@, s);
                assert(strings_model(layer@).take(w + 1) =~= strings_model(layer@).take(
                    w as int,
                ).push(strings_model(layer@)[w as int]));
            }
            order.push(s);
            w = w + 1;
        }
        proof {
            assert(strings_model(layer@).take(layer@.len() as int) =~= strings_model(layer@));
            crate::plan::lemma_layers_push(lm.take(i as int), strings_model(layer@));
            assert(lm.take(i + 1) =~= lm.take(i as int).push(lm[i as int]));
        }
        i = i + 1;
    }
    proof {
        assert(lm.take(lm.len() as int) =~= lm);
    }
    // Keep the layers with more than one member as parallel groups.
    let mut groups: Vec<Vec<String>> = Vec::new();
    let mut j: usize = 0;
    proof {
        crate::compiler::lemma_groups_model(groups@);
        assert(crate::compiler::groups_model(groups@) =~= spec_big_groups(lm.take(0)));
    }
    while j < ls.len()
        invariant
            j <= ls@.len(),
            lm == crate::compiler::groups_model(ls@),
            lm.len() == ls@.len(),
            forall|k: int|
                0 <= k < ls@.len() ==> #[trigger] lm[k] == strings_model(ls@[k]@),
            crate::compiler::groups_model(groups@) == spec_big_groups(lm.take(j as int)),
        decreases ls@.len() - j,
    {
        proof {
            crate::plan::lemma_layers_push(lm.take(j as int), lm[j as int]);
            assert(lm.take(j + 1) =~= lm.take(j as int).push(lm[j as int]));
            lemma_strings_model(ls@[j as int]@);
        }
        if ls[j].len() > 1 {
            let grp = crate::plan::clone_strings(&ls[j]);
            proof {
                crate::compiler::lemma_groups_model_push(groups@, grp);
            }
            groups.push(grp);
        }
        j = j + 1;
    }
    proof {
        assert(lm.take(lm.len() as int) =~= lm);
    }
    Ok((order, groups))
}

/// The count of parallelization hints.
pub open spec fn spec_count_par_hints(hm: Seq<crate::compiler::HintModel>) -> int
    decreases hm,
{
    if hm.len() == 0 {
        0
    } else if hm[0].hint_type == crate::compiler::OptimizationType::Parallelization {
        1 + spec_count_par_hints(hm.drop_first())
    } else {
        spec_count_par_hints(hm.drop_first())
    }
}

/// Counting distributes over push.
proof fn lemma_count_par_hints_push(hm: Seq<crate::compiler::HintModel>, h: crate::compiler::HintModel)
    ensures
        spec_count_par_hints(hm.push(h)) == spec_count_par_hints(hm) + (
        if h.hint_type == crate::compiler::OptimizationType::Parallelization {
            1int
        } else {
            0int
        }),
    decreases hm,
{
    if hm.len() == 0 {
        assert(hm.push(h).drop_first() =~= Seq::<crate::compiler::HintModel>::empty());
        assert(hm.push(h)[0] == h);
        assert(spec_count_par_hints(hm.push(h).drop_first()) == 0);
        assert(spec_count_par_hints(hm) == 0);
    } else {
        assert(hm.push(h).drop_first() =~= hm.drop_first().push(h));
        lemma_count_par_hints_push(hm.drop_first(), h);
        assert(hm.push(h)[0] == hm[0]);
    }
}

/// The compiler with its running statistics.
pub struct TurbulanceCompiler {
    pub protocols_compiled: usize,
    pub total_steps_generated: usize,
    pub optimization_hits: usize,
}

impl TurbulanceCompiler {
    /// A fresh compiler with zeroed statistics.
    pub fn new() -> (r: TurbulanceCompiler)
        ensures
            r.protocols_compiled == 0,
            r.total_steps_generated == 0,
            r.optimization_hits == 0,
    {
        TurbulanceCompiler { protocols_compiled: 0, total_steps_generated: 0, optimization_hits: 0 }
    }

    /// Compiles a parsed script into an executable protocol. Fails exactly
    /// when a pipeline node lacks a variable name or stage name, repeats a
    /// variable name, carries a negative resource override, or when the
    /// dependency graph is cyclic; the error message says which.
    pub fn compile_protocol(&mut self, script: &TurbulanceScript) -> (r: Result<
        CompiledProtocol,
        FourSidedTriangleError,
    >)
        ensures
            match r {
                Ok(p) => spec_compile(script.model()) is Ok && p.model() == spec_compile(
                    script.model(),
                )->Ok_0,
                Err(e) => spec_compile(script.model()) is Err && (
                e matches FourSidedTriangleError::ValidationError { message } && message@
                    == spec_compile(script.model())->Err_0),
            },
            r is Ok ==> final(self).protocols_compiled == crate::script::spec_sat_add(
                old(self).protocols_compiled as int,
                1,
            ),
            r is Err ==> final(self).protocols_compiled == old(self).protocols_compiled,
    {
        let ghost sc = script.model();
        let steps = match extract_execution_steps(script) {
            Ok(steps) => steps,
            Err(e) => {
                return Err(e);
            },
        };
        let ghost sm = steps_model(steps@);
        let graph = crate::plan::build_dependency_graph(&steps);
        let ghost g = deps_model(graph@);
        let mode = match determine_execution_mode(&steps, &graph) {
            Ok(m) => m,
            Err(e) => {
                return Err(e);
            },
        };
        let (order, groups) = match calculate_execution_plan(&steps, &graph) {
            Ok(p) => p,
            Err(e) => {
                proof {
                    assert(false);
                }
                return Err(e);
            },
        };
        let totals = calculate_total_resources(&steps, mode);
        let aux = crate::auxfiles::generate_auxiliary_files(&script.protocol_name, &steps);
        let hints = crate::hints::generate_optimization_hints(&steps, &graph);
        // Count the parallelization hints toward the statistics.
        let mut par_hits: usize = 0;
        let mut hcount: usize = 0;
        let ghost hm = crate::compiler::hints_model(hints@);
        proof {
            crate::compiler::lemma_hints_model(hints@);
            assert(hm.take(0) =~= Seq::<crate::compiler::HintModel>::empty());
        }
        while hcount < hints.len()
            invariant
                hcount <= hints@.len(),
                hm == crate::compiler::hints_model(hints@),
                hm.len() == hints@.len(),
                forall|k: int|
                    0 <= k < hints@.len() ==> #[trigger] hm[k] == hints@[k].model(),
                par_hits == spec_count_par_hints(hm.take(hcount as int)),
                par_hits <= hcount,
            decreases hints@.len() - hcount,
        {
            proof {
                lemma_count_par_hints_push(hm.take(hcount as int), hm[hcount as int]);
                assert(hm.take(hcount + 1) =~= hm.take(hcount as int).push(
                    hm[hcount as int],
                ));
            }
            if matches!(
                hints[hcount].hint_type,
                crate::compiler::OptimizationType::Parallelization
            ) {
                par_hits = par_hits + 1;
            }
            hcount = hcount + 1;
        }
        self.protocols_compiled = crate::script::sat_add(self.protocols_compiled, 1);
        self.total_steps_generated = crate::script::sat_add(
            self.total_steps_generated,
            steps.len(),
        );
        self.optimization_hits = crate::script::sat_add(self.optimization_hits, par_hits);
        let protocol = CompiledProtocol {
            protocol_name: script.protocol_name.clone(),
            execution_steps: steps,
            execution_mode: mode,
            total_resource_requirements: totals,
            dependency_graph: graph,
            execution_order: order,
            parallel_groups: groups,
            auxiliary_files: aux,
            optimization_hints: hints,
        };
        proof {
            assert(protocol.model() == spec_compile(sc)->Ok_0);
        }
        Ok(protocol)
    }

    /// The compiler's statistics, in milli units.
    pub fn get_statistics(&self) -> (r: Vec<(String, u64)>)
        ensures
            r@.len() == 4,
            r@[0].1 == spec_mul_milli(self.protocols_compiled as u64, 1000000),
            r@[1].1 == spec_mul_milli(self.total_steps_generated as u64, 1000000),
            r@[2].1 == spec_mul_milli(self.optimization_hits as u64, 1000000),
            r@[3].1 == crate::fixed::spec_ratio_milli(
                self.total_steps_generated as u64,
                self.protocols_compiled as u64,
            ),
    {
        let mut stats: Vec<(String, u64)> = Vec::new();
        stats.push(
            (
                <String as StringExecFns>::from_str("protocols_compiled"),
                mul_milli(self.protocols_compiled as u64, 1000000),
            ),
        );
        stats.push(
            (
                <String as StringExecFns>::from_str("total_steps_generated"),
                mul_milli(self.total_steps_generated as u64, 1000000),
            ),
        );
        stats.push(
            (
                <String as StringExecFns>::from_str("optimization_hits"),
                mul_milli(self.optimization_hits as u64, 1000000),
            ),
        );
        stats.push(
            (
                <String as StringExecFns>::from_str("avg_steps_per_protocol"),
                crate::fixed::ratio_milli(
                    self.total_steps_generated as u64,
                    self.protocols_compiled as u64,
                ),
            ),
        );
        stats
    }
}

/// Every compiled protocol's execution order is a topological sort of its
/// dependency graph: each step's dependencies appear earlier in the order,
/// and the order schedules exactly the protocol's step ids.
pub proof fn lemma_execution_order_topological(s: ScriptModel)
    requires
        spec_compile(s) is Ok,
    ensures
        ({
            let p = spec_compile(s)->Ok_0;
            spec_is_topological(p.execution_order, p.dependency_graph)
                && p.execution_order.to_multiset() == spec_ids(p.execution_steps).to_multiset()
        }),
{
    let sm = spec_extract(s)->Ok_0;
    let g = spec_graph(sm);
    lemma_layers_topological(spec_ids(sm), g, Seq::empty(), sm.len() as nat);
    let ls = spec_layers(spec_ids(sm), g, Seq::empty(), sm.len() as nat)->Ok_0;
    let order = spec_concat_layers(ls);
    assert forall|i: int| 0 <= i < order.len() implies spec_all_done(
        spec_deps_of(g, #[trigger] order[i]),
        order.take(i),
    ) by {
        assert(Seq::<Seq<char>>::empty() + order.take(i) =~= order.take(i));
    }
}

/// Every compiled protocol's step requirements, and its aggregate
/// requirements, are non-negative and within the resource cap.
pub proof fn lemma_step_resources_bounded(s: ScriptModel)
    requires
        spec_compile(s) is Ok,
    ensures
        spec_steps_wf(spec_compile(s)->Ok_0.execution_steps),
        spec_compile(s)->Ok_0.total_resource_requirements.wf(),
{
    lemma_extract_wf(s.protocol_name, s.pipeline_calls, 0, Seq::empty());
    let sm = spec_extract(s)->Ok_0;
    crate::totals::lemma_total_resources_wf(sm, spec_compile(s)->Ok_0.execution_mode);
}

/// Every member of every compiled parallel group stands in the execution
/// order: the groups only batch steps the order already schedules.
pub proof fn lemma_parallel_groups_within_order(s: ScriptModel, k: int, w: int)
    requires
        spec_compile(s) is Ok,
        0 <= k < spec_compile(s)->Ok_0.parallel_groups.len(),
        0 <= w < spec_compile(s)->Ok_0.parallel_groups[k].len(),
    ensures
        crate::plan::seq_contains(
            spec_compile(s)->Ok_0.execution_order,
            spec_compile(s)->Ok_0.parallel_groups[k][w],
        ),
{
    let sm = spec_extract(s)->Ok_0;
    let g = spec_graph(sm);
    let ls = spec_layers(spec_ids(sm), g, Seq::empty(), sm.len() as nat)->Ok_0;
    crate::plan::lemma_groups_within_order(ls, k, w);
}

/// Compiling the same script twice yields the same protocol: the order,
/// the groups, and every other part of the result.
pub proof fn lemma_compile_deterministic(s1: ScriptModel, s2: ScriptModel)
    requires
        s1 == s2,
    ensures
        spec_compile(s1) == spec_compile(s2),
{
}

} // verus!
