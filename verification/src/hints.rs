//! Optimization hints: parallelization candidates and resource imbalance.
//!
//! Steps sharing an identical resolved dependency list can run together;
//! each such family of two or more becomes a parallelization hint. A
//! protocol whose steps deviate far from the mean processor or memory
//! demand gets one resource-balancing hint.

use vstd::prelude::*;

use vstd::string::StringExecFns;

use crate::ast::{lemma_strings_model, lemma_strings_model_push, strings_model};
use crate::compiler::{
    hints_model, lemma_hints_model, lemma_steps_model, steps_model, ExecutionStep, HintModel,
    OptimizationHint, OptimizationType, StepModel,
};
use crate::plan::spec_deps_of;

verus! {

/// The items joined with a separator between neighbours.
pub open spec fn spec_join_from(items: Seq<Seq<char>>, sep: Seq<char>, i: int) -> Seq<char>
    decreases items.len() - i,
{
    if i < 0 || i >= items.len() {
        Seq::empty()
    } else if i == items.len() - 1 {
        items[i]
    } else {
        items[i] + sep + spec_join_from(items, sep, i + 1)
    }
}

/// The items joined with a separator.
pub open spec fn spec_join(items: Seq<Seq<char>>, sep: Seq<char>) -> Seq<char> {
    spec_join_from(items, sep, 0)
}

/// Joins strings with a separator.
pub fn join_strings(items: &Vec<String>, sep: &str) -> (r: String)
    ensures
        r@ == spec_join(strings_model(items@), sep@),
{
    proof {
        lemma_strings_model(items@);
    }
    let mut out = <String as StringExecFns>::from_str("");
    proof {
        reveal_strlit("");
        assert(out@ =~= Seq::<char>::empty());
    }
    let mut i: usize = 0;
    let ghost m = strings_model(items@);
    proof {
        assert(out@ + spec_join_from(m, sep@, 0) =~= spec_join(m, sep@));
    }
    while i < items.len()
        invariant
            i <= items@.len(),
            m == strings_model(items@),
            m.len() == items@.len(),
            forall|k: int| 0 <= k < items@.len() ==> #[trigger] m[k] == items@[k]@,
            out@ + spec_join_from(m, sep@, i as int) == spec_join(m, sep@),
        decreases items@.len() - i,
    {
        let with_item = out.concat(items[i].as_str());
        if i + 1 < items.len() {
            out = with_item.concat(sep);
            proof {
                assert(out@ + spec_join_from(m, sep@, i + 1) =~= spec_join(m, sep@));
            }
        } else {
            out = with_item;
            proof {
                assert(spec_join_from(m, sep@, i as int) == m[i as int]);
                assert(out@ + Seq::<char>::empty() =~= out@);
                assert(out@ + spec_join_from(m, sep@, i + 1) =~= spec_join(m, sep@));
            }
        }
        i = i + 1;
    }
    proof {
        assert(out@ + Seq::<char>::empty() =~= out@);
    }
    out
}

/// The resolved dependency list of step `k` under the graph.
pub open spec fn spec_rdeps(
    sm: Seq<StepModel>,
    g: Seq<(Seq<char>, Seq<Seq<char>>)>,
    k: int,
) -> Seq<Seq<char>> {
    spec_deps_of(g, sm[k].step_id)
}

/// Whether step `i` is the first with its dependency list.
pub open spec fn spec_first_of_family(
    sm: Seq<StepModel>,
    g: Seq<(Seq<char>, Seq<Seq<char>>)>,
    i: int,
) -> bool {
    forall|j: int| 0 <= j < i ==> spec_rdeps(sm, g, j) != spec_rdeps(sm, g, i)
}

/// The ids of every step sharing step `i`'s dependency list, from `j` on.
pub open spec fn spec_family_from(
    sm: Seq<StepModel>,
    g: Seq<(Seq<char>, Seq<Seq<char>>)>,
    i: int,
    j: int,
) -> Seq<Seq<char>>
    decreases sm.len() - j,
{
    if j < 0 || j >= sm.len() {
        Seq::empty()
    } else {
        let rest = spec_family_from(sm, g, i, j + 1);
        if spec_rdeps(sm, g, j) == spec_rdeps(sm, g, i) {
            seq![sm[j].step_id] + rest
        } else {
            rest
        }
    }
}

/// The parallelization families from step `i` on: for each first-of-family
/// step, the ids of its whole family.
pub open spec fn spec_families_from(
    sm: Seq<StepModel>,
    g: Seq<(Seq<char>, Seq<Seq<char>>)>,
    i: int,
) -> Seq<Seq<Seq<char>>>
    decreases sm.len() - i,
{
    if i < 0 || i >= sm.len() {
        Seq::empty()
    } else {
        let rest = spec_families_from(sm, g, i + 1);
        if spec_first_of_family(sm, g, i) {
            seq![spec_family_from(sm, g, i, 0)] + rest
        } else {
            rest
        }
    }
}

/// The parallelization hint of one family.
pub open spec fn spec_family_hint(fam: Seq<Seq<char>>) -> HintModel {
    HintModel {
        hint_type: OptimizationType::Parallelization,
        target_step: spec_join(fam, ","@),
        description: "Steps "@ + spec_join(fam, ", "@) + " can be executed in parallel"@,
        priority: 800,
    }
}

/// The parallelization hints: one per family of two or more.
pub open spec fn spec_par_hints(fams: Seq<Seq<Seq<char>>>) -> Seq<HintModel>
    decreases fams,
{
    if fams.len() == 0 {
        Seq::empty()
    } else {
        let rest = spec_par_hints(fams.drop_first());
        if fams[0].len() > 1 {
            seq![spec_family_hint(fams[0])] + rest
        } else {
            rest
        }
    }
}

/// Whether step `k` is resource-starved next to the mean: both its
/// processor and memory demand are below half the protocol mean.
pub open spec fn spec_under(sm: Seq<StepModel>, k: int, csum: int, msum: int) -> bool {
    2 * sm[k].resource_requirements.cpu_cores * sm.len() < csum && 2
        * sm[k].resource_requirements.memory_gb * sm.len() < msum
}

/// Whether step `k` is resource-heavy next to the mean: its processor or
/// memory demand is more than twice the protocol mean.
pub open spec fn spec_over(sm: Seq<StepModel>, k: int, csum: int, msum: int) -> bool {
    sm[k].resource_requirements.cpu_cores * sm.len() > 2 * csum || sm[k]
        .resource_requirements.memory_gb * sm.len() > 2 * msum
}

/// The exact processor and memory sums of the steps, unbounded.
pub open spec fn spec_cpu_sum(sm: Seq<StepModel>) -> int
    decreases sm,
{
    if sm.len() == 0 {
        0
    } else {
        sm[0].resource_requirements.cpu_cores + spec_cpu_sum(sm.drop_first())
    }
}

/// The exact memory sum of the steps, unbounded.
pub open spec fn spec_mem_sum(sm: Seq<StepModel>) -> int
    decreases sm,
{
    if sm.len() == 0 {
        0
    } else {
        sm[0].resource_requirements.memory_gb + spec_mem_sum(sm.drop_first())
    }
}

/// Whether any step is far from the protocol's mean demand.
pub open spec fn spec_imbalanced(sm: Seq<StepModel>) -> bool {
    sm.len() > 0 && exists|k: int|
        0 <= k < sm.len() && (spec_under(sm, k, spec_cpu_sum(sm), spec_mem_sum(sm))
            || spec_over(sm, k, spec_cpu_sum(sm), spec_mem_sum(sm)))
}

/// The hints of a compiled protocol: a parallelization hint per family of
/// steps with identical dependencies, then a resource-balancing hint when
/// the steps' demands are imbalanced.
pub open spec fn spec_hints(
    sm: Seq<StepModel>,
    g: Seq<(Seq<char>, Seq<Seq<char>>)>,
) -> Seq<HintModel> {
    let par = spec_par_hints(spec_families_from(sm, g, 0));
    if spec_imbalanced(sm) {
        par + seq![
            HintModel {
                hint_type: OptimizationType::ResourceBalancing,
                target_step: "protocol"@,
                description: "Resource allocation can be balanced across stages"@,
                priority: 600,
            },
        ]
    } else {
        par
    }
}

/// The threshold for "more than twice the sum": the doubled sum, saturated
/// so the comparison never overflows.
fn msum_guard(p: u128, sum: u128) -> (r: u128)
    ensures
        (p > r) == (p > 2 * sum),
{
    if sum > p {
        p
    } else if sum > u128::MAX - sum {
        u128::MAX
    } else {
        2 * sum
    }
}

/// Compares two dependency lists.
fn deps_eq(a: &Vec<String>, b: &Vec<String>) -> (r: bool)
    ensures
        r == (strings_model(a@) == strings_model(b@)),
{
    proof {
        lemma_strings_model(a@);
        lemma_strings_model(b@);
    }
    if a.len() != b.len() {
        return false;
    }
    let mut i: usize = 0;
    while i < a.len()
        invariant
            i <= a@.len(),
            a@.len() == b@.len(),
            strings_model(a@).len() == a@.len(),
            strings_model(b@).len() == b@.len(),
            forall|k: int| 0 <= k < a@.len() ==> #[trigger] strings_model(a@)[k] == a@[k]@,
            forall|k: int| 0 <= k < b@.len() ==> #[trigger] strings_model(b@)[k] == b@[k]@,
            forall|k: int| 0 <= k < i ==> strings_model(a@)[k] == strings_model(b@)[k],
        decreases a@.len() - i,
    {
        if a[i] != b[i] {
            proof {
                assert(strings_model(a@)[i as int] != strings_model(b@)[i as int]);
            }
            return false;
        }
        i = i + 1;
    }
    proof {
        assert(strings_model(a@) =~~= strings_model(b@));
    }
    true
}

/// The resolved dependency list of one step, by graph lookup.
fn rdeps_of(
    graph: &Vec<(String, Vec<String>)>,
    step: &ExecutionStep,
) -> (r: Vec<String>)
    ensures
        strings_model(r@) == spec_deps_of(crate::ast::deps_model(graph@), step.step_id@),
{
    match crate::plan::graph_deps(graph, &step.step_id) {
        Some(d) => crate::plan::clone_strings(d),
        None => {
            let r: Vec<String> = Vec::new();
            proof {
                lemma_strings_model(r@);
                assert(strings_model(r@) =~= Seq::<Seq<char>>::empty());
            }
            r
        },
    }
}

/// Generates the optimization hints of the steps under the graph.
pub fn generate_optimization_hints(
    steps: &Vec<ExecutionStep>,
    graph: &Vec<(String, Vec<String>)>,
) -> (r: Vec<OptimizationHint>)
    ensures
        hints_model(r@) == spec_hints(steps_model(steps@), crate::ast::deps_model(graph@)),
{
    let ghost sm = steps_model(steps@);
    let ghost g = crate::ast::deps_model(graph@);
    proof {
        lemma_steps_model(steps@);
    }
    let mut hints: Vec<OptimizationHint> = Vec::new();
    let mut i: usize = 0;
    proof {
        assert(hints_model(hints@) =~= Seq::<HintModel>::empty());
        assert(hints_model(hints@) + spec_par_hints(spec_families_from(sm, g, 0))
            =~= spec_par_hints(spec_families_from(sm, g, 0)));
    }
    while i < steps.len()
        invariant
            i <= steps@.len(),
            sm == steps_model(steps@),
            g == crate::ast::deps_model(graph@),
            sm.len() == steps@.len(),
            forall|k: int| 0 <= k < steps@.len() ==> #[trigger] sm[k] == steps@[k].model(),
            hints_model(hints@) + spec_par_hints(spec_families_from(sm, g, i as int))
                == spec_par_hints(spec_families_from(sm, g, 0)),
        decreases steps@.len() - i,
    {
        let my_deps = rdeps_of(graph, &steps[i]);
        // Is this step the first of its family?
        let mut first = true;
        let mut j: usize = 0;
        while j < i
            invariant
                j <= i <= steps@.len(),
                sm == steps_model(steps@),
                g == crate::ast::deps_model(graph@),
                sm.len() == steps@.len(),
                forall|k: int|
                    0 <= k < steps@.len() ==> #[trigger] sm[k] == steps@[k].model(),
                strings_model(my_deps@) == spec_rdeps(sm, g, i as int),
                first == forall|k: int|
                    0 <= k < j ==> spec_rdeps(sm, g, k) != spec_rdeps(sm, g, i as int),
            decreases i - j,
        {
            let other = rdeps_of(graph, &steps[j]);
            if deps_eq(&other, &my_deps) {
                first = false;
                proof {
                    assert(spec_rdeps(sm, g, j as int) == spec_rdeps(sm, g, i as int));
                }
            }
            j = j + 1;
        }
        if first {
            // Collect the whole family.
            let mut fam: Vec<String> = Vec::new();
            let mut k: usize = 0;
            let ghost famm = spec_family_from(sm, g, i as int, 0);
            proof {
                lemma_strings_model(fam@);
                assert(strings_model(fam@) + spec_family_from(sm, g, i as int, 0)
                    =~= spec_family_from(sm, g, i as int, 0));
            }
            while k < steps.len()
                invariant
                    k <= steps@.len(),
                    i < steps@.len(),
                    sm == steps_model(steps@),
                    g == crate::ast::deps_model(graph@),
                    sm.len() == steps@.len(),
                    forall|q: int|
                        0 <= q < steps@.len() ==> #[trigger] sm[q] == steps@[q].model(),
                    strings_model(my_deps@) == spec_rdeps(sm, g, i as int),
                    strings_model(fam@) + spec_family_from(sm, g, i as int, k as int)
                        == spec_family_from(sm, g, i as int, 0),
                decreases steps@.len() - k,
            {
                let other = rdeps_of(graph, &steps[k]);
                if deps_eq(&other, &my_deps) {
                    let id = steps[k].step_id.clone();
                    proof {
                        lemma_strings_model_push(fam@, id);
                        assert(strings_model(fam@).push(id@) + spec_family_from(
                            sm,
                            g,
                            i as int,
                            k + 1,
                        ) =~= strings_model(fam@) + (seq![sm[k as int].step_id]
                            + spec_family_from(sm, g, i as int, k + 1)));
                    }
                    fam.push(id);
                } else {
                    proof {
                        assert(spec_rdeps(sm, g, k as int) != spec_rdeps(sm, g, i as int));
                    }
                }
                k = k + 1;
            }
            proof {
                assert(spec_family_from(sm, g, i as int, steps@.len() as int) =~= Seq::<
                    Seq<char>,
                >::empty());
                assert(strings_model(fam@) + Seq::<Seq<char>>::empty() =~= strings_model(
                    fam@,
                ));
            }
            proof {
                assert(spec_first_of_family(sm, g, i as int));
                assert(spec_families_from(sm, g, i as int) == seq![
                    spec_family_from(sm, g, i as int, 0)
                ] + spec_families_from(sm, g, i + 1));
                assert((seq![spec_family_from(sm, g, i as int, 0)] + spec_families_from(
                    sm,
                    g,
                    i + 1,
                )).drop_first() =~= spec_families_from(sm, g, i + 1));
                assert((seq![spec_family_from(sm, g, i as int, 0)] + spec_families_from(
                    sm,
                    g,
                    i + 1,
                ))[0] == spec_family_from(sm, g, i as int, 0));
                lemma_strings_model(fam@);
            }
            if fam.len() > 1 {
                let target = join_strings(&fam, ",");
                let joined = join_strings(&fam, ", ");
                let desc = <String as StringExecFns>::from_str("Steps ").concat(
                    joined.as_str(),
                ).concat(" can be executed in parallel");
                let h = OptimizationHint {
                    hint_type: OptimizationType::Parallelization,
                    target_step: target,
                    description: desc,
                    priority: 800,
                };
                proof {
                    lemma_hints_model(hints@.push(h));
                    lemma_hints_model(hints@);
                    assert(hints_model(hints@.push(h)) =~~= hints_model(hints@).push(
                        h.model(),
                    ));
                    assert(h.model() == spec_family_hint(strings_model(fam@)));
                    assert(hints_model(hints@).push(h.model()) + spec_par_hints(
                        spec_families_from(sm, g, i + 1),
                    ) =~= hints_model(hints@) + (seq![spec_family_hint(strings_model(fam@))]
                        + spec_par_hints(spec_families_from(sm, g, i + 1))));
                }
                hints.push(h);
            } else {
                proof {
                    assert(strings_model(fam@).len() <= 1);
                    assert(spec_par_hints(spec_families_from(sm, g, i as int))
                        == spec_par_hints(spec_families_from(sm, g, i + 1)));
                }
            }
        } else {
            proof {
                assert(!spec_first_of_family(sm, g, i as int));
                assert(spec_families_from(sm, g, i as int) == spec_families_from(
                    sm,
                    g,
                    i + 1,
                ));
            }
        }
        i = i + 1;
    }
    proof {
        assert(spec_families_from(sm, g, steps@.len() as int) =~= Seq::<Seq<Seq<char>>>::empty());
        assert(hints_model(hints@) + Seq::<HintModel>::empty() =~= hints_model(hints@));
    }
    // Resource imbalance.
    let mut csum: u128 = 0;
    let mut msum: u128 = 0;
    let mut t: usize = 0;
    while t < steps.len()
        invariant
            t <= steps@.len(),
            sm == steps_model(steps@),
            sm.len() == steps@.len(),
            forall|k: int| 0 <= k < steps@.len() ==> #[trigger] sm[k] == steps@[k].model(),
            csum == spec_cpu_sum(sm.take(t as int)),
            msum == spec_mem_sum(sm.take(t as int)),
            csum <= t * (u64::MAX as int),
            msum <= t * (u64::MAX as int),
        decreases steps@.len() - t,
    {
        proof {
            lemma_cpu_sum_push(sm.take(t as int), sm[t as int]);
            lemma_mem_sum_push(sm.take(t as int), sm[t as int]);
            assert(sm.take(t + 1) =~= sm.take(t as int).push(sm[t as int]));
            assert((t + 1) * (u64::MAX as int) == t * (u64::MAX as int) + u64::MAX);
        }
        csum = csum + steps[t].resource_requirements.cpu_cores as u128;
        msum = msum + steps[t].resource_requirements.memory_gb as u128;
        t = t + 1;
    }
    proof {
        assert(sm.take(sm.len() as int) =~= sm);
    }
    let mut imbalance = false;
    let mut w: usize = 0;
    let n = steps.len();
    while w < steps.len()
        invariant
            w <= steps@.len(),
            n == steps@.len(),
            sm == steps_model(steps@),
            sm.len() == steps@.len(),
            forall|k: int| 0 <= k < steps@.len() ==> #[trigger] sm[k] == steps@[k].model(),
            csum == spec_cpu_sum(sm),
            msum == spec_mem_sum(sm),
            imbalance == exists|k: int|
                0 <= k < w && (spec_under(sm, k, spec_cpu_sum(sm), spec_mem_sum(sm))
                    || spec_over(sm, k, spec_cpu_sum(sm), spec_mem_sum(sm))),
        decreases steps@.len() - w,
    {
        let c = steps[w].resource_requirements.cpu_cores;
        let m = steps[w].resource_requirements.memory_gb;
        proof {
            assert((c as int) * (n as int) <= (u64::MAX as int) * (u64::MAX as int))
                by (nonlinear_arith)
                requires
                    0 <= c <= u64::MAX,
                    0 <= n <= u64::MAX,
            ;
            assert((m as int) * (n as int) <= (u64::MAX as int) * (u64::MAX as int))
                by (nonlinear_arith)
                requires
                    0 <= m <= u64::MAX,
                    0 <= n <= u64::MAX,
            ;
        }
        let cp: u128 = (c as u128) * (n as u128);
        let mp: u128 = (m as u128) * (n as u128);
        proof {
            assert(2 * (c as int) * (n as int) == 2 * ((c as int) * (n as int)))
                by (nonlinear_arith);
            assert(2 * (m as int) * (n as int) == 2 * ((m as int) * (n as int)))
                by (nonlinear_arith);
        }
        let under = (cp < csum && csum - cp > cp) && (mp < msum && msum - mp > mp);
        let over = (cp > msum_guard(cp, csum)) || (mp > msum_guard(mp, msum));
        proof {
            assert(under == spec_under(sm, w as int, spec_cpu_sum(sm), spec_mem_sum(sm)));
            assert(over == spec_over(sm, w as int, spec_cpu_sum(sm), spec_mem_sum(sm)));
        }
        if under || over {
            imbalance = true;
        }
        w = w + 1;
    }
    if imbalance && steps.len() > 0 {
        let h = OptimizationHint {
            hint_type: OptimizationType::ResourceBalancing,
            target_step: <String as StringExecFns>::from_str("protocol"),
            description: <String as StringExecFns>::from_str(
                "Resource allocation can be balanced across stages",
            ),
            priority: 600,
        };
        proof {
            lemma_hints_model(hints@.push(h));
            lemma_hints_model(hints@);
            assert(hints_model(hints@.push(h)) =~~= hints_model(hints@).push(h.model()));
            assert(spec_imbalanced(sm));
            assert(hints_model(hints@).push(h.model()) =~= hints_model(hints@) + seq![
                h.model()
            ]);
        }
        hints.push(h);
    } else {
        proof {
            assert(!spec_imbalanced(sm));
        }
    }
    hints
}

/// Extending the steps extends the processor sum.
proof fn lemma_cpu_sum_push(sm: Seq<StepModel>, s: StepModel)
    ensures
        spec_cpu_sum(sm.push(s)) == spec_cpu_sum(sm) + s.resource_requirements.cpu_cores,
    decreases sm,
{
    if sm.len() == 0 {
        assert(sm.push(s).drop_first() =~= Seq::<StepModel>::empty());
        assert(sm.push(s)[0] == s);
        assert(spec_cpu_sum(sm.push(s).drop_first()) == 0);
    } else {
        assert(sm.push(s).drop_first() =~= sm.drop_first().push(s));
        lemma_cpu_sum_push(sm.drop_first(), s);
        assert(sm.push(s)[0] == sm[0]);
    }
}

/// Extending the steps extends the memory sum.
proof fn lemma_mem_sum_push(sm: Seq<StepModel>, s: StepModel)
    ensures
        spec_mem_sum(sm.push(s)) == spec_mem_sum(sm) + s.resource_requirements.memory_gb,
    decreases sm,
{
    if sm.len() == 0 {
        assert(sm.push(s).drop_first() =~= Seq::<StepModel>::empty());
        assert(sm.push(s)[0] == s);
        assert(spec_mem_sum(sm.push(s).drop_first()) == 0);
    } else {
        assert(sm.push(s).drop_first() =~= sm.drop_first().push(s));
        lemma_mem_sum_push(sm.drop_first(), s);
        assert(sm.push(s)[0] == sm[0]);
    }
}

} // verus!
