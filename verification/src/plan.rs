//! Dependency resolution and the execution plan.
//!
//! The dependency graph maps each step to the step ids its inferred variable
//! dependencies resolve to; unresolved names are dropped. The plan is a
//! level-by-level layering: each round schedules every not-yet-scheduled
//! step whose dependencies are all scheduled, in declaration order. A round
//! with no ready step means the graph is cyclic, and compilation fails.
//! The execution order is the concatenation of the layers, so every step's
//! dependencies precede it.

use vstd::prelude::*;

use vstd::multiset::Multiset;
use vstd::seq_lib::lemma_multiset_commutative;

use crate::ast::{lemma_strings_model, lemma_strings_model_push, strings_model};
use crate::compiler::{
    groups_model, lemma_groups_model_push, lemma_steps_model, steps_model, ExecutionStep,
    StepModel,
};

verus! {

/// Whether `xs` holds `x`.
pub open spec fn seq_contains(xs: Seq<Seq<char>>, x: Seq<char>) -> bool {
    exists|i: int| 0 <= i < xs.len() && xs[i] == x
}

/// Tests whether a list of strings holds `x`.
pub fn contains_str(xs: &Vec<String>, x: &String) -> (r: bool)
    ensures
        r == seq_contains(strings_model(xs@), x@),
{
    proof {
        lemma_strings_model(xs@);
    }
    let mut i: usize = 0;
    while i < xs.len()
        invariant
            i <= xs@.len(),
            strings_model(xs@).len() == xs@.len(),
            forall|k: int|
                0 <= k < xs@.len() ==> #[trigger] strings_model(xs@)[k] == xs@[k]@,
            forall|k: int| 0 <= k < i ==> strings_model(xs@)[k] != x@,
        decreases xs@.len() - i,
    {
        if xs[i] == *x {
            proof {
                assert(strings_model(xs@)[i as int] == x@);
            }
            return true;
        }
        i = i + 1;
    }
    false
}

/// Copies a list of strings.
pub fn clone_strings(xs: &Vec<String>) -> (r: Vec<String>)
    ensures
        strings_model(r@) == strings_model(xs@),
{
    let mut r: Vec<String> = Vec::new();
    let mut i: usize = 0;
    proof {
        lemma_strings_model(xs@);
    }
    while i < xs.len()
        invariant
            i <= xs@.len(),
            strings_model(xs@).len() == xs@.len(),
            forall|k: int|
                0 <= k < xs@.len() ==> #[trigger] strings_model(xs@)[k] == xs@[k]@,
            strings_model(r@) == strings_model(xs@).take(i as int),
        decreases xs@.len() - i,
    {
        let s = xs[i].clone();
        proof {
            lemma_strings_model_push(r@, s);
            assert(strings_model(xs@).take(i + 1) =~= strings_model(xs@).take(i as int).push(
                xs@[i as int]@,
            ));
        }
        r.push(s);
        i = i + 1;
    }
    proof {
        assert(strings_model(xs@).take(xs@.len() as int) =~= strings_model(xs@));
    }
    r
}

/// The dependency lists of a graph, looked up by step id; the latest entry
/// wins.
pub open spec fn spec_graph_lookup(
    g: Seq<(Seq<char>, Seq<Seq<char>>)>,
    id: Seq<char>,
) -> Option<Seq<Seq<char>>>
    decreases g.len(),
{
    if g.len() == 0 {
        None
    } else if g.last().0 == id {
        Some(g.last().1)
    } else {
        spec_graph_lookup(g.drop_last(), id)
    }
}

/// The dependencies of `id` in the graph: its entry, or nothing.
pub open spec fn spec_deps_of(g: Seq<(Seq<char>, Seq<Seq<char>>)>, id: Seq<char>) -> Seq<
    Seq<char>,
> {
    match spec_graph_lookup(g, id) {
        Some(d) => d,
        None => Seq::empty(),
    }
}

/// Looks a step id up in the graph.
pub fn graph_deps<'a>(g: &'a Vec<(String, Vec<String>)>, id: &String) -> (r: Option<
    &'a Vec<String>,
>)
    ensures
        match r {
            Some(d) => spec_graph_lookup(crate::ast::deps_model(g@), id@) == Some(
                strings_model(d@),
            ),
            None => spec_graph_lookup(crate::ast::deps_model(g@), id@) is None,
        },
{
    proof {
        crate::ast::lemma_deps_model(g@);
        assert(crate::ast::deps_model(g@).take(g@.len() as int) =~= crate::ast::deps_model(g@));
    }
    let mut i: usize = g.len();
    while i > 0
        invariant
            i <= g@.len(),
            crate::ast::deps_model(g@).len() == g@.len(),
            forall|k: int|
                0 <= k < g@.len() ==> #[trigger] crate::ast::deps_model(g@)[k] == (
                    g@[k].0@,
                    strings_model(g@[k].1@),
                ),
            spec_graph_lookup(crate::ast::deps_model(g@), id@) == spec_graph_lookup(
                crate::ast::deps_model(g@).take(i as int),
                id@,
            ),
        decreases i,
    {
        i = i - 1;
        proof {
            let m = crate::ast::deps_model(g@);
            assert(m.take(i + 1).last() == m[i as int]);
            assert(m.take(i + 1).drop_last() =~= m.take(i as int));
        }
        if g[i].0 == *id {
            return Some(&g[i].1);
        }
    }
    proof {
        assert(crate::ast::deps_model(g@).take(0) =~= Seq::<(Seq<char>, Seq<Seq<char>>)>::empty());
    }
    None
}

/// The step id bound to a variable name: the latest step with that variable.
pub open spec fn spec_var_lookup(sm: Seq<StepModel>, d: Seq<char>) -> Option<Seq<char>>
    decreases sm.len(),
{
    if sm.len() == 0 {
        None
    } else if sm.last().variable_name == d {
        Some(sm.last().step_id)
    } else {
        spec_var_lookup(sm.drop_last(), d)
    }
}

/// Looks a variable name up among the steps.
fn var_lookup(steps: &Vec<ExecutionStep>, d: &String) -> (r: Option<String>)
    ensures
        match r {
            Some(id) => spec_var_lookup(steps_model(steps@), d@) == Some(id@),
            None => spec_var_lookup(steps_model(steps@), d@) is None,
        },
{
    proof {
        lemma_steps_model(steps@);
        assert(steps_model(steps@).take(steps@.len() as int) =~= steps_model(steps@));
    }
    let mut i: usize = steps.len();
    while i > 0
        invariant
            i <= steps@.len(),
            steps_model(steps@).len() == steps@.len(),
            forall|k: int|
                0 <= k < steps@.len() ==> #[trigger] steps_model(steps@)[k]
                    == steps@[k].model(),
            spec_var_lookup(steps_model(steps@), d@) == spec_var_lookup(
                steps_model(steps@).take(i as int),
                d@,
            ),
        decreases i,
    {
        i = i - 1;
        proof {
            let m = steps_model(steps@);
            assert(m.take(i + 1).last() == m[i as int]);
            assert(m.take(i + 1).drop_last() =~= m.take(i as int));
        }
        if steps[i].variable_name == *d {
            return Some(steps[i].step_id.clone());
        }
    }
    proof {
        assert(steps_model(steps@).take(0) =~= Seq::<StepModel>::empty());
    }
    None
}

/// The resolution of a step's variable dependencies to step ids; names that
/// belong to no step are dropped.
pub open spec fn spec_resolve(sm: Seq<StepModel>, deps: Seq<Seq<char>>) -> Seq<Seq<char>>
    decreases deps,
{
    if deps.len() == 0 {
        Seq::empty()
    } else {
        let head: Seq<Seq<char>> = match spec_var_lookup(sm, deps[0]) {
            Some(id) => seq![id],
            None => Seq::empty(),
        };
        head + spec_resolve(sm, deps.drop_first())
    }
}

/// The dependency graph of the steps from `i` on: one entry per step, its
/// id mapped to its resolved dependencies.
pub open spec fn spec_graph_from(sm: Seq<StepModel>, i: int) -> Seq<
    (Seq<char>, Seq<Seq<char>>),
>
    decreases sm.len() - i,
{
    if i < 0 || i >= sm.len() {
        Seq::empty()
    } else {
        seq![(sm[i].step_id, spec_resolve(sm, sm[i].dependencies))] + spec_graph_from(sm, i + 1)
    }
}

/// The dependency graph of a step list.
pub open spec fn spec_graph(sm: Seq<StepModel>) -> Seq<(Seq<char>, Seq<Seq<char>>)> {
    spec_graph_from(sm, 0)
}

/// Builds the dependency graph of the steps.
pub fn build_dependency_graph(steps: &Vec<ExecutionStep>) -> (r: Vec<(String, Vec<String>)>)
    ensures
        crate::ast::deps_model(r@) == spec_graph(steps_model(steps@)),
{
    let ghost sm = steps_model(steps@);
    proof {
        lemma_steps_model(steps@);
    }
    let mut g: Vec<(String, Vec<String>)> = Vec::new();
    let mut i: usize = 0;
    proof {
        assert(crate::ast::deps_model(g@) + spec_graph_from(sm, 0) =~= spec_graph_from(sm, 0));
    }
    while i < steps.len()
        invariant
            i <= steps@.len(),
            sm == steps_model(steps@),
            sm.len() == steps@.len(),
            forall|k: int| 0 <= k < steps@.len() ==> #[trigger] sm[k] == steps@[k].model(),
            crate::ast::deps_model(g@) + spec_graph_from(sm, i as int) == spec_graph(sm),
        decreases steps@.len() - i,
    {
        let mut resolved: Vec<String> = Vec::new();
        let mut k: usize = 0;
        let ghost dm = strings_model(steps@[i as int].dependencies@);
        proof {
            lemma_strings_model(steps@[i as int].dependencies@);
            assert(dm.skip(0) =~= dm);
            assert(strings_model(resolved@) =~= Seq::<Seq<char>>::empty());
            assert(strings_model(resolved@) + spec_resolve(sm, dm.skip(0)) =~= spec_resolve(
                sm,
                dm,
            ));
        }
        while k < steps[i].dependencies.len()
            invariant
                i < steps@.len(),
                k <= steps@[i as int].dependencies@.len(),
                sm == steps_model(steps@),
                sm.len() == steps@.len(),
                forall|j: int| 0 <= j < steps@.len() ==> #[trigger] sm[j] == steps@[j].model(),
                dm == strings_model(steps@[i as int].dependencies@),
                dm.len() == steps@[i as int].dependencies@.len(),
                forall|j: int|
                    0 <= j < dm.len() ==> #[trigger] dm[j]
                        == steps@[i as int].dependencies@[j]@,
                strings_model(resolved@) + spec_resolve(sm, dm.skip(k as int)) == spec_resolve(
                    sm,
                    dm,
                ),
            decreases steps@[i as int].dependencies@.len() - k,
        {
            proof {
                assert(dm.skip(k as int)[0] == dm[k as int]);
                assert(dm.skip(k as int).drop_first() =~= dm.skip(k + 1));
            }
            match var_lookup(steps, &steps[i].dependencies[k]) {
                Some(id) => {
                    proof {
                        lemma_strings_model_push(resolved@, id);
                        assert(strings_model(resolved@).push(id@) + spec_resolve(
                            sm,
                            dm.skip(k + 1),
                        ) =~= strings_model(resolved@) + (seq![id@] + spec_resolve(
                            sm,
                            dm.skip(k + 1),
                        )));
                    }
                    resolved.push(id);
                },
                None => {
                    proof {
                        assert(Seq::<Seq<char>>::empty() + spec_resolve(sm, dm.skip(k + 1))
                            =~= spec_resolve(sm, dm.skip(k + 1)));
                    }
                },
            }
            k = k + 1;
        }
        proof {
            assert(dm.skip(dm.len() as int) =~= Seq::<Seq<char>>::empty());
            assert(strings_model(resolved@) + Seq::<Seq<char>>::empty() =~= strings_model(
                resolved@,
            ));
        }
        let id = steps[i].step_id.clone();
        proof {
            crate::ast::lemma_deps_model_push(g@, id, resolved);
            assert(crate::ast::deps_model(g@).push((id@, strings_model(resolved@)))
                + spec_graph_from(sm, i + 1) =~= crate::ast::deps_model(g@) + (seq![
                (id@, strings_model(resolved@)),
            ] + spec_graph_from(sm, i + 1)));
        }
        g.push((id, resolved));
        i = i + 1;
    }
    proof {
        assert(spec_graph_from(sm, steps@.len() as int) =~= Seq::<
            (Seq<char>, Seq<Seq<char>>),
        >::empty());
        assert(crate::ast::deps_model(g@) + Seq::<(Seq<char>, Seq<Seq<char>>)>::empty()
            =~= crate::ast::deps_model(g@));
    }
    g
}

/// The step ids of a step list, in order.
pub open spec fn spec_ids(sm: Seq<StepModel>) -> Seq<Seq<char>>
    decreases sm,
{
    if sm.len() == 0 {
        Seq::empty()
    } else {
        seq![sm[0].step_id] + spec_ids(sm.drop_first())
    }
}

/// Whether every dependency is already scheduled.
pub open spec fn spec_all_done(deps: Seq<Seq<char>>, done: Seq<Seq<char>>) -> bool {
    forall|k: int| 0 <= k < deps.len() ==> seq_contains(done, #[trigger] deps[k])
}

/// The ready steps among `rem`: those whose dependencies are all in `done`,
/// in order.
pub open spec fn spec_ready(
    rem: Seq<Seq<char>>,
    g: Seq<(Seq<char>, Seq<Seq<char>>)>,
    done: Seq<Seq<char>>,
) -> Seq<Seq<char>>
    decreases rem,
{
    if rem.len() == 0 {
        Seq::empty()
    } else {
        let rest = spec_ready(rem.drop_first(), g, done);
        if spec_all_done(spec_deps_of(g, rem[0]), done) {
            seq![rem[0]] + rest
        } else {
            rest
        }
    }
}

/// The steps of `rem` that are not ready, in order.
pub open spec fn spec_unready(
    rem: Seq<Seq<char>>,
    g: Seq<(Seq<char>, Seq<Seq<char>>)>,
    done: Seq<Seq<char>>,
) -> Seq<Seq<char>>
    decreases rem,
{
    if rem.len() == 0 {
        Seq::empty()
    } else {
        let rest = spec_unready(rem.drop_first(), g, done);
        if spec_all_done(spec_deps_of(g, rem[0]), done) {
            rest
        } else {
            seq![rem[0]] + rest
        }
    }
}

/// Ready and unready steps partition the remaining steps.
pub proof fn lemma_partition(
    rem: Seq<Seq<char>>,
    g: Seq<(Seq<char>, Seq<Seq<char>>)>,
    done: Seq<Seq<char>>,
)
    ensures
        spec_ready(rem, g, done).len() + spec_unready(rem, g, done).len() == rem.len(),
        (spec_ready(rem, g, done) + spec_unready(rem, g, done)).to_multiset()
            == rem.to_multiset(),
    decreases rem,
{
    broadcast use vstd::seq_lib::group_to_multiset_ensures;

    let rdy = spec_ready(rem, g, done);
    let unr = spec_unready(rem, g, done);
    if rem.len() == 0 {
        assert((rdy + unr) =~= Seq::<Seq<char>>::empty());
        assert((rdy + unr).to_multiset() =~= rem.to_multiset());
    } else {
        lemma_partition(rem.drop_first(), g, done);
        let rdy1 = spec_ready(rem.drop_first(), g, done);
        let unr1 = spec_unready(rem.drop_first(), g, done);
        lemma_multiset_commutative(rdy1, unr1);
        lemma_multiset_commutative(rdy, unr);
        if spec_all_done(spec_deps_of(g, rem[0]), done) {
            assert(rdy =~= seq![rem[0]] + rdy1);
            lemma_multiset_commutative(seq![rem[0]], rdy1);
            assert(seq![rem[0]].to_multiset() =~= Multiset::<Seq<char>>::empty().insert(
                rem[0],
            )) by {
                assert(seq![rem[0]] =~= Seq::<Seq<char>>::empty().push(rem[0]));
            }
        } else {
            assert(unr =~= seq![rem[0]] + unr1);
            lemma_multiset_commutative(seq![rem[0]], unr1);
            assert(seq![rem[0]].to_multiset() =~= Multiset::<Seq<char>>::empty().insert(
                rem[0],
            )) by {
                assert(seq![rem[0]] =~= Seq::<Seq<char>>::empty().push(rem[0]));
            }
        }
        assert(rem =~= seq![rem[0]] + rem.drop_first());
        lemma_multiset_commutative(seq![rem[0]], rem.drop_first());
        assert(seq![rem[0]].to_multiset() =~= Multiset::<Seq<char>>::empty().insert(rem[0]))
            by {
            assert(seq![rem[0]] =~= Seq::<Seq<char>>::empty().push(rem[0]));
        }
        assert((rdy + unr).to_multiset() =~= rem.to_multiset());
    }
}

/// The layers of the remaining steps: each round takes every ready step;
/// a round with no ready step, or exhausted fuel, is a cycle.
pub open spec fn spec_layers(
    rem: Seq<Seq<char>>,
    g: Seq<(Seq<char>, Seq<Seq<char>>)>,
    done: Seq<Seq<char>>,
    fuel: nat,
) -> Result<Seq<Seq<Seq<char>>>, ()>
    decreases fuel,
{
    if rem.len() == 0 {
        Ok(Seq::empty())
    } else if fuel == 0 {
        Err(())
    } else {
        let rdy = spec_ready(rem, g, done);
        if rdy.len() == 0 {
            Err(())
        } else {
            match spec_layers(spec_unready(rem, g, done), g, done + rdy, (fuel - 1) as nat) {
                Ok(ls) => Ok(seq![rdy] + ls),
                Err(()) => Err(()),
            }
        }
    }
}

/// The layering does not depend on the fuel once the fuel covers the
/// remaining steps.
pub proof fn lemma_layers_fuel(
    rem: Seq<Seq<char>>,
    g: Seq<(Seq<char>, Seq<Seq<char>>)>,
    done: Seq<Seq<char>>,
    f1: nat,
    f2: nat,
)
    requires
        f1 >= rem.len(),
        f2 >= rem.len(),
    ensures
        spec_layers(rem, g, done, f1) == spec_layers(rem, g, done, f2),
    decreases rem.len(),
{
    if rem.len() > 0 {
        let rdy = spec_ready(rem, g, done);
        if rdy.len() > 0 {
            lemma_partition(rem, g, done);
            lemma_layers_fuel(
                spec_unready(rem, g, done),
                g,
                done + rdy,
                (f1 - 1) as nat,
                (f2 - 1) as nat,
            );
        }
    }
}

/// The concatenation of the layers: the execution order.
pub open spec fn spec_concat_layers(ls: Seq<Seq<Seq<char>>>) -> Seq<Seq<char>>
    decreases ls,
{
    if ls.len() == 0 {
        Seq::empty()
    } else {
        ls[0] + spec_concat_layers(ls.drop_first())
    }
}

/// The layers with more than one member: the parallel groups.
pub open spec fn spec_big_groups(ls: Seq<Seq<Seq<char>>>) -> Seq<Seq<Seq<char>>>
    decreases ls,
{
    if ls.len() == 0 {
        Seq::empty()
    } else {
        let rest = spec_big_groups(ls.drop_first());
        if ls[0].len() > 1 {
            seq![ls[0]] + rest
        } else {
            rest
        }
    }
}

/// Appending one layer appends its steps to the concatenation and, when it
/// has more than one member, appends it to the groups.
pub proof fn lemma_layers_push(ls: Seq<Seq<Seq<char>>>, x: Seq<Seq<char>>)
    ensures
        spec_concat_layers(ls.push(x)) == spec_concat_layers(ls) + x,
        spec_big_groups(ls.push(x)) == if x.len() > 1 {
            spec_big_groups(ls).push(x)
        } else {
            spec_big_groups(ls)
        },
    decreases ls,
{
    let lp = ls.push(x);
    if ls.len() == 0 {
        assert(lp[0] == x);
        assert(lp.drop_first() =~= Seq::<Seq<Seq<char>>>::empty());
        assert(spec_concat_layers(lp.drop_first()) =~= Seq::<Seq<char>>::empty());
        assert(spec_concat_layers(lp) =~= x + Seq::<Seq<char>>::empty());
        assert(spec_concat_layers(ls) =~= Seq::<Seq<char>>::empty());
        assert(spec_concat_layers(lp) =~~= spec_concat_layers(ls) + x);
        assert(spec_big_groups(lp.drop_first()) =~= Seq::<Seq<Seq<char>>>::empty());
        if x.len() > 1 {
            assert(spec_big_groups(lp) =~~= spec_big_groups(ls).push(x));
        } else {
            assert(spec_big_groups(lp) =~~= spec_big_groups(ls));
        }
    } else {
        assert(lp.drop_first() =~= ls.drop_first().push(x));
        lemma_layers_push(ls.drop_first(), x);
        assert(lp[0] == ls[0]);
        assert(spec_concat_layers(lp) == lp[0] + spec_concat_layers(lp.drop_first()));
        assert(spec_concat_layers(lp) =~~= spec_concat_layers(ls) + x);
        if x.len() > 1 {
            assert(spec_big_groups(lp) =~~= spec_big_groups(ls).push(x));
        } else {
            assert(spec_big_groups(lp) =~~= spec_big_groups(ls));
        }
    }
}

/// A scheduled order is topological when every step's dependencies appear
/// among the steps before it.
pub open spec fn spec_is_topological(
    order: Seq<Seq<char>>,
    g: Seq<(Seq<char>, Seq<Seq<char>>)>,
) -> bool {
    forall|i: int|
        0 <= i < order.len() ==> spec_all_done(
            spec_deps_of(g, #[trigger] order[i]),
            order.take(i),
        )
}

/// Membership is preserved by growing the schedule.
proof fn lemma_all_done_mono(deps: Seq<Seq<char>>, done: Seq<Seq<char>>, more: Seq<Seq<char>>)
    requires
        spec_all_done(deps, done),
        forall|x: Seq<char>| seq_contains(done, x) ==> seq_contains(more, x),
    ensures
        spec_all_done(deps, more),
{
}

/// A prefix contains everything a shorter prefix contains.
proof fn lemma_contains_prefix(xs: Seq<Seq<char>>, ys: Seq<Seq<char>>, x: Seq<char>)
    requires
        seq_contains(xs, x),
        xs.is_prefix_of(ys),
    ensures
        seq_contains(ys, x),
{
    let i = choose|i: int| 0 <= i < xs.len() && xs[i] == x;
    assert(ys[i] == x);
}

/// What the layering guarantees: the concatenation of the layers schedules
/// exactly the remaining steps, and every scheduled step's dependencies are
/// already in `done` or scheduled earlier.
pub proof fn lemma_layers_topological(
    rem: Seq<Seq<char>>,
    g: Seq<(Seq<char>, Seq<Seq<char>>)>,
    done: Seq<Seq<char>>,
    fuel: nat,
)
    requires
        spec_layers(rem, g, done, fuel) is Ok,
    ensures
        ({
            let order = spec_concat_layers(spec_layers(rem, g, done, fuel)->Ok_0);
            order.to_multiset() == rem.to_multiset() && forall|i: int|
                0 <= i < order.len() ==> spec_all_done(
                    spec_deps_of(g, #[trigger] order[i]),
                    done + order.take(i),
                )
        }),
    decreases fuel,
{
    broadcast use vstd::seq_lib::group_to_multiset_ensures;

    if rem.len() == 0 {
        let order = spec_concat_layers(spec_layers(rem, g, done, fuel)->Ok_0);
        assert(order =~= Seq::<Seq<char>>::empty());
        assert(order.to_multiset() =~= rem.to_multiset());
    } else {
        let rdy = spec_ready(rem, g, done);
        let unr = spec_unready(rem, g, done);
        let ls1 = spec_layers(unr, g, done + rdy, (fuel - 1) as nat)->Ok_0;
        let order1 = spec_concat_layers(ls1);
        lemma_layers_topological(unr, g, done + rdy, (fuel - 1) as nat);
        lemma_partition(rem, g, done);
        let ls = spec_layers(rem, g, done, fuel)->Ok_0;
        let order = spec_concat_layers(ls);
        assert(ls == seq![rdy] + ls1);
        assert(ls.drop_first() =~= ls1);
        assert(ls[0] == rdy);
        assert(order == rdy + order1);
        lemma_multiset_commutative(rdy, order1);
        lemma_multiset_commutative(rdy, unr);
        assert(order.to_multiset() =~= rem.to_multiset());
        assert forall|i: int| 0 <= i < order.len() implies spec_all_done(
            spec_deps_of(g, #[trigger] order[i]),
            done + order.take(i),
        ) by {
            if i < rdy.len() {
                assert(order[i] == rdy[i]);
                lemma_ready_all_done(rem, g, done, i);
                assert(done.is_prefix_of(done + order.take(i)));
                lemma_all_done_mono(spec_deps_of(g, order[i]), done, done + order.take(i));
            } else {
                let j = i - rdy.len();
                assert(order[i] == order1[j]);
                assert(spec_all_done(
                    spec_deps_of(g, order1[j]),
                    (done + rdy) + order1.take(j),
                ));
                assert((done + rdy) + order1.take(j) =~= done + order.take(i));
            }
        }
    }
}

/// Every ready step's dependencies are in `done`.
proof fn lemma_ready_all_done(
    rem: Seq<Seq<char>>,
    g: Seq<(Seq<char>, Seq<Seq<char>>)>,
    done: Seq<Seq<char>>,
    i: int,
)
    requires
        0 <= i < spec_ready(rem, g, done).len(),
    ensures
        spec_all_done(spec_deps_of(g, spec_ready(rem, g, done)[i]), done),
    decreases rem,
{
    if rem.len() > 0 {
        let rest = spec_ready(rem.drop_first(), g, done);
        if spec_all_done(spec_deps_of(g, rem[0]), done) {
            if i > 0 {
                lemma_ready_all_done(rem.drop_first(), g, done, i - 1);
            }
        } else {
            lemma_ready_all_done(rem.drop_first(), g, done, i);
        }
    }
}

/// Computes the layers of the steps under the graph. Fails exactly when the
/// layering gets stuck, which happens exactly on a cyclic graph; each
/// caller names that failure in its own words.
pub fn layering(ids: &Vec<String>, graph: &Vec<(String, Vec<String>)>) -> (r: Result<
    Vec<Vec<String>>,
    (),
>)
    ensures
        ({
            let spec = spec_layers(
                strings_model(ids@),
                crate::ast::deps_model(graph@),
                Seq::empty(),
                ids@.len() as nat,
            );
            match r {
                Ok(ls) => spec == Ok::<_, ()>(groups_model(ls@)),
                Err(()) => spec is Err,
            }
        }),
{
    let ghost g = crate::ast::deps_model(graph@);
    let mut remaining: Vec<String> = clone_strings(ids);
    let mut done: Vec<String> = Vec::new();
    let mut layers: Vec<Vec<String>> = Vec::new();
    proof {
        lemma_strings_model(ids@);
        lemma_strings_model(remaining@);
        assert(groups_model(layers@) =~= Seq::<Seq<Seq<char>>>::empty());
        assert(strings_model(done@) =~= Seq::<Seq<char>>::empty());
        assert(strings_model(remaining@).len() == ids@.len());
        assert(Seq::<Seq<char>>::empty() =~= strings_model(done@));
        assert(groups_model(layers@) + spec_layers(
            strings_model(ids@),
            g,
            Seq::empty(),
            ids@.len() as nat,
        )->Ok_0 =~~= spec_layers(strings_model(ids@), g, Seq::empty(), ids@.len() as nat)->Ok_0);
    }
    while remaining.len() > 0
        invariant
            g == crate::ast::deps_model(graph@),
            ({
                let spec0 = spec_layers(strings_model(ids@), g, Seq::empty(), ids@.len() as nat);
                let specr = spec_layers(
                    strings_model(remaining@),
                    g,
                    strings_model(done@),
                    strings_model(remaining@).len() as nat,
                );
                match specr {
                    Ok(ls) => spec0 == Ok::<_, ()>(groups_model(layers@) + ls),
                    Err(()) => spec0 is Err,
                }
            }),
        decreases remaining@.len(),
    {
        let mut ready: Vec<String> = Vec::new();
        let mut rest: Vec<String> = Vec::new();
        let mut k: usize = 0;
        let ghost rm = strings_model(remaining@);
        let ghost dn = strings_model(done@);
        proof {
            lemma_strings_model(remaining@);
            assert(strings_model(ready@) =~= Seq::<Seq<char>>::empty());
            assert(strings_model(rest@) =~= Seq::<Seq<char>>::empty());
            assert(rm.skip(0) =~= rm);
        }
        while k < remaining.len()
            invariant
                k <= remaining@.len(),
                g == crate::ast::deps_model(graph@),
                rm == strings_model(remaining@),
                dn == strings_model(done@),
                rm.len() == remaining@.len(),
                forall|j: int|
                    0 <= j < remaining@.len() ==> #[trigger] rm[j] == remaining@[j]@,
                strings_model(ready@) + spec_ready(rm.skip(k as int), g, dn) == spec_ready(
                    rm,
                    g,
                    dn,
                ),
                strings_model(rest@) + spec_unready(rm.skip(k as int), g, dn) == spec_unready(
                    rm,
                    g,
                    dn,
                ),
            decreases remaining@.len() - k,
        {
            proof {
                assert(rm.skip(k as int)[0] == rm[k as int]);
                assert(rm.skip(k as int).drop_first() =~= rm.skip(k + 1));
            }
            let deps_ok = match graph_deps(graph, &remaining[k]) {
                Some(d) => {
                    let mut all = true;
                    let mut q: usize = 0;
                    let ghost dl = strings_model(d@);
                    proof {
                        lemma_strings_model(d@);
                    }
                    while q < d.len()
                        invariant
                            q <= d@.len(),
                            dn == strings_model(done@),
                            dl == strings_model(d@),
                            dl.len() == d@.len(),
                            forall|j: int| 0 <= j < d@.len() ==> #[trigger] dl[j] == d@[j]@,
                            all == forall|j: int|
                                0 <= j < q ==> seq_contains(dn, #[trigger] dl[j]),
                        decreases d@.len() - q,
                    {
                        if !contains_str(&done, &d[q]) {
                            all = false;
                            proof {
                                assert(!seq_contains(dn, dl[q as int]));
                            }
                        }
                        q = q + 1;
                    }
                    proof {
                        if all {
                            assert(spec_all_done(dl, dn));
                        } else {
                            let j = choose|j: int|
                                0 <= j < dl.len() && !seq_contains(dn, #[trigger] dl[j]);
                            assert(!spec_all_done(dl, dn));
                        }
                    }
                    all
                },
                None => true,
            };
            if deps_ok {
                let s = remaining[k].clone();
                proof {
                    lemma_strings_model_push(ready@, s);
                    assert(strings_model(ready@).push(s@) + spec_ready(rm.skip(k + 1), g, dn)
                        =~= strings_model(ready@) + (seq![rm[k as int]] + spec_ready(
                        rm.skip(k + 1),
                        g,
                        dn,
                    )));
                }
                ready.push(s);
            } else {
                let s = remaining[k].clone();
                proof {
                    lemma_strings_model_push(rest@, s);
                    assert(strings_model(rest@).push(s@) + spec_unready(rm.skip(k + 1), g, dn)
                        =~= strings_model(rest@) + (seq![rm[k as int]] + spec_unready(
                        rm.skip(k + 1),
                        g,
                        dn,
                    )));
                }
                rest.push(s);
            }
            k = k + 1;
        }
        proof {
            assert(rm.skip(rm.len() as int) =~= Seq::<Seq<char>>::empty());
            assert(strings_model(ready@) + Seq::<Seq<char>>::empty() =~= strings_model(ready@));
            assert(strings_model(rest@) + Seq::<Seq<char>>::empty() =~= strings_model(rest@));
        }
        if ready.len() == 0 {
            proof {
                lemma_strings_model(ready@);
            }
            return Err(());
        }
        proof {
            lemma_strings_model(ready@);
            lemma_partition(rm, g, dn);
        }
        // Extend the schedule by the ready layer.
        let mut w: usize = 0;
        let ghost rdy = strings_model(ready@);
        proof {
            assert(strings_model(done@) + rdy.skip(0) =~= dn + rdy);
            lemma_strings_model(ready@);
        }
        while w < ready.len()
            invariant
                w <= ready@.len(),
                rdy == strings_model(ready@),
                rdy.len() == ready@.len(),
                forall|j: int| 0 <= j < ready@.len() ==> #[trigger] rdy[j] == ready@[j]@,
                strings_model(done@) + rdy.skip(w as int) == dn + rdy,
            decreases ready@.len() - w,
        {
            let s = ready[w].clone();
            proof {
                lemma_strings_model_push(done@, s);
                assert(rdy.skip(w as int)[0] == rdy[w as int]);
                assert(rdy.skip(w as int).drop_first() =~= rdy.skip(w + 1));
                assert(strings_model(done@).push(s@) + rdy.skip(w + 1) =~= strings_model(done@)
                    + (seq![rdy[w as int]] + rdy.skip(w + 1)));
            }
            done.push(s);
            w = w + 1;
        }
        proof {
            assert(rdy.skip(rdy.len() as int) =~= Seq::<Seq<char>>::empty());
            assert(strings_model(done@) + Seq::<Seq<char>>::empty() =~= strings_model(done@));
            assert(strings_model(done@) == dn + rdy);
            crate::compiler::lemma_groups_model_push(layers@, ready);
            lemma_layers_fuel(
                spec_unready(rm, g, dn),
                g,
                dn + rdy,
                (rm.len() - 1) as nat,
                spec_unready(rm, g, dn).len() as nat,
            );
            assert((groups_model(layers@).push(rdy)) + spec_layers(
                spec_unready(rm, g, dn),
                g,
                dn + rdy,
                spec_unready(rm, g, dn).len() as nat,
            )->Ok_0 =~= groups_model(layers@) + (seq![rdy] + spec_layers(
                spec_unready(rm, g, dn),
                g,
                dn + rdy,
                spec_unready(rm, g, dn).len() as nat,
            )->Ok_0)) by {
                if spec_layers(
                    spec_unready(rm, g, dn),
                    g,
                    dn + rdy,
                    spec_unready(rm, g, dn).len() as nat,
                ) is Ok {
                }
            }
        }
        proof {
            lemma_strings_model(rest@);
            assert(rest@.len() < remaining@.len());
        }
        layers.push(ready);
        remaining = rest;
    }
    proof {
        assert(strings_model(remaining@).len() == 0) by {
            lemma_strings_model(remaining@);
        }
        assert(groups_model(layers@) + Seq::<Seq<Seq<char>>>::empty() =~= groups_model(layers@));
    }
    Ok(layers)
}

/// Every layer is one of the groups' sources: each big group is a layer.
proof fn lemma_big_groups_are_layers(ls: Seq<Seq<Seq<char>>>, k: int)
    requires
        0 <= k < spec_big_groups(ls).len(),
    ensures
        exists|j: int| 0 <= j < ls.len() && ls[j] == spec_big_groups(ls)[k],
    decreases ls,
{
    if ls.len() > 0 {
        let rest = spec_big_groups(ls.drop_first());
        if ls[0].len() > 1 {
            if k > 0 {
                lemma_big_groups_are_layers(ls.drop_first(), k - 1);
                let j = choose|j: int|
                    0 <= j < ls.drop_first().len() && ls.drop_first()[j] == rest[k - 1];
                assert(ls[j + 1] == spec_big_groups(ls)[k]);
            } else {
                assert(ls[0] == spec_big_groups(ls)[k]);
            }
        } else {
            lemma_big_groups_are_layers(ls.drop_first(), k);
            let j = choose|j: int|
                0 <= j < ls.drop_first().len() && ls.drop_first()[j] == rest[k];
            assert(ls[j + 1] == spec_big_groups(ls)[k]);
        }
    }
}

/// Every member of a layer appears in the concatenation of the layers.
proof fn lemma_concat_contains(ls: Seq<Seq<Seq<char>>>, j: int, w: int)
    requires
        0 <= j < ls.len(),
        0 <= w < ls[j].len(),
    ensures
        seq_contains(spec_concat_layers(ls), ls[j][w]),
    decreases ls,
{
    let whole = spec_concat_layers(ls);
    if j == 0 {
        assert(whole[w] == ls[0][w]);
    } else {
        lemma_concat_contains(ls.drop_first(), j - 1, w);
        let rest = spec_concat_layers(ls.drop_first());
        let k = choose|k: int| 0 <= k < rest.len() && rest[k] == ls.drop_first()[j - 1][w];
        assert(whole[ls[0].len() + k] == rest[k]);
    }
}

/// Every member of every parallel group stands in the execution order the
/// layering yields.
pub proof fn lemma_groups_within_order(ls: Seq<Seq<Seq<char>>>, k: int, w: int)
    requires
        0 <= k < spec_big_groups(ls).len(),
        0 <= w < spec_big_groups(ls)[k].len(),
    ensures
        seq_contains(spec_concat_layers(ls), spec_big_groups(ls)[k][w]),
{
    lemma_big_groups_are_layers(ls, k);
    let j = choose|j: int| 0 <= j < ls.len() && ls[j] == spec_big_groups(ls)[k];
    lemma_concat_contains(ls, j, w);
}

} // verus!
