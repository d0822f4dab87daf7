//! The line parser: classifies one trimmed line and extracts its node.
//!
//! Recognizers are tried in a fixed priority order: comment, proposition
//! header, hypothesis clause, pipeline-stage assignment, function header,
//! conditional header, data-source declaration, bare variable assignment;
//! any other line is kept as an expression. `spec_parse_line` defines the
//! resulting node exactly.

use vstd::prelude::*;

use vstd::string::StringExecFns;

use crate::ast::{
    lemma_strings_model, lemma_strings_model_push, nodes_model, strings_model, NodeModel,
    NodeType, TurbulanceNode,
};
use crate::lines::{
    is_comment, match_conditional, match_data_source, match_funxn, match_hypothesis,
    match_pipeline, match_proposition, match_variable, spec_find_ds, spec_is_comment,
    spec_match_conditional, spec_match_funxn, spec_match_hypothesis, spec_match_pipeline,
    spec_match_proposition, spec_match_variable,
};
use crate::scan::{is_alpha, is_word_char, spec_find_char, spec_trim};
use crate::text::string_from_chars;
use crate::value::{
    arr_model, lemma_arr_model, lemma_arr_model_push, lemma_obj_model, lemma_obj_model_push,
    obj_model, TurbulanceValue, Val,
};
use crate::values::{parse_config_object, parse_value, spec_parse_config, spec_parse_value};

verus! {

/// A bare identifier: a letter followed by word characters only. Any string
/// of this shape occurring in a configuration value is recorded as a
/// candidate dependency.
pub open spec fn is_bare_ident(s: Seq<char>) -> bool {
    s.len() > 0 && is_alpha(s[0]) && forall|i: int| 0 <= i < s.len() ==> is_word_char(
        #[trigger] s[i],
    )
}

/// Tests whether a string is a bare identifier.
pub fn bare_ident(s: &String) -> (r: bool)
    ensures
        r == is_bare_ident(s@),
{
    let cs = crate::text::chars_vec(s.as_str());
    if cs.len() == 0 {
        return false;
    }
    let c0 = cs[0];
    if !(('a' <= c0 && c0 <= 'z') || ('A' <= c0 && c0 <= 'Z')) {
        return false;
    }
    let mut i: usize = 0;
    while i < cs.len()
        invariant
            i <= cs@.len(),
            cs@ == s@,
            forall|k: int| 0 <= k < i ==> is_word_char(#[trigger] cs@[k]),
        decreases cs@.len() - i,
    {
        if !crate::scan::word_char(cs[i]) {
            return false;
        }
        i = i + 1;
    }
    true
}

/// The candidate dependencies mentioned by a value: every bare identifier
/// among its strings, in order; arrays, objects and pipeline calls are
/// scanned recursively through their values.
pub open spec fn spec_deps_of_val(v: Val) -> Seq<Seq<char>>
    decreases v,
{
    match v {
        Val::Str(s) => if is_bare_ident(s) {
            seq![s]
        } else {
            Seq::empty()
        },
        Val::Array(items) => spec_deps_of_vals(items),
        Val::Object(pairs) => spec_deps_of_pairs_vals(pairs),
        Val::PipelineCall { stage, config } => spec_deps_of_pairs_vals(config),
        _ => Seq::empty(),
    }
}

/// The candidate dependencies of a sequence of values.
pub open spec fn spec_deps_of_vals(items: Seq<Val>) -> Seq<Seq<char>>
    decreases items,
{
    if items.len() == 0 {
        Seq::empty()
    } else {
        spec_deps_of_val(items[0]) + spec_deps_of_vals(items.drop_first())
    }
}

/// The candidate dependencies of an association list's values.
pub open spec fn spec_deps_of_pairs_vals(pairs: Seq<(Seq<char>, Val)>) -> Seq<Seq<char>>
    decreases pairs,
{
    if pairs.len() == 0 {
        Seq::empty()
    } else {
        spec_deps_of_val(pairs[0].1) + spec_deps_of_pairs_vals(pairs.drop_first())
    }
}

/// Appends the candidate dependencies of `v` to `deps`.
pub fn extract_deps_value(v: &TurbulanceValue, deps: &mut Vec<String>)
    ensures
        strings_model(final(deps)@) == strings_model(old(deps)@) + spec_deps_of_val(v.model()),
    decreases *v,
{
    match v {
        TurbulanceValue::Str(s) => {
            if bare_ident(s) {
                proof {
                    lemma_strings_model_push(deps@, *s);
                    assert(strings_model(deps@).push(s@) =~= strings_model(deps@) + seq![s@]);
                }
                deps.push(s.clone());
            } else {
                proof {
                    assert(strings_model(deps@) + Seq::<Seq<char>>::empty() =~= strings_model(
                        deps@,
                    ));
                }
            }
        },
        TurbulanceValue::Array(items) => {
            extract_deps_values(items, deps);
        },
        TurbulanceValue::Object(pairs) => {
            extract_deps_pairs(pairs, deps);
        },
        TurbulanceValue::PipelineCall { stage, config } => {
            extract_deps_pairs(config, deps);
        },
        _ => {
            proof {
                assert(strings_model(deps@) + Seq::<Seq<char>>::empty() =~= strings_model(
                    deps@,
                ));
            }
        },
    }
}

/// Appends the candidate dependencies of each value in `items` to `deps`.
pub fn extract_deps_values(items: &Vec<TurbulanceValue>, deps: &mut Vec<String>)
    ensures
        strings_model(final(deps)@) == strings_model(old(deps)@) + spec_deps_of_vals(
            arr_model(items@),
        ),
    decreases *items,
{
    let ghost m = arr_model(items@);
    proof {
        lemma_arr_model(items@);
        assert(m.skip(0) =~= m);
        assert(strings_model(deps@) + Seq::<Seq<char>>::empty() =~= strings_model(deps@));
    }
    let mut j: usize = 0;
    while j < items.len()
        invariant
            j <= items@.len(),
            m == arr_model(items@),
            m.len() == items@.len(),
            forall|k: int| 0 <= k < items@.len() ==> #[trigger] m[k] == items@[k].model(),
            strings_model(old(deps)@) + spec_deps_of_vals(m) == strings_model(deps@)
                + spec_deps_of_vals(m.skip(j as int)),
        decreases items@.len() - j,
    {
        proof {
            assert(m.skip(j as int)[0] == m[j as int]);
            assert(m.skip(j as int).drop_first() =~= m.skip(j + 1));
        }
        let ghost before = deps@;
        extract_deps_value(&items[j], deps);
        proof {
            assert(strings_model(deps@) =~= strings_model(before) + spec_deps_of_val(
                m[j as int],
            ));
            assert(strings_model(before) + (spec_deps_of_val(m[j as int]) + spec_deps_of_vals(
                m.skip(j + 1),
            )) =~= (strings_model(before) + spec_deps_of_val(m[j as int])) + spec_deps_of_vals(
                m.skip(j + 1),
            ));
        }
        j = j + 1;
    }
    proof {
        assert(m.skip(items@.len() as int) =~= Seq::<Val>::empty());
        assert(strings_model(deps@) + Seq::<Seq<char>>::empty() =~= strings_model(deps@));
    }
}

/// Appends the candidate dependencies of each value in `pairs` to `deps`.
pub fn extract_deps_pairs(pairs: &Vec<(String, TurbulanceValue)>, deps: &mut Vec<String>)
    ensures
        strings_model(final(deps)@) == strings_model(old(deps)@) + spec_deps_of_pairs_vals(
            obj_model(pairs@),
        ),
    decreases *pairs,
{
    let ghost m = obj_model(pairs@);
    proof {
        lemma_obj_model(pairs@);
        assert(m.skip(0) =~= m);
        assert(strings_model(deps@) + Seq::<Seq<char>>::empty() =~= strings_model(deps@));
    }
    let mut j: usize = 0;
    while j < pairs.len()
        invariant
            j <= pairs@.len(),
            m == obj_model(pairs@),
            m.len() == pairs@.len(),
            forall|k: int|
                0 <= k < pairs@.len() ==> #[trigger] m[k] == (
                    pairs@[k].0@,
                    pairs@[k].1.model(),
                ),
            strings_model(old(deps)@) + spec_deps_of_pairs_vals(m) == strings_model(deps@)
                + spec_deps_of_pairs_vals(m.skip(j as int)),
        decreases pairs@.len() - j,
    {
        proof {
            assert(m.skip(j as int)[0] == m[j as int]);
            assert(m.skip(j as int).drop_first() =~= m.skip(j + 1));
        }
        let ghost before = deps@;
        extract_deps_value(&pairs[j].1, deps);
        proof {
            assert(strings_model(deps@) =~= strings_model(before) + spec_deps_of_val(
                m[j as int].1,
            ));
            assert(strings_model(before) + (spec_deps_of_val(m[j as int].1)
                + spec_deps_of_pairs_vals(m.skip(j + 1))) =~= (strings_model(before)
                + spec_deps_of_val(m[j as int].1)) + spec_deps_of_pairs_vals(m.skip(j + 1)));
        }
        j = j + 1;
    }
    proof {
        assert(m.skip(pairs@.len() as int) =~= Seq::<(Seq<char>, Val)>::empty());
        assert(strings_model(deps@) + Seq::<Seq<char>>::empty() =~= strings_model(deps@));
    }
}

/// The function-parameter values of the raw text between the parentheses of
/// a function header, from `start` on: comma-separated pieces, trimmed, the
/// empty ones skipped, each kept as a string.
pub open spec fn spec_param_list_from(s: Seq<char>, start: int) -> Seq<Val>
    decreases s.len() - start,
    via spec_param_list_from_dec
{
    if start < 0 || start > s.len() {
        Seq::empty()
    } else {
        let p = spec_find_char(s, start, ',');
        let piece = spec_trim(s.subrange(start, p));
        let head: Seq<Val> = if piece.len() > 0 {
            seq![Val::Str(piece)]
        } else {
            Seq::empty()
        };
        if p == s.len() {
            head
        } else {
            head + spec_param_list_from(s, p + 1)
        }
    }
}

#[via_fn]
proof fn spec_param_list_from_dec(s: Seq<char>, start: int) {
    if 0 <= start <= s.len() {
        crate::scan::lemma_find_char_range(s, start, ',');
    }
}

/// The function-parameter values of the raw parameter text.
pub open spec fn spec_param_list(s: Seq<char>) -> Seq<Val> {
    spec_param_list_from(s, 0)
}

/// Splits a function header's parameter text into parameter values.
pub fn parse_parameter_list(s: &Vec<char>) -> (r: Vec<TurbulanceValue>)
    ensures
        arr_model(r@) == spec_param_list(s@),
{
    let mut items: Vec<TurbulanceValue> = Vec::new();
    let mut start: usize = 0;
    let mut done = false;
    proof {
        assert(arr_model(items@) + spec_param_list_from(s@, 0) =~= spec_param_list(s@));
    }
    while !done
        invariant
            start <= s@.len(),
            !done ==> arr_model(items@) + spec_param_list_from(s@, start as int)
                == spec_param_list(s@),
            done ==> arr_model(items@) == spec_param_list(s@),
        decreases s@.len() - start + (if done {
            0int
        } else {
            1int
        }),
    {
        let p = crate::scan::find_char(s, start, ',');
        let raw = crate::text::subvec(s, start, p);
        let piece = crate::scan::trim_vec(&raw);
        if piece.len() > 0 {
            let v = TurbulanceValue::Str(string_from_chars(piece.as_slice()));
            proof {
                lemma_arr_model_push(items@, v);
                assert(arr_model(items@).push(v.model()) + spec_param_list_from(s@, p + 1)
                    =~= arr_model(items@) + (seq![v.model()] + spec_param_list_from(
                    s@,
                    p + 1,
                )));
                assert(arr_model(items@).push(v.model()) =~= arr_model(items@) + seq![
                    v.model()
                ]);
            }
            items.push(v);
        } else {
            proof {
                assert(arr_model(items@) + Seq::<Val>::empty() =~= arr_model(items@));
                assert(Seq::<Val>::empty() + spec_param_list_from(s@, p + 1)
                    =~= spec_param_list_from(s@, p + 1));
            }
        }
        if p == s.len() {
            done = true;
        } else {
            start = p + 1;
        }
    }
    items
}

/// The node denoted by the trimmed line `t` at line number `num`.
pub open spec fn spec_parse_line(t: Seq<char>, num: int) -> NodeModel {
    if spec_is_comment(t) {
        spec_plain_node(NodeType::Comment, num, t, None, Seq::empty())
    } else if spec_match_proposition(t) is Some {
        spec_plain_node(
            NodeType::Proposition,
            num,
            t,
            Some(spec_match_proposition(t)->0),
            Seq::empty(),
        )
    } else if spec_match_hypothesis(t) is Some {
        spec_plain_node(
            NodeType::Hypothesis,
            num,
            t,
            None,
            seq![("hypothesis"@, Val::Str(spec_match_hypothesis(t)->0))],
        )
    } else if spec_match_pipeline(t) is Some {
        let (var, stage, cfg) = spec_match_pipeline(t)->0;
        let has_cfg = cfg is Some && (cfg->0).len() > 0;
        let params: Seq<(Seq<char>, Val)> = if has_cfg {
            seq![
                ("stage"@, Val::Str(stage)),
                ("config"@, Val::Object(spec_parse_config(cfg->0))),
            ]
        } else {
            seq![("stage"@, Val::Str(stage))]
        };
        let deps: Seq<Seq<char>> = if has_cfg {
            spec_deps_of_pairs_vals(spec_parse_config(cfg->0))
        } else {
            Seq::empty()
        };
        NodeModel {
            node_type: NodeType::PipelineStage,
            line_number: num,
            content: t,
            name: Some(var),
            parameters: params,
            children: Seq::empty(),
            dependencies: deps,
        }
    } else if spec_match_funxn(t) is Some {
        let (name, ps) = spec_match_funxn(t)->0;
        let params: Seq<(Seq<char>, Val)> = if ps.len() > 0 {
            seq![("parameters"@, Val::Array(spec_param_list(ps)))]
        } else {
            Seq::empty()
        };
        spec_plain_node(NodeType::Function, num, t, Some(name), params)
    } else if spec_match_conditional(t) is Some {
        let (ck, cond) = spec_match_conditional(t)->0;
        spec_plain_node(
            NodeType::Conditional,
            num,
            t,
            None,
            seq![("condition_type"@, Val::Str(ck)), ("condition"@, Val::Str(cond))],
        )
    } else if spec_find_ds(t, 0) is Some {
        let (st, sn) = spec_find_ds(t, 0)->0;
        spec_plain_node(
            NodeType::DataSource,
            num,
            t,
            Some(sn),
            seq![("source_type"@, Val::Str(st)), ("source_name"@, Val::Str(sn))],
        )
    } else if spec_match_variable(t) is Some {
        let (name, vtext) = spec_match_variable(t)->0;
        spec_plain_node(
            NodeType::Variable,
            num,
            t,
            Some(name),
            seq![("value"@, spec_parse_value(vtext))],
        )
    } else {
        spec_plain_node(NodeType::Expression, num, t, None, Seq::empty())
    }
}

/// A node without children or dependencies.
pub open spec fn spec_plain_node(
    k: NodeType,
    num: int,
    content: Seq<char>,
    name: Option<Seq<char>>,
    params: Seq<(Seq<char>, Val)>,
) -> NodeModel {
    NodeModel {
        node_type: k,
        line_number: num,
        content: content,
        name: name,
        parameters: params,
        children: Seq::empty(),
        dependencies: Seq::empty(),
    }
}

/// Parses one trimmed line into a node.
pub fn parse_line(t: &Vec<char>, num: usize) -> (n: TurbulanceNode)
    ensures
        n.model() == spec_parse_line(t@, num as int),
{
    let content = string_from_chars(t.as_slice());
    if is_comment(t) {
        return plain_node(NodeType::Comment, num, content, None, Vec::new());
    }
    match match_proposition(t) {
        Some(name) => {
            return plain_node(
                NodeType::Proposition,
                num,
                content,
                Some(string_from_chars(name.as_slice())),
                Vec::new(),
            );
        },
        None => {},
    }
    match match_hypothesis(t) {
        Some(h) => {
            let mut params: Vec<(String, TurbulanceValue)> = Vec::new();
            let key = String::from_str("hypothesis");
            let v = TurbulanceValue::Str(string_from_chars(h.as_slice()));
            proof {
                lemma_obj_model_push(params@, key, v);
                assert(obj_model(Seq::<(String, TurbulanceValue)>::empty()).push((key@, v.model()))
                    =~= seq![("hypothesis"@, Val::Str(h@))]);
            }
            params.push((key, v));
            return plain_node(NodeType::Hypothesis, num, content, None, params);
        },
        None => {},
    }
    match match_pipeline(t) {
        Some((var, stage, cfg)) => {
            let mut params: Vec<(String, TurbulanceValue)> = Vec::new();
            let skey = String::from_str("stage");
            let sval = TurbulanceValue::Str(string_from_chars(stage.as_slice()));
            proof {
                lemma_obj_model_push(params@, skey, sval);
            }
            params.push((skey, sval));
            let mut deps: Vec<String> = Vec::new();
            let has_cfg = match &cfg {
                Some(c) => c.len() > 0,
                None => false,
            };
            if has_cfg {
                let c = match cfg {
                    Some(c) => c,
                    None => Vec::new(),
                };
                let conf = parse_config_object(&c);
                proof {
                    lemma_strings_model(deps@);
                    assert(strings_model(deps@) =~= Seq::<Seq<char>>::empty());
                    assert(Seq::<Seq<char>>::empty() + spec_deps_of_pairs_vals(obj_model(conf@))
                        =~= spec_deps_of_pairs_vals(obj_model(conf@)));
                }
                extract_deps_pairs(&conf, &mut deps);
                let ckey = String::from_str("config");
                let cval = TurbulanceValue::Object(conf);
                proof {
                    lemma_obj_model_push(params@, ckey, cval);
                }
                params.push((ckey, cval));
            }
            let node = TurbulanceNode {
                node_type: NodeType::PipelineStage,
                line_number: num,
                content: content,
                name: Some(string_from_chars(var.as_slice())),
                parameters: params,
                children: Vec::new(),
                dependencies: deps,
            };
            proof {
                assert(nodes_model(node.children@) =~= Seq::<NodeModel>::empty());
                assert(node.model().parameters =~= spec_parse_line(t@, num as int).parameters);
                assert(node.model() == spec_parse_line(t@, num as int));
            }
            return node;
        },
        None => {},
    }
    match match_funxn(t) {
        Some((name, ps)) => {
            let mut params: Vec<(String, TurbulanceValue)> = Vec::new();
            if ps.len() > 0 {
                let vals = parse_parameter_list(&ps);
                let pkey = String::from_str("parameters");
                let pval = TurbulanceValue::Array(vals);
                proof {
                    lemma_obj_model_push(params@, pkey, pval);
                }
                params.push((pkey, pval));
            }
            return plain_node(
                NodeType::Function,
                num,
                content,
                Some(string_from_chars(name.as_slice())),
                params,
            );
        },
        None => {},
    }
    match match_conditional(t) {
        Some((ck, cond)) => {
            let mut params: Vec<(String, TurbulanceValue)> = Vec::new();
            let k1 = String::from_str("condition_type");
            let v1 = TurbulanceValue::Str(string_from_chars(ck.as_slice()));
            proof {
                lemma_obj_model_push(params@, k1, v1);
            }
            params.push((k1, v1));
            let k2 = String::from_str("condition");
            let v2 = TurbulanceValue::Str(string_from_chars(cond.as_slice()));
            proof {
                lemma_obj_model_push(params@, k2, v2);
            }
            params.push((k2, v2));
            proof {
                assert(obj_model(params@) =~~= seq![
                    ("condition_type"@, v1.model()),
                    ("condition"@, v2.model()),
                ]);
            }
            return plain_node(NodeType::Conditional, num, content, None, params);
        },
        None => {},
    }
    match match_data_source(t) {
        Some((st, sn)) => {
            let mut params: Vec<(String, TurbulanceValue)> = Vec::new();
            let k1 = String::from_str("source_type");
            let v1 = TurbulanceValue::Str(string_from_chars(st.as_slice()));
            proof {
                lemma_obj_model_push(params@, k1, v1);
            }
            params.push((k1, v1));
            let k2 = String::from_str("source_name");
            let v2 = TurbulanceValue::Str(string_from_chars(sn.as_slice()));
            proof {
                lemma_obj_model_push(params@, k2, v2);
            }
            params.push((k2, v2));
            proof {
                assert(obj_model(params@) =~~= seq![
                    ("source_type"@, v1.model()),
                    ("source_name"@, v2.model()),
                ]);
            }
            return plain_node(
                NodeType::DataSource,
                num,
                content,
                Some(string_from_chars(sn.as_slice())),
                params,
            );
        },
        None => {},
    }
    match match_variable(t) {
        Some((name, vtext)) => {
            let mut params: Vec<(String, TurbulanceValue)> = Vec::new();
            let key = String::from_str("value");
            let v = parse_value(&vtext);
            proof {
                lemma_obj_model_push(params@, key, v);
            }
            params.push((key, v));
            return plain_node(
                NodeType::Variable,
                num,
                content,
                Some(string_from_chars(name.as_slice())),
                params,
            );
        },
        None => {},
    }
    plain_node(NodeType::Expression, num, content, None, Vec::new())
}

/// Builds a node without children or dependencies.
fn plain_node(
    k: NodeType,
    num: usize,
    content: String,
    name: Option<String>,
    params: Vec<(String, TurbulanceValue)>,
) -> (n: TurbulanceNode)
    ensures
        n.model() == spec_plain_node(
            k,
            num as int,
            content@,
            match name {
                Some(s) => Some(s@),
                None => None,
            },
            obj_model(params@),
        ),
{
    let n = TurbulanceNode {
        node_type: k,
        line_number: num,
        content: content,
        name: name,
        parameters: params,
        children: Vec::new(),
        dependencies: Vec::new(),
    };
    proof {
        assert(nodes_model(n.children@) =~= Seq::<NodeModel>::empty());
        assert(strings_model(n.dependencies@) =~= Seq::<Seq<char>>::empty());
    }
    n
}

} // verus!
