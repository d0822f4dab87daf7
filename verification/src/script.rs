//! The script parser: lines to a complete [`TurbulanceScript`].
//!
//! Parsing never fails: blank lines are skipped, comment lines become
//! comment nodes, and any line no recognizer accepts degrades to an
//! expression node. An indentation stack attaches each node to the nearest
//! enclosing proposition, function or indented conditional with a smaller
//! indentation; the attached copies are the child lines as parsed, without
//! children of their own.

use vstd::prelude::*;

use crate::ast::{
    deps_model, lemma_deps_model_push, lemma_nodes_model_push, nodes_model, strings_model,
    NodeModel, NodeType, TurbulanceNode, TurbulanceScript,
};
use crate::parser::{parse_line, spec_parse_line};
use crate::scan::{spec_skip_ws, spec_trim, trim_vec};
use crate::split::{spec_split_lines, split_lines};
use crate::text::{charvecs_model, chars_vec, lemma_charvecs_model, string_from_chars};
use crate::value::{lemma_obj_model_push, obj_model, TurbulanceValue, Val};
use crate::values::{parse_config_object, spec_parse_config};
use crate::FourSidedTriangleError;

verus! {

/// One parsed entry: a trimmed non-blank line, its line number, and its
/// indentation (the count of leading whitespace characters of the raw line).
pub struct Entry {
    pub text: Vec<char>,
    pub num: usize,
    pub indent: usize,
}

/// The model of one entry.
pub struct EntryModel {
    pub text: Seq<char>,
    pub num: int,
    pub indent: int,
}

impl Entry {
    /// The model of this entry.
    pub open spec fn model(self) -> EntryModel {
        EntryModel { text: self.text@, num: self.num as int, indent: self.indent as int }
    }
}

/// The models of a sequence of entries.
pub open spec fn entries_model(es: Seq<Entry>) -> Seq<EntryModel>
    decreases es,
{
    if es.len() == 0 {
        Seq::empty()
    } else {
        seq![es[0].model()] + entries_model(es.drop_first())
    }
}

/// `entries_model` maps the sequence elementwise.
pub proof fn lemma_entries_model(es: Seq<Entry>)
    ensures
        entries_model(es).len() == es.len(),
        forall|i: int| 0 <= i < es.len() ==> #[trigger] entries_model(es)[i] == es[i].model(),
    decreases es,
{
    if es.len() > 0 {
        lemma_entries_model(es.drop_first());
    }
}

/// Appending one entry extends the model by its model.
pub proof fn lemma_entries_model_push(es: Seq<Entry>, e: Entry)
    ensures
        entries_model(es.push(e)) == entries_model(es).push(e.model()),
{
    lemma_entries_model(es.push(e));
    lemma_entries_model(es);
    assert(entries_model(es.push(e)) =~~= entries_model(es).push(e.model()));
}

/// The entries of the lines from index `i` on: blank lines skipped, each
/// other line trimmed, numbered from one, with its indentation.
pub open spec fn spec_entries_from(lines: Seq<Seq<char>>, i: int) -> Seq<EntryModel>
    decreases lines.len() - i,
{
    if i < 0 || i >= lines.len() {
        Seq::empty()
    } else {
        let t = spec_trim(lines[i]);
        if t.len() == 0 {
            spec_entries_from(lines, i + 1)
        } else {
            seq![
                EntryModel { text: t, num: i + 1, indent: spec_skip_ws(lines[i], 0) },
            ] + spec_entries_from(lines, i + 1)
        }
    }
}

/// The entries of a script text.
pub open spec fn spec_entries(text: Seq<char>) -> Seq<EntryModel> {
    spec_entries_from(spec_split_lines(text), 0)
}

/// Pops every stack level whose indentation is at least `ind`.
pub open spec fn spec_pop(stack: Seq<(usize, usize)>, ind: int) -> Seq<(usize, usize)>
    decreases stack,
{
    if stack.len() > 0 && ind <= stack.last().1 {
        spec_pop(stack.drop_last(), ind)
    } else {
        stack
    }
}

/// Whether a node of this kind at this indentation opens a nesting context.
pub open spec fn spec_opens_context(k: NodeType, ind: int) -> bool {
    k == NodeType::Proposition || k == NodeType::Function || (k == NodeType::Conditional && ind
        > 0)
}

/// The parent entry index of each entry from `i` on, given the context
/// stack: comments attach nowhere and leave the stack unchanged; any other
/// entry pops dedented levels, attaches to the remaining top, and pushes
/// itself if it opens a context.
pub open spec fn spec_parents_from(
    es: Seq<EntryModel>,
    i: int,
    stack: Seq<(usize, usize)>,
) -> Seq<Option<usize>>
    decreases es.len() - i,
{
    if i < 0 || i >= es.len() {
        Seq::empty()
    } else {
        let e = es[i];
        if crate::lines::spec_is_comment(e.text) {
            seq![None::<usize>] + spec_parents_from(es, i + 1, stack)
        } else {
            let stack1 = spec_pop(stack, e.indent);
            let par: Option<usize> = if stack1.len() > 0 {
                Some(stack1.last().0)
            } else {
                None
            };
            let k = spec_parse_line(e.text, e.num).node_type;
            let stack2 = if spec_opens_context(k, e.indent) {
                stack1.push((i as usize, e.indent as usize))
            } else {
                stack1
            };
            seq![par] + spec_parents_from(es, i + 1, stack2)
        }
    }
}

/// The parent entry index of each entry.
pub open spec fn spec_parents(es: Seq<EntryModel>) -> Seq<Option<usize>> {
    spec_parents_from(es, 0, Seq::empty())
}

/// The children attached to entry `e`: the nodes of the entries from `f` on
/// whose parent is `e`, as parsed, without children of their own.
pub open spec fn spec_children_from(
    es: Seq<EntryModel>,
    parents: Seq<Option<usize>>,
    e: int,
    f: int,
) -> Seq<NodeModel>
    decreases es.len() - f,
{
    if f < 0 || f >= es.len() {
        Seq::empty()
    } else {
        let rest = spec_children_from(es, parents, e, f + 1);
        if f < parents.len() && parents[f] == Some(e as usize) {
            seq![spec_parse_line(es[f].text, es[f].num)] + rest
        } else {
            rest
        }
    }
}

/// The node of entry `e` with its children attached.
pub open spec fn spec_node_with_children(
    es: Seq<EntryModel>,
    parents: Seq<Option<usize>>,
    e: int,
) -> NodeModel {
    NodeModel {
        children: spec_children_from(es, parents, e, 0),
        ..spec_parse_line(es[e].text, es[e].num)
    }
}

/// The full node list of a script: each entry's node with its children.
pub open spec fn spec_nodes_from(
    es: Seq<EntryModel>,
    parents: Seq<Option<usize>>,
    e: int,
) -> Seq<NodeModel>
    decreases es.len() - e,
{
    if e < 0 || e >= es.len() {
        Seq::empty()
    } else {
        seq![spec_node_with_children(es, parents, e)] + spec_nodes_from(es, parents, e + 1)
    }
}

/// The childless nodes of the entries from `i` on whose kind is `k`.
pub open spec fn spec_nodes_of_kind(es: Seq<EntryModel>, k: NodeType, i: int) -> Seq<NodeModel>
    decreases es.len() - i,
{
    if i < 0 || i >= es.len() {
        Seq::empty()
    } else {
        let n = spec_parse_line(es[i].text, es[i].num);
        let rest = spec_nodes_of_kind(es, k, i + 1);
        if n.node_type == k {
            seq![n] + rest
        } else {
            rest
        }
    }
}

/// The variable bindings of the entries from `i` on: each pipeline-stage
/// assignment binds its variable to the pipeline call, and each bare
/// assignment binds its variable to its parsed value. A later binding
/// shadows an earlier one.
pub open spec fn spec_variables_from(es: Seq<EntryModel>, i: int) -> Seq<(Seq<char>, Val)>
    decreases es.len() - i,
{
    if i < 0 || i >= es.len() {
        Seq::empty()
    } else {
        let t = es[i].text;
        let rest = spec_variables_from(es, i + 1);
        if spec_parse_line(t, es[i].num).node_type == NodeType::PipelineStage {
            let (var, stage, cfg) = crate::lines::spec_match_pipeline(t)->0;
            let config: Seq<(Seq<char>, Val)> = if cfg is Some && (cfg->0).len() > 0 {
                spec_parse_config(cfg->0)
            } else {
                Seq::empty()
            };
            seq![(var, Val::PipelineCall { stage: stage, config: config })] + rest
        } else if spec_parse_line(t, es[i].num).node_type == NodeType::Variable {
            let (name, vtext) = crate::lines::spec_match_variable(t)->0;
            seq![(name, crate::values::spec_parse_value(vtext))] + rest
        } else {
            rest
        }
    }
}

/// The dependency map of the entries from `i` on: each pipeline-stage
/// assignment is mapped to its candidate dependencies.
pub open spec fn spec_dependencies_from(es: Seq<EntryModel>, i: int) -> Seq<
    (Seq<char>, Seq<Seq<char>>),
>
    decreases es.len() - i,
{
    if i < 0 || i >= es.len() {
        Seq::empty()
    } else {
        let t = es[i].text;
        let rest = spec_dependencies_from(es, i + 1);
        if spec_parse_line(t, es[i].num).node_type == NodeType::PipelineStage {
            let n = spec_parse_line(t, es[i].num);
            seq![(n.name->0, n.dependencies)] + rest
        } else {
            rest
        }
    }
}

/// The script a text parses to.
pub open spec fn spec_parse_script(text: Seq<char>, protocol_name: Seq<char>) -> crate::ast::ScriptModel {
    let es = spec_entries(text);
    let parents = spec_parents(es);
    crate::ast::ScriptModel {
        protocol_name: protocol_name,
        nodes: spec_nodes_from(es, parents, 0),
        propositions: spec_nodes_of_kind(es, NodeType::Proposition, 0),
        pipeline_calls: spec_nodes_of_kind(es, NodeType::PipelineStage, 0),
        functions: spec_nodes_of_kind(es, NodeType::Function, 0),
        data_sources: spec_nodes_of_kind(es, NodeType::DataSource, 0),
        variables: spec_variables_from(es, 0),
        dependencies: spec_dependencies_from(es, 0),
    }
}

/// Parses a script text into a [`TurbulanceScript`]. Parsing always
/// succeeds; the result is exactly the script the grammar assigns to the
/// text.
pub fn parse_script_text(script_content: &str, protocol_name: &str) -> (r: TurbulanceScript)
    ensures
        r.model() == spec_parse_script(script_content@, protocol_name@),
{
    let chars = chars_vec(script_content);
    let lines = split_lines(&chars);
    let ghost lm = charvecs_model(lines@);
    proof {
        lemma_charvecs_model(lines@);
    }

    // Entries: trimmed non-blank lines with number and indentation.
    let mut entries: Vec<Entry> = Vec::new();
    let mut i: usize = 0;
    proof {
        assert(entries_model(entries@) =~= Seq::<EntryModel>::empty());
        assert(entries_model(entries@) + spec_entries_from(lm, 0) =~= spec_entries_from(lm, 0));
    }
    while i < lines.len()
        invariant
            i <= lines@.len(),
            lm == charvecs_model(lines@),
            lm.len() == lines@.len(),
            forall|k: int| 0 <= k < lines@.len() ==> #[trigger] lm[k] == lines@[k]@,
            entries_model(entries@) + spec_entries_from(lm, i as int) == spec_entries_from(
                lm,
                0,
            ),
        decreases lines@.len() - i,
    {
        let t = trim_vec(&lines[i]);
        if t.len() > 0 {
            let ind = crate::scan::skip_ws(&lines[i], 0);
            let e = Entry { text: t, num: i + 1, indent: ind };
            proof {
                lemma_entries_model_push(entries@, e);
                assert(entries_model(entries@).push(e.model()) + spec_entries_from(lm, i + 1)
                    =~= entries_model(entries@) + (seq![e.model()] + spec_entries_from(
                    lm,
                    i + 1,
                )));
            }
            entries.push(e);
        }
        i = i + 1;
    }
    let ghost es = entries_model(entries@);
    proof {
        assert(spec_entries_from(lm, lines@.len() as int) =~= Seq::<EntryModel>::empty());
        assert(es + Seq::<EntryModel>::empty() =~= es);
        assert(es == spec_entries(chars@));
        lemma_entries_model(entries@);
    }

    // Parents: the context stack walk.
    let mut parents: Vec<Option<usize>> = Vec::new();
    let mut stack: Vec<(usize, usize)> = Vec::new();
    let mut j: usize = 0;
    proof {
        assert(parents@ + spec_parents_from(es, 0, stack@) =~= spec_parents_from(es, 0, stack@));
    }
    while j < entries.len()
        invariant
            j <= entries@.len(),
            es == entries_model(entries@),
            es.len() == entries@.len(),
            forall|k: int| 0 <= k < entries@.len() ==> #[trigger] es[k] == entries@[k].model(),
            parents@.len() == j,
            spec_parents(es) == parents@ + spec_parents_from(es, j as int, stack@),
        decreases entries@.len() - j,
    {
        if crate::lines::is_comment(&entries[j].text) {
            proof {
                assert(parents@.push(None::<usize>) + spec_parents_from(es, j + 1, stack@)
                    =~= parents@ + (seq![None::<usize>] + spec_parents_from(
                    es,
                    j + 1,
                    stack@,
                )));
            }
            parents.push(None);
        } else {
            let ind = entries[j].indent;
            let ghost stack0 = stack@;
            while stack.len() > 0 && ind <= stack[stack.len() - 1].1
                invariant
                    spec_pop(stack0, ind as int) == spec_pop(stack@, ind as int),
                decreases stack@.len(),
            {
                stack.pop();
            }
            proof {
                assert(spec_pop(stack@, ind as int) == stack@);
            }
            let par: Option<usize> = if stack.len() > 0 {
                Some(stack[stack.len() - 1].0)
            } else {
                None
            };
            let n = parse_line(&entries[j].text, entries[j].num);
            let k = n.node_type;
            proof {
                assert(parents@.push(par) + spec_parents_from(
                    es,
                    j + 1,
                    if spec_opens_context(k, es[j as int].indent) {
                        stack@.push((j, entries[j as int].indent))
                    } else {
                        stack@
                    },
                ) =~= parents@ + (seq![par] + spec_parents_from(
                    es,
                    j + 1,
                    if spec_opens_context(k, es[j as int].indent) {
                        stack@.push((j, entries[j as int].indent))
                    } else {
                        stack@
                    },
                )));
            }
            parents.push(par);
            if matches!(k, NodeType::Proposition) || matches!(k, NodeType::Function) || (
            matches!(k, NodeType::Conditional) && ind > 0) {
                stack.push((j, ind));
            }
        }
        j = j + 1;
    }
    let ghost ps = parents@;
    proof {
        assert(spec_parents_from(es, entries@.len() as int, stack@) =~= Seq::<
            Option<usize>,
        >::empty());
        assert(ps + Seq::<Option<usize>>::empty() =~= ps);
        assert(ps == spec_parents(es));
    }

    // Nodes: each entry's node with its attached children.
    let mut nodes: Vec<TurbulanceNode> = Vec::new();
    let mut e: usize = 0;
    proof {
        assert(nodes_model(nodes@) =~= Seq::<NodeModel>::empty());
        assert(nodes_model(nodes@) + spec_nodes_from(es, ps, 0) =~= spec_nodes_from(es, ps, 0));
    }
    while e < entries.len()
        invariant
            e <= entries@.len(),
            es == entries_model(entries@),
            es.len() == entries@.len(),
            forall|k: int| 0 <= k < entries@.len() ==> #[trigger] es[k] == entries@[k].model(),
            ps == parents@,
            nodes_model(nodes@) + spec_nodes_from(es, ps, e as int) == spec_nodes_from(
                es,
                ps,
                0,
            ),
        decreases entries@.len() - e,
    {
        let base = parse_line(&entries[e].text, entries[e].num);
        let mut kids: Vec<TurbulanceNode> = Vec::new();
        let mut f: usize = 0;
        proof {
            assert(nodes_model(kids@) =~= Seq::<NodeModel>::empty());
            assert(nodes_model(kids@) + spec_children_from(es, ps, e as int, 0)
                =~= spec_children_from(es, ps, e as int, 0));
        }
        while f < entries.len()
            invariant
                f <= entries@.len(),
                e < entries@.len(),
                es == entries_model(entries@),
                es.len() == entries@.len(),
                forall|k: int|
                    0 <= k < entries@.len() ==> #[trigger] es[k] == entries@[k].model(),
                ps == parents@,
                nodes_model(kids@) + spec_children_from(es, ps, e as int, f as int)
                    == spec_children_from(es, ps, e as int, 0),
            decreases entries@.len() - f,
        {
            let is_child = if f < parents.len() {
                match parents[f] {
                    Some(p) => p == e,
                    None => false,
                }
            } else {
                false
            };
            if is_child {
                let child = parse_line(&entries[f].text, entries[f].num);
                proof {
                    lemma_nodes_model_push(kids@, child);
                    assert(nodes_model(kids@).push(child.model()) + spec_children_from(
                        es,
                        ps,
                        e as int,
                        f + 1,
                    ) =~= nodes_model(kids@) + (seq![child.model()] + spec_children_from(
                        es,
                        ps,
                        e as int,
                        f + 1,
                    )));
                }
                kids.push(child);
            }
            f = f + 1;
        }
        proof {
            assert(spec_children_from(es, ps, e as int, entries@.len() as int) =~= Seq::<
                NodeModel,
            >::empty());
            assert(nodes_model(kids@) + Seq::<NodeModel>::empty() =~= nodes_model(kids@));
        }
        let TurbulanceNode {
            node_type,
            line_number,
            content,
            name,
            parameters,
            children: _,
            dependencies,
        } = base;
        let node = TurbulanceNode {
            node_type,
            line_number,
            content,
            name,
            parameters,
            children: kids,
            dependencies,
        };
        proof {
            assert(node.model() == spec_node_with_children(es, ps, e as int));
            lemma_nodes_model_push(nodes@, node);
            assert(nodes_model(nodes@).push(node.model()) + spec_nodes_from(es, ps, e + 1)
                =~= nodes_model(nodes@) + (seq![node.model()] + spec_nodes_from(
                es,
                ps,
                e + 1,
            )));
        }
        nodes.push(node);
        e = e + 1;
    }
    proof {
        assert(spec_nodes_from(es, ps, entries@.len() as int) =~= Seq::<NodeModel>::empty());
        assert(nodes_model(nodes@) + Seq::<NodeModel>::empty() =~= nodes_model(nodes@));
    }

    // Categories, variable bindings and the dependency map.
    let mut propositions: Vec<TurbulanceNode> = Vec::new();
    let mut pipeline_calls: Vec<TurbulanceNode> = Vec::new();
    let mut functions: Vec<TurbulanceNode> = Vec::new();
    let mut data_sources: Vec<TurbulanceNode> = Vec::new();
    let mut variables: Vec<(String, TurbulanceValue)> = Vec::new();
    let mut dependencies: Vec<(String, Vec<String>)> = Vec::new();
    let mut c: usize = 0;
    proof {
        assert(nodes_model(propositions@) =~= Seq::<NodeModel>::empty());
        assert(nodes_model(propositions@) + spec_nodes_of_kind(es, NodeType::Proposition, 0)
            =~= spec_nodes_of_kind(es, NodeType::Proposition, 0));
        assert(nodes_model(pipeline_calls@) + spec_nodes_of_kind(es, NodeType::PipelineStage, 0)
            =~= spec_nodes_of_kind(es, NodeType::PipelineStage, 0));
        assert(nodes_model(functions@) + spec_nodes_of_kind(es, NodeType::Function, 0)
            =~= spec_nodes_of_kind(es, NodeType::Function, 0));
        assert(nodes_model(data_sources@) + spec_nodes_of_kind(es, NodeType::DataSource, 0)
            =~= spec_nodes_of_kind(es, NodeType::DataSource, 0));
        assert(obj_model(variables@) + spec_variables_from(es, 0) =~= spec_variables_from(
            es,
            0,
        ));
        assert(deps_model(dependencies@) + spec_dependencies_from(es, 0)
            =~= spec_dependencies_from(es, 0));
    }
    while c < entries.len()
        invariant
            c <= entries@.len(),
            es == entries_model(entries@),
            es.len() == entries@.len(),
            forall|k: int| 0 <= k < entries@.len() ==> #[trigger] es[k] == entries@[k].model(),
            nodes_model(propositions@) + spec_nodes_of_kind(es, NodeType::Proposition, c as int)
                == spec_nodes_of_kind(es, NodeType::Proposition, 0),
            nodes_model(pipeline_calls@) + spec_nodes_of_kind(
                es,
                NodeType::PipelineStage,
                c as int,
            ) == spec_nodes_of_kind(es, NodeType::PipelineStage, 0),
            nodes_model(functions@) + spec_nodes_of_kind(es, NodeType::Function, c as int)
                == spec_nodes_of_kind(es, NodeType::Function, 0),
            nodes_model(data_sources@) + spec_nodes_of_kind(es, NodeType::DataSource, c as int)
                == spec_nodes_of_kind(es, NodeType::DataSource, 0),
            obj_model(variables@) + spec_variables_from(es, c as int) == spec_variables_from(
                es,
                0,
            ),
            deps_model(dependencies@) + spec_dependencies_from(es, c as int)
                == spec_dependencies_from(es, 0),
        decreases entries@.len() - c,
    {
        let n = parse_line(&entries[c].text, entries[c].num);
        match n.node_type {
            NodeType::Proposition => {
                proof {
                    lemma_nodes_model_push(propositions@, n);
                    assert(nodes_model(propositions@).push(n.model()) + spec_nodes_of_kind(
                        es,
                        NodeType::Proposition,
                        c + 1,
                    ) =~= nodes_model(propositions@) + (seq![n.model()] + spec_nodes_of_kind(
                        es,
                        NodeType::Proposition,
                        c + 1,
                    )));
                }
                propositions.push(n);
            },
            NodeType::PipelineStage => {
                match crate::lines::match_pipeline(&entries[c].text) {
                    Some((var, stage, cfg)) => {
                        let has_cfg = match &cfg {
                            Some(cv) => cv.len() > 0,
                            None => false,
                        };
                        let config: Vec<(String, TurbulanceValue)> = if has_cfg {
                            let cv = match cfg {
                                Some(cv) => cv,
                                None => Vec::new(),
                            };
                            parse_config_object(&cv)
                        } else {
                            Vec::new()
                        };
                        let vkey = string_from_chars(var.as_slice());
                        let vval = TurbulanceValue::PipelineCall {
                            stage: string_from_chars(stage.as_slice()),
                            config: config,
                        };
                        proof {
                            lemma_obj_model_push(variables@, vkey, vval);
                            assert(obj_model(variables@).push((vkey@, vval.model()))
                                + spec_variables_from(es, c + 1) =~= obj_model(variables@) + (
                            seq![(vkey@, vval.model())] + spec_variables_from(es, c + 1)));
                        }
                        variables.push((vkey, vval));
                    },
                    None => {
                        proof {
                            assert(false);
                        }
                    },
                }
                let n2 = parse_line(&entries[c].text, entries[c].num);
                match n2.name {
                    Some(nm) => {
                        proof {
                            lemma_deps_model_push(dependencies@, nm, n2.dependencies);
                            assert(deps_model(dependencies@).push(
                                (nm@, strings_model(n2.dependencies@)),
                            ) + spec_dependencies_from(es, c + 1) =~= deps_model(dependencies@)
                                + (seq![(nm@, strings_model(n2.dependencies@))]
                                + spec_dependencies_from(es, c + 1)));
                        }
                        dependencies.push((nm, n2.dependencies));
                    },
                    None => {
                        proof {
                            assert(false);
                        }
                    },
                }
                proof {
                    lemma_nodes_model_push(pipeline_calls@, n);
                    assert(nodes_model(pipeline_calls@).push(n.model()) + spec_nodes_of_kind(
                        es,
                        NodeType::PipelineStage,
                        c + 1,
                    ) =~= nodes_model(pipeline_calls@) + (seq![n.model()] + spec_nodes_of_kind(
                        es,
                        NodeType::PipelineStage,
                        c + 1,
                    )));
                }
                pipeline_calls.push(n);
            },
            NodeType::Function => {
                proof {
                    lemma_nodes_model_push(functions@, n);
                    assert(nodes_model(functions@).push(n.model()) + spec_nodes_of_kind(
                        es,
                        NodeType::Function,
                        c + 1,
                    ) =~= nodes_model(functions@) + (seq![n.model()] + spec_nodes_of_kind(
                        es,
                        NodeType::Function,
                        c + 1,
                    )));
                }
                functions.push(n);
            },
            NodeType::DataSource => {
                proof {
                    lemma_nodes_model_push(data_sources@, n);
                    assert(nodes_model(data_sources@).push(n.model()) + spec_nodes_of_kind(
                        es,
                        NodeType::DataSource,
                        c + 1,
                    ) =~= nodes_model(data_sources@) + (seq![n.model()] + spec_nodes_of_kind(
                        es,
                        NodeType::DataSource,
                        c + 1,
                    )));
                }
                data_sources.push(n);
            },
            NodeType::Variable => {
                match crate::lines::match_variable(&entries[c].text) {
                    Some((name, vtext)) => {
                        let vkey = string_from_chars(name.as_slice());
                        let vval = crate::values::parse_value(&vtext);
                        proof {
                            lemma_obj_model_push(variables@, vkey, vval);
                            assert(obj_model(variables@).push((vkey@, vval.model()))
                                + spec_variables_from(es, c + 1) =~= obj_model(variables@) + (
                            seq![(vkey@, vval.model())] + spec_variables_from(es, c + 1)));
                        }
                        variables.push((vkey, vval));
                    },
                    None => {
                        proof {
                            assert(false);
                        }
                    },
                }
            },
            _ => {},
        }
        c = c + 1;
    }
    proof {
        assert(spec_nodes_of_kind(es, NodeType::Proposition, entries@.len() as int) =~= Seq::<
            NodeModel,
        >::empty());
        assert(spec_nodes_of_kind(es, NodeType::PipelineStage, entries@.len() as int) =~= Seq::<
            NodeModel,
        >::empty());
        assert(spec_nodes_of_kind(es, NodeType::Function, entries@.len() as int) =~= Seq::<
            NodeModel,
        >::empty());
        assert(spec_nodes_of_kind(es, NodeType::DataSource, entries@.len() as int) =~= Seq::<
            NodeModel,
        >::empty());
        assert(spec_variables_from(es, entries@.len() as int) =~= Seq::<(Seq<char>, Val)>::empty());
        assert(spec_dependencies_from(es, entries@.len() as int) =~= Seq::<
            (Seq<char>, Seq<Seq<char>>),
        >::empty());
        assert(nodes_model(propositions@) + Seq::<NodeModel>::empty() =~= nodes_model(
            propositions@,
        ));
        assert(nodes_model(pipeline_calls@) + Seq::<NodeModel>::empty() =~= nodes_model(
            pipeline_calls@,
        ));
        assert(nodes_model(functions@) + Seq::<NodeModel>::empty() =~= nodes_model(functions@));
        assert(nodes_model(data_sources@) + Seq::<NodeModel>::empty() =~= nodes_model(
            data_sources@,
        ));
        assert(obj_model(variables@) + Seq::<(Seq<char>, Val)>::empty() =~= obj_model(
            variables@,
        ));
        assert(deps_model(dependencies@) + Seq::<(Seq<char>, Seq<Seq<char>>)>::empty()
            =~= deps_model(dependencies@));
    }

    let script = TurbulanceScript {
        protocol_name: <String as vstd::string::StringExecFns>::from_str(protocol_name),
        nodes,
        propositions,
        pipeline_calls,
        functions,
        data_sources,
        variables,
        dependencies,
    };
    script
}

/// The script parser with its running statistics. Parsing is line-tolerant:
/// no input fails, so the error counter can only stay at zero.
pub struct TurbulanceParser {
    pub lines_parsed: usize,
    pub protocols_parsed: usize,
    pub parse_errors: usize,
}

impl TurbulanceParser {
    /// A fresh parser with zeroed statistics.
    pub fn new() -> (r: TurbulanceParser)
        ensures
            r.lines_parsed == 0,
            r.protocols_parsed == 0,
            r.parse_errors == 0,
    {
        TurbulanceParser { lines_parsed: 0, protocols_parsed: 0, parse_errors: 0 }
    }

    /// Parses a script. Always succeeds; the counters grow by the line count
    /// and by one protocol (saturating at the machine limit).
    pub fn parse_script(&mut self, script_content: &str, protocol_name: &str) -> (r: Result<
        TurbulanceScript,
        FourSidedTriangleError,
    >)
        ensures
            r is Ok,
            (r->Ok_0).model() == spec_parse_script(script_content@, protocol_name@),
            final(self).lines_parsed == spec_sat_add(
                old(self).lines_parsed as int,
                spec_split_lines(script_content@).len() as int,
            ),
            final(self).protocols_parsed == spec_sat_add(old(self).protocols_parsed as int, 1),
            final(self).parse_errors == old(self).parse_errors,
    {
        let chars = chars_vec(script_content);
        let lines = split_lines(&chars);
        proof {
            lemma_charvecs_model(lines@);
        }
        self.lines_parsed = sat_add(self.lines_parsed, lines.len());
        let script = parse_script_text(script_content, protocol_name);
        self.protocols_parsed = sat_add(self.protocols_parsed, 1);
        Ok(script)
    }

    /// The parser's statistics, in milli units: lines parsed, protocols
    /// parsed, parse errors, and the error rate (errors per line, zero when
    /// nothing was parsed).
    pub fn get_statistics(&self) -> (r: Vec<(String, u64)>)
        ensures
            r@.len() == 4,
            r@[0].1 == crate::fixed::spec_mul_milli(self.lines_parsed as u64, 1000000),
            r@[1].1 == crate::fixed::spec_mul_milli(self.protocols_parsed as u64, 1000000),
            r@[2].1 == crate::fixed::spec_mul_milli(self.parse_errors as u64, 1000000),
            r@[3].1 == crate::fixed::spec_ratio_milli(
                self.parse_errors as u64,
                self.lines_parsed as u64,
            ),
    {
        let mut stats: Vec<(String, u64)> = Vec::new();
        stats.push(
            (
                <String as vstd::string::StringExecFns>::from_str("lines_parsed"),
                crate::fixed::mul_milli(self.lines_parsed as u64, 1000000),
            ),
        );
        stats.push(
            (
                <String as vstd::string::StringExecFns>::from_str("protocols_parsed"),
                crate::fixed::mul_milli(self.protocols_parsed as u64, 1000000),
            ),
        );
        stats.push(
            (
                <String as vstd::string::StringExecFns>::from_str("parse_errors"),
                crate::fixed::mul_milli(self.parse_errors as u64, 1000000),
            ),
        );
        stats.push(
            (
                <String as vstd::string::StringExecFns>::from_str("error_rate"),
                crate::fixed::ratio_milli(self.parse_errors as u64, self.lines_parsed as u64),
            ),
        );
        stats
    }
}

/// Addition on machine counters, saturating at the machine limit.
pub open spec fn spec_sat_add(a: int, b: int) -> int {
    if a + b > usize::MAX {
        usize::MAX as int
    } else {
        a + b
    }
}

/// Saturating counter addition.
pub fn sat_add(a: usize, b: usize) -> (r: usize)
    ensures
        r == spec_sat_add(a as int, b as int),
{
    if b > usize::MAX - a {
        usize::MAX
    } else {
        a + b
    }
}

} // verus!
