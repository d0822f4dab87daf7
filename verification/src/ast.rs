//! The typed syntax tree a parsed script compiles from.

use vstd::prelude::*;

use crate::value::{obj_model, TurbulanceValue, Val};

verus! {

/// The kind of a parsed node.
#[derive(Debug, Clone, Copy, PartialEq, Eq, Structural)]
pub enum NodeType {
    Proposition,
    Hypothesis,
    PipelineStage,
    Function,
    Conditional,
    DataSource,
    Variable,
    Comment,
    Expression,
}

/// One parsed node: a line of the script, its classification, and what was
/// extracted from it. A node listed among another node's children is the
/// child line as parsed, without grandchildren of its own.
#[derive(Debug)]
pub struct TurbulanceNode {
    pub node_type: NodeType,
    pub line_number: usize,
    pub content: String,
    pub name: Option<String>,
    pub parameters: Vec<(String, TurbulanceValue)>,
    pub children: Vec<TurbulanceNode>,
    pub dependencies: Vec<String>,
}

/// The mathematical model of a node.
pub struct NodeModel {
    pub node_type: NodeType,
    pub line_number: int,
    pub content: Seq<char>,
    pub name: Option<Seq<char>>,
    pub parameters: Seq<(Seq<char>, Val)>,
    pub children: Seq<NodeModel>,
    pub dependencies: Seq<Seq<char>>,
}

impl TurbulanceNode {
    /// The model of this node.
    pub open spec fn model(self) -> NodeModel
        decreases self,
    {
        NodeModel {
            node_type: self.node_type,
            line_number: self.line_number as int,
            content: self.content@,
            name: match self.name {
                Some(n) => Some(n@),
                None => None,
            },
            parameters: obj_model(self.parameters@),
            children: nodes_model(self.children@),
            dependencies: strings_model(self.dependencies@),
        }
    }
}

/// The models of a sequence of nodes.
pub open spec fn nodes_model(nodes: Seq<TurbulanceNode>) -> Seq<NodeModel>
    decreases nodes,
{
    if nodes.len() == 0 {
        Seq::empty()
    } else {
        seq![nodes[0].model()] + nodes_model(nodes.drop_first())
    }
}

/// The views of a sequence of strings.
pub open spec fn strings_model(strings: Seq<String>) -> Seq<Seq<char>>
    decreases strings,
{
    if strings.len() == 0 {
        Seq::empty()
    } else {
        seq![strings[0]@] + strings_model(strings.drop_first())
    }
}

/// `nodes_model` maps the sequence elementwise.
pub proof fn lemma_nodes_model(nodes: Seq<TurbulanceNode>)
    ensures
        nodes_model(nodes).len() == nodes.len(),
        forall|i: int|
            0 <= i < nodes.len() ==> #[trigger] nodes_model(nodes)[i] == nodes[i].model(),
    decreases nodes,
{
    if nodes.len() > 0 {
        lemma_nodes_model(nodes.drop_first());
    }
}

/// `strings_model` maps the sequence elementwise.
pub proof fn lemma_strings_model(strings: Seq<String>)
    ensures
        strings_model(strings).len() == strings.len(),
        forall|i: int|
            0 <= i < strings.len() ==> #[trigger] strings_model(strings)[i] == strings[i]@,
    decreases strings,
{
    if strings.len() > 0 {
        lemma_strings_model(strings.drop_first());
    }
}

/// Appending one node extends the model by its model.
pub proof fn lemma_nodes_model_push(nodes: Seq<TurbulanceNode>, n: TurbulanceNode)
    ensures
        nodes_model(nodes.push(n)) == nodes_model(nodes).push(n.model()),
{
    lemma_nodes_model(nodes.push(n));
    lemma_nodes_model(nodes);
    assert(nodes_model(nodes.push(n)) =~~= nodes_model(nodes).push(n.model()));
}

/// Appending one string extends the model by its view.
pub proof fn lemma_strings_model_push(strings: Seq<String>, x: String)
    ensures
        strings_model(strings.push(x)) == strings_model(strings).push(x@),
{
    lemma_strings_model(strings.push(x));
    lemma_strings_model(strings);
    assert(strings_model(strings.push(x)) =~~= strings_model(strings).push(x@));
}

/// Appending one entry extends the dependency-map model by its views.
pub proof fn lemma_deps_model_push(deps: Seq<(String, Vec<String>)>, k: String, v: Vec<String>)
    ensures
        deps_model(deps.push((k, v))) == deps_model(deps).push((k@, strings_model(v@))),
{
    lemma_deps_model(deps.push((k, v)));
    lemma_deps_model(deps);
    assert(deps_model(deps.push((k, v))) =~~= deps_model(deps).push((k@, strings_model(v@))));
}

/// A fully parsed script: every node in order, the categorized subsets,
/// the variable bindings, and the inferred dependency map.
#[derive(Debug)]
pub struct TurbulanceScript {
    pub protocol_name: String,
    pub nodes: Vec<TurbulanceNode>,
    pub propositions: Vec<TurbulanceNode>,
    pub pipeline_calls: Vec<TurbulanceNode>,
    pub functions: Vec<TurbulanceNode>,
    pub data_sources: Vec<TurbulanceNode>,
    pub variables: Vec<(String, TurbulanceValue)>,
    pub dependencies: Vec<(String, Vec<String>)>,
}

/// The mathematical model of a script.
pub struct ScriptModel {
    pub protocol_name: Seq<char>,
    pub nodes: Seq<NodeModel>,
    pub propositions: Seq<NodeModel>,
    pub pipeline_calls: Seq<NodeModel>,
    pub functions: Seq<NodeModel>,
    pub data_sources: Seq<NodeModel>,
    pub variables: Seq<(Seq<char>, Val)>,
    pub dependencies: Seq<(Seq<char>, Seq<Seq<char>>)>,
}

/// The views of a dependency map.
pub open spec fn deps_model(deps: Seq<(String, Vec<String>)>) -> Seq<(Seq<char>, Seq<Seq<char>>)>
    decreases deps,
{
    if deps.len() == 0 {
        Seq::empty()
    } else {
        seq![(deps[0].0@, strings_model(deps[0].1@))] + deps_model(deps.drop_first())
    }
}

/// `deps_model` maps the sequence elementwise.
pub proof fn lemma_deps_model(deps: Seq<(String, Vec<String>)>)
    ensures
        deps_model(deps).len() == deps.len(),
        forall|i: int|
            0 <= i < deps.len() ==> #[trigger] deps_model(deps)[i] == (
                deps[i].0@,
                strings_model(deps[i].1@),
            ),
    decreases deps,
{
    if deps.len() > 0 {
        lemma_deps_model(deps.drop_first());
    }
}

impl TurbulanceScript {
    /// The model of this script.
    pub open spec fn model(self) -> ScriptModel {
        ScriptModel {
            protocol_name: self.protocol_name@,
            nodes: nodes_model(self.nodes@),
            propositions: nodes_model(self.propositions@),
            pipeline_calls: nodes_model(self.pipeline_calls@),
            functions: nodes_model(self.functions@),
            data_sources: nodes_model(self.data_sources@),
            variables: obj_model(self.variables@),
            dependencies: deps_model(self.dependencies@),
        }
    }
}

} // verus!
