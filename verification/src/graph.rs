//! The picture of a network that is handed to a graph view: one entry per
//! node, with the group it is drawn in, and one entry per edge.

use crate::network::{children_of, list_children, lookup_name, name_of};
use crate::text::{contains, contains_text};
use suma_core::probability::bayes::BayesianNetwork;
use vstd::prelude::*;
use vstd::string::StringExecFns;

verus! {

/// A node of the picture.
#[derive(Clone, Debug, PartialEq, Eq)]
pub struct WasmNode {
    pub id: String,
    pub label: String,
    pub group: String,
}

/// An edge of the picture, from a parent to one of its children.
#[derive(Clone, Debug, PartialEq, Eq)]
pub struct WasmEdge {
    pub from: String,
    pub to: String,
}

/// The whole picture.
#[derive(Clone, Debug, PartialEq, Eq)]
pub struct WasmGraph {
    pub nodes: Vec<WasmNode>,
    pub edges: Vec<WasmEdge>,
}

/// The mathematical value of a [`WasmNode`].
pub struct NodeModel {
    pub id: Seq<char>,
    pub label: Seq<char>,
    pub group: Seq<char>,
}

/// The mathematical value of a [`WasmEdge`].
pub struct EdgeModel {
    pub from: Seq<char>,
    pub to: Seq<char>,
}

/// The mathematical value of a [`WasmGraph`].
pub struct GraphModel {
    pub nodes: Seq<NodeModel>,
    pub edges: Seq<EdgeModel>,
}

impl DeepView for WasmNode {
    type V = NodeModel;

    open spec fn deep_view(&self) -> NodeModel {
        NodeModel { id: self.id@, label: self.label@, group: self.group@ }
    }
}

impl DeepView for WasmEdge {
    type V = EdgeModel;

    open spec fn deep_view(&self) -> EdgeModel {
        EdgeModel { from: self.from@, to: self.to@ }
    }
}

impl DeepView for WasmGraph {
    type V = GraphModel;

    open spec fn deep_view(&self) -> GraphModel {
        GraphModel { nodes: self.nodes.deep_view(), edges: self.edges.deep_view() }
    }
}

/// The group a node is drawn in: the two hidden causes by name, the physical
/// quantities by the word `Real` in their name, every other node as a sensor.
pub open spec fn group_of(name: Seq<char>) -> Seq<char> {
    if name == "EstadoMicrobiano"@ || name == "EstadoOperativo"@ {
        "Oculto"@
    } else if contains_text(name, "Real"@) {
        "Físico"@
    } else {
        "Sensor"@
    }
}

/// The picture's entry for the node called `name`.
pub open spec fn node_entry(name: Seq<char>) -> NodeModel {
    NodeModel { id: name, label: name, group: group_of(name) }
}

/// Computes the group a node is drawn in.
pub fn node_group(name: &String) -> (group: String)
    ensures
        group@ == group_of(name@),
{
    if *name == String::from_str("EstadoMicrobiano") || *name == String::from_str(
        "EstadoOperativo",
    ) {
        String::from_str("Oculto")
    } else if contains(name.as_str(), "Real") {
        String::from_str("Físico")
    } else {
        String::from_str("Sensor")
    }
}

/// Builds the picture's entry for the node called `name`.
pub fn node_for(name: &String) -> (node: WasmNode)
    ensures
        node.deep_view() == node_entry(name@),
{
    WasmNode { id: name.clone(), label: name.clone(), group: node_group(name) }
}

/// The entries of the nodes in `order`, one for each that has a name.
pub open spec fn nodes_along(network: BayesianNetwork, order: Seq<usize>) -> Seq<NodeModel>
    decreases order.len(),
{
    if order.len() == 0 {
        Seq::empty()
    } else {
        let before = nodes_along(network, order.drop_last());
        match name_of(network, order.last()) {
            Some(name) => before.push(node_entry(name)),
            None => before,
        }
    }
}

/// The edges from the node called `from` to those of `children` that have a
/// name, in the order of `children`.
pub open spec fn edges_from(network: BayesianNetwork, from: Seq<char>, children: Seq<usize>) -> Seq<
    EdgeModel,
>
    decreases children.len(),
{
    if children.len() == 0 {
        Seq::empty()
    } else {
        let before = edges_from(network, from, children.drop_last());
        match name_of(network, children.last()) {
            Some(to) => before.push(EdgeModel { from, to }),
            None => before,
        }
    }
}

/// The edges that leave the nodes in `order`, node by node; a node without a
/// name contributes none.
pub open spec fn edges_along(network: BayesianNetwork, order: Seq<usize>) -> Seq<EdgeModel>
    decreases order.len(),
{
    if order.len() == 0 {
        Seq::empty()
    } else {
        let before = edges_along(network, order.drop_last());
        match name_of(network, order.last()) {
            Some(from) => before + edges_from(network, from, children_of(network, order.last())),
            None => before,
        }
    }
}

/// The picture of `network` with its nodes taken in `order`.
pub open spec fn picture(network: BayesianNetwork, order: Seq<usize>) -> GraphModel {
    GraphModel { nodes: nodes_along(network, order), edges: edges_along(network, order) }
}

/// Appends to `edges` the edges from the node called `from` to its named
/// children.
fn push_edges(network: &BayesianNetwork, from: &String, children: &Vec<usize>, edges: &mut Vec<
    WasmEdge,
>)
    ensures
        final(edges).deep_view() == old(edges).deep_view() + edges_from(
            *network,
            from@,
            children@,
        ),
{
    let ghost base = edges.deep_view();
    let mut k: usize = 0;
    while k < children.len()
        invariant
            k <= children@.len(),
            edges.deep_view() == base + edges_from(*network, from@, children@.take(k as int)),
        decreases children@.len() - k,
    {
        let ghost before = edges.deep_view();
        assert(children@.take(k + 1).drop_last() =~= children@.take(k as int));
        match lookup_name(network, children[k]) {
            Some(to) => {
                let edge = WasmEdge { from: from.clone(), to };
                edges.push(edge);
                assert(edges.deep_view() =~= before.push(edge.deep_view()));
            },
            None => {},
        }
        k += 1;
        assert(edges.deep_view() =~= base + edges_from(*network, from@, children@.take(k as int)));
    }
    assert(children@.take(k as int) =~= children@);
}

/// Draws `network` with its nodes taken in `order`: an entry for every node
/// that has a name, and an edge for each of its children that has one.
pub fn graph_along(network: &BayesianNetwork, order: &Vec<usize>) -> (graph: WasmGraph)
    ensures
        graph.deep_view() == picture(*network, order@),
{
    let mut nodes: Vec<WasmNode> = Vec::new();
    let mut edges: Vec<WasmEdge> = Vec::new();
    let mut i: usize = 0;
    while i < order.len()
        invariant
            i <= order@.len(),
            nodes.deep_view() == nodes_along(*network, order@.take(i as int)),
            edges.deep_view() == edges_along(*network, order@.take(i as int)),
        decreases order@.len() - i,
    {
        let id = order[i];
        assert(order@.take(i + 1).drop_last() =~= order@.take(i as int));
        match lookup_name(network, id) {
            Some(name) => {
                let ghost before = nodes.deep_view();
                let node = node_for(&name);
                nodes.push(node);
                assert(nodes.deep_view() =~= before.push(node.deep_view()));
                let children = list_children(network, id);
                push_edges(network, &name, &children, &mut edges);
            },
            None => {},
        }
        i += 1;
    }
    assert(order@.take(i as int) =~= order@);
    WasmGraph { nodes, edges }
}

} // verus!
