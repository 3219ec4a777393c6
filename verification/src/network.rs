//! The sampling engine's network, as far as this library reads it: the two
//! name indexes, the registered nodes and the edges that leave each of them.

use suma_core::probability::bayes::BN_base::BayesianNetworkBase;
use suma_core::probability::bayes::BayesianNetwork;
use vstd::prelude::*;

verus! {

/// The engine's network. Nothing of its inside is visible here: what this
/// library reads of it goes by the four names below.
#[verifier::external_type_specification]
#[verifier::external_body]
pub struct ExBayesianNetwork(BayesianNetwork);

/// The id registered under each node name.
pub uninterp spec fn name_index(network: BayesianNetwork) -> Map<Seq<char>, usize>;

/// The name registered under each node id.
pub uninterp spec fn label_index(network: BayesianNetwork) -> Map<usize, Seq<char>>;

/// The ids of the nodes of the graph.
pub uninterp spec fn node_ids(network: BayesianNetwork) -> Set<usize>;

/// For each node with outgoing edges, the nodes they lead to, in the order in
/// which the edges were added.
pub uninterp spec fn child_lists(network: BayesianNetwork) -> Map<usize, Seq<usize>>;

/// The id found under `name`, if any.
pub open spec fn id_of(network: BayesianNetwork, name: Seq<char>) -> Option<usize> {
    if name_index(network).contains_key(name) {
        Some(name_index(network)[name])
    } else {
        None
    }
}

/// The name found under `id`, if any.
pub open spec fn name_of(network: BayesianNetwork, id: usize) -> Option<Seq<char>> {
    if label_index(network).contains_key(id) {
        Some(label_index(network)[id])
    } else {
        None
    }
}

/// The children of `id`, empty where no edge leaves it.
pub open spec fn children_of(network: BayesianNetwork, id: usize) -> Seq<usize> {
    if child_lists(network).contains_key(id) {
        child_lists(network)[id]
    } else {
        Seq::empty()
    }
}

/// `BayesianNetwork::get_id_from_name`: a lookup in the name index, `None` on
/// a miss.
#[verifier::external_body]
pub(crate) fn lookup_id(network: &BayesianNetwork, name: &str) -> (id: Option<usize>)
    ensures
        id == (if name_index(*network).contains_key(name@) {
            Some(name_index(*network)[name@])
        } else {
            None
        }),
{
    network.get_id_from_name(name)
}

/// `BayesianNetwork::get_name_from_id`: a lookup in the id index, `None` on a
/// miss; the name found is handed out as a copy.
#[verifier::external_body]
pub(crate) fn lookup_name(network: &BayesianNetwork, id: usize) -> (name: Option<String>)
    ensures
        name.is_some() == label_index(*network).contains_key(id),
        name.is_some() ==> name.unwrap()@ == label_index(*network)[id],
{
    network.get_name_from_id(id).cloned()
}

/// `BayesianNetworkBase::get_nodes`: every node id once, in no stated order.
#[verifier::external_body]
pub(crate) fn list_nodes(network: &BayesianNetwork) -> (ids: Vec<usize>)
    ensures
        ids@.no_duplicates(),
        ids@.to_set() == node_ids(*network),
{
    network.get_nodes()
}

/// `BayesianNetworkBase::get_children`: the targets of the edges that leave
/// `id`, in the order in which they were added.
#[verifier::external_body]
pub(crate) fn list_children(network: &BayesianNetwork, id: usize) -> (children: Vec<usize>)
    ensures
        children@ == (if child_lists(*network).contains_key(id) {
            child_lists(*network)[id]
        } else {
            Seq::empty()
        }),
{
    network.get_children(id)
}

} // verus!
