//! The diagnosis model: a network whose name indexes agree, and the queries
//! that are answered from it.

use crate::graph::{graph_along, picture, WasmGraph};
use crate::network::{id_of, label_index, list_nodes, lookup_id, lookup_name, name_of, node_ids};
use crate::query::{all_known, first_unknown, known, resolved, Algorithm, Query, QueryError};
use crate::state::State;
use suma_core::probability::bayes::BayesianNetwork;
use vstd::prelude::*;
use vstd::string::StringExecFns;

verus! {

/// Whether the name registered for `id` exists and leads back to `id`.
pub open spec fn leads_back(network: BayesianNetwork, id: usize) -> bool {
    match name_of(network, id) {
        Some(name) => id_of(network, name) == Some(id),
        None => false,
    }
}

/// Whether every node of the graph has a name that leads back to it.
pub open spec fn consistent(network: BayesianNetwork) -> bool {
    forall|id: usize| #[trigger] node_ids(network).contains(id) ==> leads_back(network, id)
}

/// Why a network was not accepted as a model.
#[derive(Clone, Copy, Debug, PartialEq, Eq)]
pub enum ModelError {
    /// The node with this id has no name, or its name leads to another node.
    Unregistered(usize),
}

/// A network that has been found consistent.
pub struct BiodigestorModel {
    network: BayesianNetwork,
}

impl BiodigestorModel {
    /// The network that the model answers from.
    pub closed spec fn network(&self) -> BayesianNetwork {
        self.network
    }

    /// Every node of the graph has a name that leads back to it.
    #[verifier::type_invariant]
    pub closed spec fn well_formed(&self) -> bool {
        consistent(self.network)
    }

    /// Accepts `network` as a model if each of its nodes has a name under
    /// which that same node is found; names the first node met that has not.
    pub fn new(network: BayesianNetwork) -> (result: Result<BiodigestorModel, ModelError>)
        ensures
            result.is_ok() == consistent(network),
            match result {
                Ok(model) => model.network() == network && model.well_formed(),
                Err(ModelError::Unregistered(id)) => node_ids(network).contains(id) && !leads_back(
                    network,
                    id,
                ),
            },
    {
        let ids = list_nodes(&network);
        let mut i: usize = 0;
        while i < ids.len()
            invariant
                i <= ids@.len(),
                ids@.to_set() == node_ids(network),
                forall|j: int| 0 <= j < i ==> leads_back(network, ids@[j]),
            decreases ids@.len() - i,
        {
            let id = ids[i];
            assert(ids@.to_set().contains(id)) by {
                assert(ids@.contains(ids@[i as int]));
            }
            let back = match lookup_name(&network, id) {
                Some(name) => lookup_id(&network, name.as_str()),
                None => None,
            };
            match back {
                Some(found) => {
                    if found != id {
                        return Err(ModelError::Unregistered(id));
                    }
                },
                None => {
                    return Err(ModelError::Unregistered(id));
                },
            }
            i += 1;
        }
        assert forall|id: usize| #[trigger] node_ids(network).contains(id) implies leads_back(
            network,
            id,
        ) by {
            assert(ids@.to_set().contains(id));
            assert(ids@.contains(id));
        }
        Ok(BiodigestorModel { network })
    }

    /// Turns a question in the caller's terms into a query for the sampling
    /// engine: every evidence entry's node name becomes its id and its raw
    /// value the state it stands for, and the target's name becomes its id.
    /// The first evidence entry that names no node refuses the question; with
    /// all of them known, so does a target that names none.
    pub fn infer(
        &self,
        evidence: &Vec<(String, String)>,
        target_node: &str,
        algorithm: Algorithm,
        sample_count: usize,
    ) -> (result: Result<Query, QueryError>)
        ensures
            match result {
                Ok(query) => {
                    &&& all_known(self.network(), evidence.deep_view())
                    &&& id_of(self.network(), target_node@) == Some(query.target)
                    &&& query.evidence.deep_view() == resolved(
                        self.network(),
                        evidence.deep_view(),
                    )
                    &&& query.algorithm == algorithm
                    &&& query.sample_count == sample_count
                },
                Err(QueryError::NodeNotFound(name)) => exists|i: int|
                    first_unknown(self.network(), evidence.deep_view(), i)
                        && evidence.deep_view()[i].0 == name@,
                Err(QueryError::TargetNotFound(name)) => {
                    &&& all_known(self.network(), evidence.deep_view())
                    &&& !known(self.network(), target_node@)
                    &&& name@ == target_node@
                },
            },
    {
        let ghost raw = evidence.deep_view();
        let mut entries: Vec<(usize, State)> = Vec::new();
        let mut i: usize = 0;
        while i < evidence.len()
            invariant
                raw == evidence.deep_view(),
                i <= evidence@.len(),
                all_known(self.network(), raw.take(i as int)),
                entries.deep_view() == resolved(self.network(), raw.take(i as int)),
            decreases evidence@.len() - i,
        {
            let entry = &evidence[i];
            assert(raw[i as int] == (entry.0@, entry.1@));
            let state = State::from_str(entry.1.as_str());
            match lookup_id(&self.network, entry.0.as_str()) {
                Some(id) => {
                    let ghost before = entries.deep_view();
                    entries.push((id, state));
                    assert(entries.deep_view() =~= before.push((id, state@)));
                    assert(before.push((id, state@)) =~= resolved(
                        self.network(),
                        raw.take(i + 1),
                    )) by {
                        assert forall|j: int| 0 <= j < i implies before[j] == resolved(
                            self.network(),
                            raw.take(i + 1),
                        )[j] by {
                            assert(raw.take(i as int)[j] == raw.take(i + 1)[j]);
                        }
                    }
                },
                None => {
                    assert(first_unknown(self.network(), raw, i as int));
                    return Err(QueryError::NodeNotFound(entry.0.clone()));
                },
            }
            i += 1;
            assert(all_known(self.network(), raw.take(i as int))) by {
                assert forall|j: int| 0 <= j < raw.take(i as int).len() implies known(
                    self.network(),
                    #[trigger] raw.take(i as int)[j].0,
                ) by {
                    if j < i - 1 {
                        assert(raw.take(i as int)[j] == raw.take(i - 1)[j]);
                    }
                }
            }
        }
        assert(raw.take(i as int) =~= raw);
        match lookup_id(&self.network, target_node) {
            Some(target) => Ok(Query { evidence: entries, target, algorithm, sample_count }),
            None => Err(QueryError::TargetNotFound(String::from_str(target_node))),
        }
    }

    /// Whether `order` holds every node of the model's graph exactly once.
    pub open spec fn is_node_order(&self, order: Seq<usize>) -> bool {
        order.no_duplicates() && order.to_set() == node_ids(self.network())
    }

    /// The names of all nodes, each node once, in the order in which the
    /// network hands its nodes out.
    pub fn get_node_names(&self) -> (names: Vec<String>)
        ensures
            exists|order: Seq<usize>|
                {
                    &&& self.is_node_order(order)
                    &&& names.deep_view() == Seq::new(
                        order.len(),
                        |i: int| label_index(self.network())[order[i]],
                    )
                },
    {
        proof {
            use_type_invariant(self);
        }
        let order = list_nodes(&self.network);
        let ghost labels = Seq::new(
            order@.len(),
            |i: int| label_index(self.network())[order@[i]],
        );
        let mut names: Vec<String> = Vec::new();
        let mut i: usize = 0;
        while i < order.len()
            invariant
                i <= order@.len(),
                consistent(self.network),
                order@.to_set() == node_ids(self.network),
                labels == Seq::new(order@.len(), |i: int| label_index(self.network())[order@[i]]),
                names.deep_view() == labels.take(i as int),
            decreases order@.len() - i,
        {
            assert(order@.to_set().contains(order@[i as int])) by {
                assert(order@.contains(order@[i as int]));
            }
            assert(leads_back(self.network, order@[i as int]));
            let ghost before = names.deep_view();
            match lookup_name(&self.network, order[i]) {
                Some(name) => {
                    names.push(name);
                    assert(names.deep_view() =~= before.push(name@));
                },
                None => {},
            }
            i += 1;
            assert(names.deep_view() =~= labels.take(i as int));
        }
        assert(labels.take(i as int) =~= labels);
        assert(self.is_node_order(order@));
        names
    }

    /// The picture of the network for a graph view: an entry for each node
    /// with the group it is drawn in, and an edge from each node to each of
    /// its children, the nodes taken in the order in which the network hands
    /// them out.
    pub fn get_graph_structure(&self) -> (graph: WasmGraph)
        ensures
            exists|order: Seq<usize>|
                self.is_node_order(order) && graph.deep_view() == picture(self.network(), order),
    {
        let order = list_nodes(&self.network);
        let graph = graph_along(&self.network, &order);
        assert(self.is_node_order(order@));
        graph
    }

    /// The id of the node called `name`, if there is one.
    pub fn get_id_from_name(&self, name: &str) -> (id: Option<usize>)
        ensures
            id == id_of(self.network(), name@),
    {
        lookup_id(&self.network, name)
    }

    /// The name of the node with this id, if there is one.
    pub fn get_name_from_id(&self, id: usize) -> (name: Option<String>)
        ensures
            name.deep_view() == name_of(self.network(), id),
    {
        lookup_name(&self.network, id)
    }

    /// Looking a node up by its id and then by the name found leads back to
    /// the same id.
    pub proof fn lemma_id_round_trip(self, id: usize)
        requires
            self.well_formed(),
            node_ids(self.network()).contains(id),
        ensures
            name_of(self.network(), id) is Some,
            id_of(self.network(), name_of(self.network(), id).unwrap()) == Some(id),
    {
        assert(leads_back(self.network, id));
    }

    /// Looking a node's name up and then the id found leads back to the same
    /// name.
    pub proof fn lemma_name_round_trip(self, id: usize, name: Seq<char>)
        requires
            self.well_formed(),
            node_ids(self.network()).contains(id),
            name_of(self.network(), id) == Some(name),
        ensures
            id_of(self.network(), name) is Some,
            name_of(self.network(), id_of(self.network(), name).unwrap()) == Some(name),
    {
        assert(leads_back(self.network, id));
    }

    /// The network itself, for the sampling engine.
    pub fn as_network(&self) -> (network: &BayesianNetwork)
        ensures
            *network == self.network(),
    {
        &self.network
    }
}

} // verus!
