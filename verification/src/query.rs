//! A question put to the model, as it is handed to the sampling engine, and
//! the ways in which a question can be refused.

use crate::network::name_index;
use crate::state::{lowercase_of, State, StateModel};
use suma_core::probability::bayes::BayesianNetwork;
use vstd::prelude::*;
use vstd::string::StringExecFns;

verus! {

/// The sampling algorithm that answers a query.
#[derive(Clone, Copy, Debug, PartialEq, Eq)]
pub enum Algorithm {
    /// Forward sampling that discards every sample which contradicts the
    /// evidence.
    Rejection,
    /// Forward sampling that fixes the evidence and weighs each sample by the
    /// probability of that evidence.
    LikelihoodWeighting,
}

/// A query in the engine's terms: nodes by id, observations as states.
#[derive(Clone, Debug, PartialEq, Eq)]
pub struct Query {
    /// The observed state of each evidence node, in the order given.
    pub evidence: Vec<(usize, State)>,
    /// The node whose distribution is asked for.
    pub target: usize,
    pub algorithm: Algorithm,
    /// The number of samples to draw.
    pub sample_count: usize,
}

/// Why a query was refused.
#[derive(Clone, Debug, PartialEq, Eq)]
pub enum QueryError {
    /// An evidence entry names a node that the network does not have.
    NodeNotFound(String),
    /// The target names a node that the network does not have.
    TargetNotFound(String),
}

/// The observations of a question as given: node name and raw value.
pub type RawEvidence = Seq<(Seq<char>, Seq<char>)>;

/// Whether the network has a node called `name`.
pub open spec fn known(network: BayesianNetwork, name: Seq<char>) -> bool {
    name_index(network).contains_key(name)
}

/// Whether every entry of `evidence` names a node of the network.
pub open spec fn all_known(network: BayesianNetwork, evidence: RawEvidence) -> bool {
    forall|i: int| 0 <= i < evidence.len() ==> known(network, #[trigger] evidence[i].0)
}

/// Whether entry `i` is the first of `evidence` that names no node.
pub open spec fn first_unknown(network: BayesianNetwork, evidence: RawEvidence, i: int) -> bool {
    &&& 0 <= i < evidence.len()
    &&& !known(network, evidence[i].0)
    &&& all_known(network, evidence.take(i))
}

/// One observation in the engine's terms.
pub open spec fn resolved_entry(network: BayesianNetwork, entry: (Seq<char>, Seq<char>)) -> (
    usize,
    StateModel,
) {
    (name_index(network)[entry.0], StateModel::parsed(entry.1, lowercase_of(entry.1)))
}

/// The observations in the engine's terms, entry by entry.
pub open spec fn resolved(network: BayesianNetwork, evidence: RawEvidence) -> Seq<
    (usize, StateModel),
> {
    Seq::new(evidence.len(), |i: int| resolved_entry(network, evidence[i]))
}

impl QueryError {
    /// The text of the refusal.
    pub open spec fn message_text(self) -> Seq<char> {
        match self {
            QueryError::NodeNotFound(name) => "Node not found: "@ + name@,
            QueryError::TargetNotFound(name) => "Target node not found: "@ + name@,
        }
    }

    /// The refusal in words, with the name that was not found.
    pub fn message(&self) -> (text: String)
        ensures
            text@ == self.message_text(),
    {
        match self {
            QueryError::NodeNotFound(name) => String::from_str("Node not found: ").concat(
                name.as_str(),
            ),
            QueryError::TargetNotFound(name) => String::from_str("Target node not found: ").concat(
                name.as_str(),
            ),
        }
    }
}

} // verus!
