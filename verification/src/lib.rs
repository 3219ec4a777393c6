//! Diagnosis of the hidden operating state of a biodigester from its sensor
//! readings, with a discrete Bayesian network.
//!
//! The network is written down in [`biodigester`] as a run of registrations
//! and validated in [`registry`]: every table has one distribution for each
//! combination of states of the parents, in whole parts of
//! [`definition::UNIT`]. Sampling is left to an engine, whose network is read
//! through [`network`]; [`model`] turns a question into a [`query::Query`]
//! for that engine and draws the network for a graph view ([`graph`]).

pub mod biodigester;
mod biodigester_tables;
pub mod definition;
pub mod graph;
pub mod model;
pub mod network;
pub mod query;
pub mod registry;
pub mod state;
pub mod text;
