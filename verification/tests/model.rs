use biodigestor::biodigester::build_network_internal;
use biodigestor::graph::{graph_along, WasmEdge, WasmGraph, WasmNode};
use biodigestor::model::{BiodigestorModel, ModelError};
use biodigestor::query::{Algorithm, QueryError};
use biodigestor::registry::{NetworkDefinition, Registration};
use biodigestor::state::State;
use std::collections::{HashMap, HashSet};
use suma_core::data_structures::dag::DAG;
use suma_core::probability::bayes::BN_base::{BayesianNetworkBase, CPTBase, State as EngineState};
use suma_core::probability::bayes::BayesianNetwork;

fn engine(definition: &NetworkDefinition) -> BayesianNetwork {
    let nodes = definition.as_nodes();
    let mut network = BayesianNetwork::new();
    for node in nodes {
        let parents: Vec<&str> = node.parents.iter().map(|&p| nodes[p].name.as_str()).collect();
        let domain: Vec<String> = node.domain.iter().map(|s| s.label()).collect();
        let rows: Vec<(Vec<String>, Vec<(String, f64)>)> = node
            .rows
            .iter()
            .map(|row| {
                (
                    row.given.iter().map(|s| s.label()).collect(),
                    row.weights.iter().map(|(s, w)| (s.label(), *w as f64 / 1_000_000.0)).collect(),
                )
            })
            .collect();
        let mut table: HashMap<Vec<&str>, HashMap<&str, f64>> = HashMap::new();
        for (given, weights) in &rows {
            table.insert(
                given.iter().map(|s| s.as_str()).collect(),
                weights.iter().map(|(s, p)| (s.as_str(), *p)).collect(),
            );
        }
        network
            .add_discrete_node(&node.name, parents, domain.iter().map(|s| s.as_str()).collect(), table)
            .unwrap();
    }
    network
}

fn biodigester() -> BiodigestorModel {
    let definition = build_network_internal().unwrap();
    match BiodigestorModel::new(engine(&definition)) {
        Ok(model) => model,
        Err(error) => panic!("{:?}", error),
    }
}

fn chain() -> BayesianNetwork {
    let steps = vec![
        Registration::discrete(
            "A",
            vec![],
            vec!["X", "Y"],
            vec![(vec![], vec![("X", 400_000), ("Y", 600_000)])],
        ),
        Registration::discrete(
            "BReal",
            vec!["A"],
            vec!["low", "high"],
            vec![
                (vec!["X"], vec![("low", 700_000), ("high", 300_000)]),
                (vec!["Y"], vec![("low", 200_000), ("high", 800_000)]),
            ],
        ),
        Registration::discrete(
            "C",
            vec!["A"],
            vec!["true", "false"],
            vec![
                (vec!["X"], vec![("true", 100_000), ("false", 900_000)]),
                (vec!["Y"], vec![("true", 500_000), ("false", 500_000)]),
            ],
        ),
    ];
    engine(&NetworkDefinition::build(&steps).unwrap())
}

fn pairs(list: &[(&str, &str)]) -> Vec<(String, String)> {
    list.iter().map(|(a, b)| (a.to_string(), b.to_string())).collect()
}

#[test]
fn test_build_network() {
    let definition = build_network_internal();
    assert!(definition.is_ok(), "Failed to build Bayesian Network: {:?}", definition.err());
    let bn = engine(&definition.unwrap());
    assert_eq!(bn.get_nodes().len(), 12, "Network should have 12 nodes");
}

#[test]
fn engine_network_is_accepted_as_a_model() {
    let definition = build_network_internal().unwrap();
    assert!(BiodigestorModel::new(engine(&definition)).is_ok());
    assert!(BiodigestorModel::new(BayesianNetwork::new()).is_ok());
}

#[test]
fn network_with_a_nameless_node_is_refused() {
    let mut dag = DAG::new();
    dag.add_node(0);
    dag.add_node(1);
    let mut names = HashMap::new();
    names.insert("A".to_string(), 0);
    let network = BayesianNetwork::from_parts(dag, HashMap::new(), names);
    match BiodigestorModel::new(network) {
        Ok(_) => panic!("accepted"),
        Err(error) => assert_eq!(error, ModelError::Unregistered(1)),
    }
}

#[test]
fn names_and_ids_lead_back_to_each_other() {
    let model = biodigester();
    let names = model.get_node_names();
    assert_eq!(names.len(), 12);
    for name in &names {
        let id = model.get_id_from_name(name).unwrap();
        assert_eq!(model.get_name_from_id(id).as_ref(), Some(name));
    }
    for id in model.as_network().get_nodes() {
        let name = model.get_name_from_id(id).unwrap();
        assert_eq!(model.get_id_from_name(&name), Some(id));
    }
}

#[test]
fn lookups_miss_without_failing() {
    let model = biodigester();
    assert_eq!(model.get_id_from_name("Nobody"), None);
    assert_eq!(model.get_id_from_name("t_sensor"), None);
    assert_eq!(model.get_name_from_id(12), None);
    assert_eq!(model.get_name_from_id(usize::MAX), None);
}

#[test]
fn ids_follow_the_order_of_registration() {
    let model = biodigester();
    assert_eq!(model.get_id_from_name("EstadoMicrobiano"), Some(0));
    assert_eq!(model.get_id_from_name("ProduccionGasReal"), Some(6));
    assert_eq!(model.get_id_from_name("Presion_sensor"), Some(11));
    assert_eq!(model.get_name_from_id(4), Some("CaudalReal".to_string()));
}

#[test]
fn node_names_are_all_names_once() {
    let model = biodigester();
    let names: HashSet<String> = model.get_node_names().into_iter().collect();
    let expected: HashSet<String> = [
        "EstadoMicrobiano",
        "EstadoOperativo",
        "TemperaturaReal",
        "pHReal",
        "CaudalReal",
        "PresionReal",
        "ProduccionGasReal",
        "T_sensor",
        "pH_sensor",
        "Flow_sensor",
        "Gas_sensor",
        "Presion_sensor",
    ]
    .iter()
    .map(|s| s.to_string())
    .collect();
    assert_eq!(names, expected);
}

#[test]
fn infer_turns_names_into_ids_and_text_into_states() {
    let model = biodigester();
    let evidence = pairs(&[("pH_sensor", "neutro"), ("T_sensor", "normal")]);
    let query = model
        .infer(&evidence, "EstadoMicrobiano", Algorithm::LikelihoodWeighting, 10_000)
        .unwrap();
    assert_eq!(
        query.evidence,
        vec![
            (8, State::Named("neutro".to_string())),
            (7, State::Named("normal".to_string()))
        ]
    );
    assert_eq!(query.target, 0);
    assert_eq!(query.algorithm, Algorithm::LikelihoodWeighting);
    assert_eq!(query.sample_count, 10_000);
}

#[test]
fn infer_reads_boolean_values() {
    let model = BiodigestorModel::new(chain()).ok().unwrap();
    let query = model.infer(&pairs(&[("C", "TRUE")]), "A", Algorithm::Rejection, 5).unwrap();
    assert_eq!(query.evidence, vec![(2, State::True)]);
    assert_eq!(query.target, 0);
    assert_eq!(query.algorithm, Algorithm::Rejection);
    assert_eq!(query.sample_count, 5);
}

#[test]
fn infer_without_evidence() {
    let model = biodigester();
    let query = model.infer(&Vec::new(), "PresionReal", Algorithm::Rejection, 0).unwrap();
    assert!(query.evidence.is_empty());
    assert_eq!(query.target, 5);
}

#[test]
fn infer_refuses_the_first_unknown_evidence_node() {
    let model = biodigester();
    let evidence = pairs(&[("pH_sensor", "neutro"), ("Valve", "open"), ("Pump", "on")]);
    assert_eq!(
        model.infer(&evidence, "EstadoMicrobiano", Algorithm::LikelihoodWeighting, 10_000),
        Err(QueryError::NodeNotFound("Valve".to_string()))
    );
}

#[test]
fn infer_refuses_an_unknown_target() {
    let model = biodigester();
    let evidence = pairs(&[("pH_sensor", "neutro")]);
    assert_eq!(
        model.infer(&evidence, "Estado", Algorithm::LikelihoodWeighting, 10_000),
        Err(QueryError::TargetNotFound("Estado".to_string()))
    );
}

#[test]
fn unknown_evidence_is_reported_before_an_unknown_target() {
    let model = biodigester();
    let evidence = pairs(&[("Valve", "open")]);
    assert_eq!(
        model.infer(&evidence, "Estado", Algorithm::Rejection, 1),
        Err(QueryError::NodeNotFound("Valve".to_string()))
    );
}

#[test]
fn graph_along_a_given_order() {
    let network = chain();
    let graph = graph_along(&network, &vec![1, 0, 7, 2]);
    let node = |name: &str, group: &str| WasmNode {
        id: name.to_string(),
        label: name.to_string(),
        group: group.to_string(),
    };
    let edge = |from: &str, to: &str| WasmEdge { from: from.to_string(), to: to.to_string() };
    assert_eq!(
        graph,
        WasmGraph {
            nodes: vec![node("BReal", "Físico"), node("A", "Sensor"), node("C", "Sensor")],
            edges: vec![edge("A", "BReal"), edge("A", "C")],
        }
    );
}

#[test]
fn graph_of_no_nodes_is_empty() {
    let graph = graph_along(&chain(), &Vec::new());
    assert!(graph.nodes.is_empty());
    assert!(graph.edges.is_empty());
    let model = BiodigestorModel::new(BayesianNetwork::new()).ok().unwrap();
    let graph = model.get_graph_structure();
    assert!(graph.nodes.is_empty());
    assert!(graph.edges.is_empty());
}

#[test]
fn graph_structure_of_the_biodigester() {
    let model = biodigester();
    let graph = model.get_graph_structure();
    assert_eq!(graph.nodes.len(), 12);
    assert_eq!(graph.edges.len(), 11);
    let group = |name: &str| {
        let node = graph.nodes.iter().find(|n| n.id == name).unwrap();
        assert_eq!(node.label, name);
        node.group.clone()
    };
    assert_eq!(group("EstadoMicrobiano"), "Oculto");
    assert_eq!(group("EstadoOperativo"), "Oculto");
    assert_eq!(group("ProduccionGasReal"), "Físico");
    assert_eq!(group("pHReal"), "Físico");
    assert_eq!(group("Gas_sensor"), "Sensor");
    let has = |from: &str, to: &str| graph.edges.iter().any(|e| e.from == from && e.to == to);
    assert!(has("EstadoMicrobiano", "TemperaturaReal"));
    assert!(has("EstadoMicrobiano", "pHReal"));
    assert!(has("EstadoMicrobiano", "ProduccionGasReal"));
    assert!(has("CaudalReal", "ProduccionGasReal"));
    assert!(has("EstadoOperativo", "CaudalReal"));
    assert!(has("EstadoOperativo", "PresionReal"));
    assert!(has("PresionReal", "Presion_sensor"));
    assert!(has("ProduccionGasReal", "Gas_sensor"));
    assert!(!has("TemperaturaReal", "EstadoMicrobiano"));
}

#[test]
fn edges_of_a_node_follow_the_order_of_registration() {
    let model = biodigester();
    let graph = model.get_graph_structure();
    let from_culture: Vec<&str> = graph
        .edges
        .iter()
        .filter(|e| e.from == "EstadoMicrobiano")
        .map(|e| e.to.as_str())
        .collect();
    assert_eq!(from_culture, vec!["TemperaturaReal", "pHReal", "ProduccionGasReal"]);
}

fn to_engine(state: &State) -> EngineState {
    match state {
        State::True => EngineState::True,
        State::False => EngineState::False,
        State::Named(name) => EngineState::Value(name.clone()),
    }
}

#[test]
fn engine_tables_hold_every_row_of_the_definition() {
    let definition = build_network_internal().unwrap();
    let bn = engine(&definition);
    for (id, node) in definition.as_nodes().iter().enumerate() {
        let cpt = bn.get_node_cpt_by_id(&id).unwrap();
        assert!(!cpt.parent_combinations().is_empty());
        assert_eq!(cpt.parent_combinations().len(), node.rows.len());
        let domain: Vec<EngineState> = node.domain.iter().map(to_engine).collect();
        assert_eq!(cpt.possible_values(), domain);
        assert!(bn.get_node_cpt_by_name(&node.name).is_some());
    }
    assert!(bn.get_node_cpt_by_id(&12).is_none());
    assert!(bn.get_node_cpt_by_name("Nobody").is_none());
}

#[test]
fn engine_holds_the_probabilities_of_the_definition() {
    let definition = build_network_internal().unwrap();
    let bn = engine(&definition);
    for (id, node) in definition.as_nodes().iter().enumerate() {
        for row in &node.rows {
            let given: Vec<EngineState> = row.given.iter().map(to_engine).collect();
            for (state, weight) in &row.weights {
                let p = bn.get_conditional_probability(id, &given, to_engine(state)).unwrap();
                assert!((p - *weight as f64 / 1_000_000.0).abs() < 1e-12);
            }
            let sum: f64 = row
                .weights
                .iter()
                .map(|(state, _)| bn.get_conditional_probability(id, &given, to_engine(state)).unwrap())
                .sum();
            assert!((sum - 1.0).abs() < 1e-6);
        }
    }
    let p = bn
        .get_conditional_probability(
            2,
            &[EngineState::Value("Degradado".to_string())],
            EngineState::Value("Baja".to_string()),
        )
        .unwrap();
    assert!((p - 0.6).abs() < 1e-12);
}

#[test]
fn engine_parents_and_children_follow_the_definition() {
    let definition = build_network_internal().unwrap();
    let bn = engine(&definition);
    for (id, node) in definition.as_nodes().iter().enumerate() {
        let mut parents = bn.get_parents(id);
        parents.sort();
        let mut expected = node.parents.clone();
        expected.sort();
        assert_eq!(parents, expected);
        for &parent in &node.parents {
            assert!(bn.get_children(parent).contains(&id));
        }
    }
    assert_eq!(bn.get_children(0), vec![2, 3, 6]);
    assert!(bn.get_children(11).is_empty());
}
