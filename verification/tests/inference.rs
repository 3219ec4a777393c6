use biodigestor::biodigester::build_network_internal;
use biodigestor::model::BiodigestorModel;
use biodigestor::query::{Algorithm, Query};
use biodigestor::registry::{NetworkDefinition, Registration};
use biodigestor::state::State;
use std::collections::HashMap;
use suma_core::probability::bayes::BN_base::State as EngineState;
use suma_core::probability::bayes::BayesianNetwork;

fn engine(definition: &NetworkDefinition) -> BayesianNetwork {
    let nodes = definition.as_nodes();
    let mut network = BayesianNetwork::new();
    for node in nodes {
        let parents: Vec<&str> = node.parents.iter().map(|&p| nodes[p].name.as_str()).collect();
        let domain: Vec<String> = node.domain.iter().map(|s| s.label()).collect();
        let rows: Vec<(Vec<String>, Vec<(String, f64)>)> = node
            .rows
            .iter()
            .map(|row| {
                (
                    row.given.iter().map(|s| s.label()).collect(),
                    row.weights.iter().map(|(s, w)| (s.label(), *w as f64 / 1_000_000.0)).collect(),
                )
            })
            .collect();
        let mut table: HashMap<Vec<&str>, HashMap<&str, f64>> = HashMap::new();
        for (given, weights) in &rows {
            table.insert(
                given.iter().map(|s| s.as_str()).collect(),
                weights.iter().map(|(s, p)| (s.as_str(), *p)).collect(),
            );
        }
        network
            .add_discrete_node(&node.name, parents, domain.iter().map(|s| s.as_str()).collect(), table)
            .unwrap();
    }
    network
}

fn to_engine(state: &State) -> EngineState {
    match state {
        State::True => EngineState::True,
        State::False => EngineState::False,
        State::Named(name) => EngineState::Value(name.clone()),
    }
}

fn from_engine(state: EngineState) -> State {
    match state {
        EngineState::True => State::True,
        EngineState::False => State::False,
        EngineState::Value(name) => State::Named(name),
    }
}

fn run(model: &BiodigestorModel, query: &Query) -> HashMap<State, f64> {
    let evidence: HashMap<usize, EngineState> =
        query.evidence.iter().map(|(id, state)| (*id, to_engine(state))).collect();
    let network = model.as_network();
    let distribution = match query.algorithm {
        Algorithm::Rejection => {
            network.rejection_sampling(&evidence, query.target, query.sample_count)
        }
        Algorithm::LikelihoodWeighting => {
            network.likelihood_weighting_sampling(&evidence, query.target, query.sample_count)
        }
    };
    distribution.into_iter().map(|(state, p)| (from_engine(state), p)).collect()
}

fn ask(
    model: &BiodigestorModel,
    evidence: &[(&str, &str)],
    target: &str,
    algorithm: Algorithm,
    samples: usize,
) -> HashMap<State, f64> {
    let evidence: Vec<(String, String)> =
        evidence.iter().map(|(a, b)| (a.to_string(), b.to_string())).collect();
    let query = model.infer(&evidence, target, algorithm, samples).unwrap();
    run(model, &query)
}

fn biodigester() -> BiodigestorModel {
    let definition = build_network_internal().expect("Failed to build Bayesian Network");
    BiodigestorModel::new(engine(&definition)).ok().unwrap()
}

fn chain() -> BiodigestorModel {
    let steps = vec![
        Registration::discrete(
            "A",
            vec![],
            vec!["X", "Y"],
            vec![(vec![], vec![("X", 400_000), ("Y", 600_000)])],
        ),
        Registration::discrete(
            "B",
            vec!["A"],
            vec!["low", "high"],
            vec![
                (vec!["X"], vec![("low", 700_000), ("high", 300_000)]),
                (vec!["Y"], vec![("low", 200_000), ("high", 800_000)]),
            ],
        ),
        Registration::discrete(
            "C",
            vec!["B"],
            vec!["on", "off"],
            vec![
                (vec!["low"], vec![("on", 900_000), ("off", 100_000)]),
                (vec!["high"], vec![("on", 250_000), ("off", 750_000)]),
            ],
        ),
    ];
    let definition = NetworkDefinition::build(&steps).unwrap();
    BiodigestorModel::new(engine(&definition)).ok().unwrap()
}

fn named(name: &str) -> State {
    State::Named(name.to_string())
}

fn probability(distribution: &HashMap<State, f64>, name: &str) -> f64 {
    distribution.get(&named(name)).copied().unwrap_or(0.0)
}

#[test]
fn test_complex_inference_high_samples() {
    let model = biodigester();
    let distribution = ask(
        &model,
        &[
            ("T_sensor", "normal"),
            ("pH_sensor", "neutro"),
            ("Flow_sensor", "normal"),
            ("Gas_sensor", "normal"),
            ("Presion_sensor", "normal"),
        ],
        "EstadoMicrobiano",
        Algorithm::LikelihoodWeighting,
        100_000,
    );
    assert!(!distribution.is_empty());
    let sum_probabilities: f64 = distribution.values().sum();
    assert!(
        (sum_probabilities - 1.0).abs() < 0.05,
        "Probabilidades no suman a 1.0. Suma: {}",
        sum_probabilities
    );
    println!(
        "Inferencia con 100,000 muestras (EstadoMicrobiano | Sensores Normales): {:?}",
        distribution
    );
}

#[test]
fn test_critical_single_evidence() {
    let model = biodigester();
    let distribution = ask(
        &model,
        &[("pH_sensor", "neutro")],
        "EstadoMicrobiano",
        Algorithm::LikelihoodWeighting,
        10_000,
    );
    assert!(!distribution.is_empty());
    let sum_probabilities: f64 = distribution.values().sum();
    assert!(
        (sum_probabilities - 1.0).abs() < 0.05,
        "Probabilidades no suman a 1.0 en test simple. Suma: {}",
        sum_probabilities
    );
    let prob_bueno = probability(&distribution, "Bueno");
    let prob_degradado = probability(&distribution, "Degradado");
    println!(
        "Inferencia con 10,000 muestras (EstadoMicrobiano | pH Neutro): {:?}",
        distribution
    );
    assert!(prob_bueno > prob_degradado);
}

#[test]
fn test_sanidad_evidencia_raiz() {
    let model = biodigester();
    let distribution = ask(
        &model,
        &[("EstadoOperativo", "Fuga")],
        "PresionReal",
        Algorithm::LikelihoodWeighting,
        1000,
    );
    assert!(!distribution.is_empty());
    let sum_probabilities: f64 = distribution.values().sum();
    assert!(
        (sum_probabilities - 1.0).abs() < 0.05,
        "Probabilidades no suman a 1.0. Suma: {}",
        sum_probabilities
    );
    let prob_baja = probability(&distribution, "Baja");
    println!(
        "Inferencia con 1000 muestras (PresionReal | EstadoOperativo Fuga): {:?}",
        distribution
    );
    assert!(prob_baja > 0.5, "Prob Baja: {}", prob_baja);
}

#[test]
fn marginal_without_evidence_matches_enumeration() {
    let model = chain();
    // P(B = low) = 0.4 * 0.7 + 0.6 * 0.2 = 0.40
    // P(C = on) = 0.40 * 0.9 + 0.60 * 0.25 = 0.51
    for algorithm in [Algorithm::Rejection, Algorithm::LikelihoodWeighting] {
        let b = ask(&model, &[], "B", algorithm, 20_000);
        assert!((probability(&b, "low") - 0.40).abs() < 0.05);
        assert!((probability(&b, "high") - 0.60).abs() < 0.05);
        let c = ask(&model, &[], "C", algorithm, 20_000);
        assert!((probability(&c, "on") - 0.51).abs() < 0.05);
        assert!((probability(&c, "off") - 0.49).abs() < 0.05);
        let a = ask(&model, &[], "A", algorithm, 20_000);
        assert!((probability(&a, "X") - 0.40).abs() < 0.05);
    }
}

#[test]
fn evidence_on_the_root_biases_the_child() {
    let model = chain();
    let b = ask(&model, &[("A", "X")], "B", Algorithm::LikelihoodWeighting, 10_000);
    assert!((probability(&b, "low") - 0.7).abs() < 0.05);
    let b = ask(&model, &[("A", "Y")], "B", Algorithm::LikelihoodWeighting, 10_000);
    assert!((probability(&b, "low") - 0.2).abs() < 0.05);
}

#[test]
fn evidence_on_a_child_biases_the_root() {
    let model = chain();
    // P(A = X | B = low) = 0.28 / 0.40 = 0.70
    let a = ask(&model, &[("B", "low")], "A", Algorithm::LikelihoodWeighting, 20_000);
    assert!((probability(&a, "X") - 0.70).abs() < 0.05);
}

#[test]
fn both_algorithms_agree() {
    let model = chain();
    let rejection = ask(&model, &[("C", "on")], "A", Algorithm::Rejection, 50_000);
    let weighting = ask(&model, &[("C", "on")], "A", Algorithm::LikelihoodWeighting, 50_000);
    for state in ["X", "Y"] {
        assert!((probability(&rejection, state) - probability(&weighting, state)).abs() < 0.05);
    }
    // P(C = on | A = X) = 0.7 * 0.9 + 0.3 * 0.25 = 0.705, P(C = on | A = Y) = 0.38
    // P(A = X | C = on) = 0.282 / 0.51
    assert!((probability(&weighting, "X") - 0.282 / 0.51).abs() < 0.05);
}

#[test]
fn impossible_evidence_gives_an_empty_distribution() {
    let model = chain();
    for algorithm in [Algorithm::Rejection, Algorithm::LikelihoodWeighting] {
        let distribution = ask(&model, &[("A", "Z")], "B", algorithm, 2_000);
        assert!(distribution.is_empty());
    }
    let biodigester = biodigester();
    let distribution = ask(
        &biodigester,
        &[("pH_sensor", "Neutro")],
        "EstadoMicrobiano",
        Algorithm::LikelihoodWeighting,
        2_000,
    );
    assert!(distribution.is_empty());
}

#[test]
fn no_samples_give_an_empty_distribution() {
    let model = chain();
    for algorithm in [Algorithm::Rejection, Algorithm::LikelihoodWeighting] {
        assert!(ask(&model, &[], "B", algorithm, 0).is_empty());
    }
}

#[test]
fn probabilities_sum_to_one() {
    let model = chain();
    for algorithm in [Algorithm::Rejection, Algorithm::LikelihoodWeighting] {
        for (evidence, target) in [
            (vec![], "C"),
            (vec![("A", "Y")], "C"),
            (vec![("C", "off")], "B"),
            (vec![("A", "X"), ("C", "on")], "B"),
            (vec![("B", "high")], "B"),
        ] {
            let distribution = ask(&model, &evidence, target, algorithm, 5_000);
            assert!(!distribution.is_empty());
            let sum: f64 = distribution.values().sum();
            assert!((sum - 1.0).abs() < 0.05);
            for p in distribution.values() {
                assert!(*p >= 0.0 && *p <= 1.0);
            }
        }
    }
}

#[test]
fn evidence_on_the_target_makes_it_certain() {
    let model = chain();
    let b = ask(&model, &[("B", "high")], "B", Algorithm::LikelihoodWeighting, 2_000);
    assert_eq!(b.len(), 1);
    assert!((probability(&b, "high") - 1.0).abs() < 1e-9);
}
