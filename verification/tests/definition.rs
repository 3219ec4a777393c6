use biodigestor::biodigester::{build_network_internal, registrations};
use biodigestor::definition::{CptRow, UNIT};
use biodigestor::registry::{NetworkDefinition, Registration, ValidationError};
use biodigestor::state::State;

fn coin(name: &str) -> Registration {
    Registration::discrete(
        name,
        vec![],
        vec!["heads", "tails"],
        vec![(vec![], vec![("heads", 500_000), ("tails", 500_000)])],
    )
}

fn follower(name: &str, parent: &str, table: Vec<(Vec<&str>, Vec<(&str, u32)>)>) -> Registration {
    Registration::discrete(name, vec![parent], vec!["low", "high"], table)
}

fn register(definition: &mut NetworkDefinition, step: Registration) -> Result<usize, ValidationError> {
    definition.add_discrete_node(&step.name, &step.parent_names, step.domain, step.rows)
}

#[test]
fn unit_is_one_million() {
    assert_eq!(UNIT, 1_000_000);
}

#[test]
fn empty_definition_has_no_nodes() {
    let definition = NetworkDefinition::new();
    assert_eq!(definition.len(), 0);
    assert!(definition.as_nodes().is_empty());
}

#[test]
fn registration_assigns_consecutive_ids() {
    let mut definition = NetworkDefinition::new();
    assert_eq!(register(&mut definition, coin("A")), Ok(0));
    let table = vec![
        (vec!["heads"], vec![("low", 700_000), ("high", 300_000)]),
        (vec!["tails"], vec![("low", 200_000), ("high", 800_000)]),
    ];
    assert_eq!(register(&mut definition, follower("B", "A", table)), Ok(1));
    assert_eq!(definition.len(), 2);
    let nodes = definition.as_nodes();
    assert_eq!(nodes[0].name, "A");
    assert!(nodes[0].parents.is_empty());
    assert_eq!(nodes[1].name, "B");
    assert_eq!(nodes[1].parents, vec![0]);
    assert_eq!(
        nodes[1].domain,
        vec![State::Named("low".to_string()), State::Named("high".to_string())]
    );
    assert_eq!(
        nodes[1].rows[1],
        CptRow {
            given: vec![State::Named("tails".to_string())],
            weights: vec![
                (State::Named("low".to_string()), 200_000),
                (State::Named("high".to_string()), 800_000)
            ],
        }
    );
}

#[test]
fn duplicate_name_is_refused() {
    let mut definition = NetworkDefinition::new();
    assert_eq!(register(&mut definition, coin("A")), Ok(0));
    let before = definition.as_nodes().clone();
    assert_eq!(register(&mut definition, coin("A")), Err(ValidationError::DuplicateName));
    assert_eq!(definition.as_nodes(), &before);
}

#[test]
fn unknown_parent_is_refused_with_its_position() {
    let mut definition = NetworkDefinition::new();
    assert_eq!(register(&mut definition, coin("A")), Ok(0));
    let step = Registration::discrete(
        "C",
        vec!["A", "Nobody"],
        vec!["low", "high"],
        vec![(vec!["heads", "x"], vec![("low", 1_000_000)])],
    );
    assert_eq!(register(&mut definition, step), Err(ValidationError::UnknownParent(1)));
    assert_eq!(definition.len(), 1);
}

#[test]
fn duplicate_name_comes_before_unknown_parent() {
    let mut definition = NetworkDefinition::new();
    assert_eq!(register(&mut definition, coin("A")), Ok(0));
    let step = follower("A", "Nobody", vec![]);
    assert_eq!(register(&mut definition, step), Err(ValidationError::DuplicateName));
}

#[test]
fn row_of_wrong_arity_is_malformed() {
    let mut definition = NetworkDefinition::new();
    assert_eq!(register(&mut definition, coin("A")), Ok(0));
    let table = vec![
        (vec!["heads"], vec![("low", 700_000), ("high", 300_000)]),
        (vec!["tails", "tails"], vec![("low", 200_000), ("high", 800_000)]),
    ];
    assert_eq!(
        register(&mut definition, follower("B", "A", table)),
        Err(ValidationError::MalformedEntry(1))
    );
    assert_eq!(definition.len(), 1);
}

#[test]
fn row_for_a_state_outside_the_parent_domain_is_malformed() {
    let mut definition = NetworkDefinition::new();
    assert_eq!(register(&mut definition, coin("A")), Ok(0));
    let table = vec![
        (vec!["edge"], vec![("low", 700_000), ("high", 300_000)]),
        (vec!["heads"], vec![("low", 700_000), ("high", 300_000)]),
        (vec!["tails"], vec![("low", 200_000), ("high", 800_000)]),
    ];
    assert_eq!(
        register(&mut definition, follower("B", "A", table)),
        Err(ValidationError::MalformedEntry(0))
    );
}

#[test]
fn weight_for_a_state_outside_the_domain_is_malformed() {
    let mut definition = NetworkDefinition::new();
    let step = Registration::discrete(
        "A",
        vec![],
        vec!["heads", "tails"],
        vec![(vec![], vec![("heads", 500_000), ("edge", 500_000)])],
    );
    assert_eq!(register(&mut definition, step), Err(ValidationError::MalformedEntry(0)));
    assert_eq!(definition.len(), 0);
}

#[test]
fn weight_given_twice_to_one_state_is_malformed() {
    let mut definition = NetworkDefinition::new();
    let step = Registration::discrete(
        "A",
        vec![],
        vec!["heads", "tails"],
        vec![(vec![], vec![("heads", 500_000), ("heads", 500_000)])],
    );
    assert_eq!(register(&mut definition, step), Err(ValidationError::MalformedEntry(0)));
}

#[test]
fn repeated_row_is_malformed() {
    let mut definition = NetworkDefinition::new();
    assert_eq!(register(&mut definition, coin("A")), Ok(0));
    let table = vec![
        (vec!["heads"], vec![("low", 700_000), ("high", 300_000)]),
        (vec!["tails"], vec![("low", 200_000), ("high", 800_000)]),
        (vec!["heads"], vec![("low", 100_000), ("high", 900_000)]),
    ];
    assert_eq!(
        register(&mut definition, follower("B", "A", table)),
        Err(ValidationError::MalformedEntry(2))
    );
}

#[test]
fn missing_combination_is_refused() {
    let mut definition = NetworkDefinition::new();
    assert_eq!(register(&mut definition, coin("A")), Ok(0));
    let table = vec![(vec!["heads"], vec![("low", 700_000), ("high", 300_000)])];
    assert_eq!(
        register(&mut definition, follower("B", "A", table)),
        Err(ValidationError::MissingEntry)
    );
    assert_eq!(definition.len(), 1);
}

#[test]
fn root_without_a_row_is_refused() {
    let mut definition = NetworkDefinition::new();
    let step = Registration::discrete("A", vec![], vec!["heads", "tails"], vec![]);
    assert_eq!(register(&mut definition, step), Err(ValidationError::MissingEntry));
}

#[test]
fn missing_combination_of_two_parents_is_refused() {
    let mut definition = NetworkDefinition::new();
    assert_eq!(register(&mut definition, coin("A")), Ok(0));
    assert_eq!(register(&mut definition, coin("B")), Ok(1));
    let step = Registration::discrete(
        "C",
        vec!["A", "B"],
        vec!["low", "high"],
        vec![
            (vec!["heads", "heads"], vec![("low", 1_000_000)]),
            (vec!["heads", "tails"], vec![("low", 1_000_000)]),
            (vec!["tails", "heads"], vec![("low", 1_000_000)]),
        ],
    );
    assert_eq!(register(&mut definition, step), Err(ValidationError::MissingEntry));
    let step = Registration::discrete(
        "C",
        vec!["A", "B"],
        vec!["low", "high"],
        vec![
            (vec!["heads", "heads"], vec![("low", 1_000_000)]),
            (vec!["heads", "tails"], vec![("low", 1_000_000)]),
            (vec!["tails", "heads"], vec![("low", 1_000_000)]),
            (vec!["tails", "tails"], vec![("high", 1_000_000)]),
        ],
    );
    assert_eq!(register(&mut definition, step), Ok(2));
    assert_eq!(definition.as_nodes()[2].parents, vec![0, 1]);
}

#[test]
fn row_that_sums_to_less_than_one_is_refused() {
    let mut definition = NetworkDefinition::new();
    let step = Registration::discrete(
        "Parent",
        vec![],
        vec!["A", "B"],
        vec![(vec![], vec![("A", 600_000), ("B", 300_000)])],
    );
    assert_eq!(register(&mut definition, step), Err(ValidationError::NotNormalized(0)));
    assert_eq!(definition.len(), 0);
}

#[test]
fn row_that_sums_to_more_than_one_is_refused() {
    let mut definition = NetworkDefinition::new();
    assert_eq!(register(&mut definition, coin("A")), Ok(0));
    let table = vec![
        (vec!["heads"], vec![("low", 700_000), ("high", 300_000)]),
        (vec!["tails"], vec![("low", 200_000), ("high", 800_001)]),
    ];
    assert_eq!(
        register(&mut definition, follower("B", "A", table)),
        Err(ValidationError::NotNormalized(1))
    );
}

#[test]
fn very_large_weights_are_refused_without_overflow() {
    let mut definition = NetworkDefinition::new();
    let step = Registration::discrete(
        "A",
        vec![],
        vec!["a", "b", "c"],
        vec![(vec![], vec![("a", u32::MAX), ("b", u32::MAX), ("c", u32::MAX)])],
    );
    assert_eq!(register(&mut definition, step), Err(ValidationError::NotNormalized(0)));
}

#[test]
fn missing_entry_comes_before_the_sums() {
    let mut definition = NetworkDefinition::new();
    assert_eq!(register(&mut definition, coin("A")), Ok(0));
    let table = vec![(vec!["heads"], vec![("low", 1), ("high", 2)])];
    assert_eq!(
        register(&mut definition, follower("B", "A", table)),
        Err(ValidationError::MissingEntry)
    );
}

#[test]
fn build_stops_at_the_first_refusal() {
    let steps = vec![coin("A"), coin("B"), coin("A"), coin("C")];
    assert_eq!(NetworkDefinition::build(&steps), Err((2, ValidationError::DuplicateName)));
}

#[test]
fn build_keeps_every_registration_in_order() {
    let steps = vec![coin("A"), coin("B"), coin("C")];
    let definition = NetworkDefinition::build(&steps).unwrap();
    assert_eq!(definition.len(), 3);
    for (node, step) in definition.as_nodes().iter().zip(steps.iter()) {
        assert_eq!(node.name, step.name);
        assert_eq!(node.domain, step.domain);
        assert_eq!(node.rows, step.rows);
    }
}

#[test]
fn building_twice_gives_identical_tables() {
    let first = build_network_internal().unwrap();
    let second = build_network_internal().unwrap();
    assert_eq!(first, second);
    let again = NetworkDefinition::build(&registrations()).unwrap();
    assert_eq!(first, again);
}

#[test]
fn biodigester_definition_has_twelve_nodes_in_order() {
    let definition = build_network_internal().unwrap();
    let names: Vec<&str> = definition.as_nodes().iter().map(|n| n.name.as_str()).collect();
    assert_eq!(
        names,
        vec![
            "EstadoMicrobiano",
            "EstadoOperativo",
            "TemperaturaReal",
            "pHReal",
            "CaudalReal",
            "PresionReal",
            "ProduccionGasReal",
            "T_sensor",
            "pH_sensor",
            "Flow_sensor",
            "Gas_sensor",
            "Presion_sensor"
        ]
    );
    assert_eq!(definition.as_nodes()[6].parents, vec![0, 4]);
    assert_eq!(definition.as_nodes()[11].parents, vec![5]);
}

#[test]
fn every_row_of_the_biodigester_sums_to_one() {
    let definition = build_network_internal().unwrap();
    for node in definition.as_nodes() {
        let mut combinations = 1;
        for &parent in &node.parents {
            assert!(parent < definition.len());
            combinations *= definition.as_nodes()[parent].domain.len();
        }
        assert_eq!(node.rows.len(), combinations);
        for row in &node.rows {
            let sum: u64 = row.weights.iter().map(|w| w.1 as u64).sum();
            assert_eq!(sum, UNIT as u64);
        }
    }
}

#[test]
fn parents_are_registered_before_their_children() {
    let definition = build_network_internal().unwrap();
    for (id, node) in definition.as_nodes().iter().enumerate() {
        for &parent in &node.parents {
            assert!(parent < id);
        }
    }
}

#[test]
fn biodigester_weights_are_as_defined() {
    let definition = build_network_internal().unwrap();
    let gas = &definition.as_nodes()[6];
    let row = gas
        .rows
        .iter()
        .find(|r| {
            r.given
                == vec![State::Named("Degradado".to_string()), State::Named("Bajo".to_string())]
        })
        .unwrap();
    assert_eq!(
        row.weights,
        vec![
            (State::Named("Normal".to_string()), 90_000),
            (State::Named("Alta".to_string()), 10_000),
            (State::Named("Baja".to_string()), 900_000)
        ]
    );
    let root = &definition.as_nodes()[0];
    assert_eq!(
        root.rows[0].weights,
        vec![
            (State::Named("Bueno".to_string()), 850_000),
            (State::Named("Degradado".to_string()), 150_000)
        ]
    );
}

#[test]
fn row_for_finds_the_distribution_of_a_combination() {
    let definition = build_network_internal().unwrap();
    let given = vec![State::Named("Degradado".to_string()), State::Named("Alto".to_string())];
    let row = definition.row_for(6, &given).unwrap();
    assert_eq!(row.given, given);
    assert_eq!(
        row.weights,
        vec![
            (State::Named("Normal".to_string()), 100_000),
            (State::Named("Alta".to_string()), 200_000),
            (State::Named("Baja".to_string()), 700_000)
        ]
    );
    let root = definition.row_for(1, &Vec::new()).unwrap();
    assert_eq!(root.weights[2], (State::Named("Fuga".to_string()), 20_000));
}

#[test]
fn row_for_goes_by_the_order_of_the_parents() {
    let definition = build_network_internal().unwrap();
    let swapped = vec![State::Named("Alto".to_string()), State::Named("Degradado".to_string())];
    assert_eq!(definition.row_for(6, &swapped), None);
}

#[test]
fn row_for_finds_nothing_outside_the_table() {
    let definition = build_network_internal().unwrap();
    assert_eq!(definition.row_for(12, &Vec::new()), None);
    assert_eq!(definition.row_for(usize::MAX, &Vec::new()), None);
    assert_eq!(definition.row_for(2, &Vec::new()), None);
    assert_eq!(definition.row_for(2, &vec![State::Named("bueno".to_string())]), None);
    assert_eq!(definition.row_for(0, &vec![State::True]), None);
}

#[test]
fn every_combination_of_parent_states_has_a_distribution() {
    let definition = build_network_internal().unwrap();
    let nodes = definition.as_nodes();
    for (id, node) in nodes.iter().enumerate() {
        let mut combinations: Vec<Vec<State>> = vec![Vec::new()];
        for &parent in &node.parents {
            let mut longer = Vec::new();
            for prefix in &combinations {
                for state in &nodes[parent].domain {
                    let mut next = prefix.clone();
                    next.push(state.clone());
                    longer.push(next);
                }
            }
            combinations = longer;
        }
        for given in &combinations {
            let row = definition.row_for(id, given).unwrap();
            let sum: u64 = row.weights.iter().map(|w| w.1 as u64).sum();
            assert_eq!(sum, 1_000_000);
            for (state, _) in &row.weights {
                assert!(node.domain.contains(state));
            }
        }
    }
}

#[test]
fn register_copies_what_the_step_holds() {
    let mut definition = NetworkDefinition::new();
    let step = coin("A");
    assert_eq!(definition.register(&step), Ok(0));
    assert_eq!(definition.register(&step), Err(ValidationError::DuplicateName));
    assert_eq!(definition.len(), 1);
    let node = &definition.as_nodes()[0];
    assert_eq!(node.name, step.name);
    assert_eq!(node.domain, step.domain);
    assert_eq!(node.rows, step.rows);
}

#[test]
fn discrete_reads_booleans_and_categorical_does_not() {
    let table = vec![(vec![], vec![("true", 250_000), ("FALSE", 750_000)])];
    let read = Registration::discrete("Alarm", vec![], vec!["true", "FALSE"], table.clone());
    assert_eq!(read.domain, vec![State::True, State::False]);
    assert_eq!(read.rows[0].weights, vec![(State::True, 250_000), (State::False, 750_000)]);
    let named = Registration::categorical("Alarm", vec![], vec!["true", "FALSE"], table);
    assert_eq!(
        named.domain,
        vec![State::Named("true".to_string()), State::Named("FALSE".to_string())]
    );
    assert_eq!(
        named.rows[0].weights,
        vec![
            (State::Named("true".to_string()), 250_000),
            (State::Named("FALSE".to_string()), 750_000)
        ]
    );
    assert_eq!(named.name, "Alarm");
    assert!(named.parent_names.is_empty());
    assert!(named.rows[0].given.is_empty());
}

#[test]
fn categorical_and_discrete_agree_on_category_names() {
    let table = vec![
        (vec!["heads"], vec![("low", 700_000), ("high", 300_000)]),
        (vec!["tails"], vec![("low", 200_000), ("high", 800_000)]),
    ];
    assert_eq!(
        Registration::categorical("B", vec!["A"], vec!["low", "high"], table.clone()),
        Registration::discrete("B", vec!["A"], vec!["low", "high"], table)
    );
}

#[test]
fn states_that_differ_only_in_case_are_one_boolean() {
    let mut definition = NetworkDefinition::new();
    let step = Registration::discrete(
        "Alarm",
        vec![],
        vec!["true", "True"],
        vec![(vec![], vec![("true", 500_000), ("True", 500_000)])],
    );
    assert_eq!(register(&mut definition, step), Err(ValidationError::MalformedEntry(0)));
}
