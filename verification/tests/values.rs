use biodigestor::graph::{node_for, node_group, WasmNode};
use biodigestor::query::QueryError;
use biodigestor::state::State;
use biodigestor::text::{chars_of, contains, same_text};

#[test]
fn true_and_false_are_read_in_any_case() {
    assert_eq!(State::from_str("true"), State::True);
    assert_eq!(State::from_str("TRUE"), State::True);
    assert_eq!(State::from_str("True"), State::True);
    assert_eq!(State::from_str("false"), State::False);
    assert_eq!(State::from_str("FaLsE"), State::False);
}

#[test]
fn other_text_is_a_named_state() {
    assert_eq!(State::from_str("Bueno"), State::Named("Bueno".to_string()));
    assert_eq!(State::from_str("normal"), State::Named("normal".to_string()));
    assert_eq!(State::from_str(""), State::Named(String::new()));
    assert_eq!(State::from_str(" true"), State::Named(" true".to_string()));
    assert_eq!(State::from_str("truee"), State::Named("truee".to_string()));
    assert_eq!(State::from_str("Fuga"), State::Named("Fuga".to_string()));
}

#[test]
fn named_state_keeps_the_case_of_its_text() {
    assert_eq!(State::from_str("NORMAL"), State::Named("NORMAL".to_string()));
    assert_ne!(State::from_str("NORMAL"), State::from_str("normal"));
}

#[test]
fn classify_goes_by_the_lowered_text() {
    assert_eq!(State::classify("TRUE", "true"), State::True);
    assert_eq!(State::classify("anything", "false"), State::False);
    assert_eq!(State::classify("TRUE", "TRUE"), State::Named("TRUE".to_string()));
    assert_eq!(State::classify("Alta", "alta"), State::Named("Alta".to_string()));
}

#[test]
fn labels_of_states() {
    assert_eq!(State::True.label(), "True");
    assert_eq!(State::False.label(), "False");
    assert_eq!(State::Named("Degradado".to_string()).label(), "Degradado");
}

#[test]
fn label_reads_back_as_the_same_state() {
    for state in [State::True, State::False, State::Named("Neutro".to_string())] {
        assert_eq!(State::from_str(&state.label()), state);
    }
}

#[test]
fn same_as_compares_values() {
    let a = State::Named("Alta".to_string());
    assert!(a.same_as(&State::Named("Alta".to_string())));
    assert!(!a.same_as(&State::Named("alta".to_string())));
    assert!(!a.same_as(&State::True));
    assert!(State::True.same_as(&State::True));
    assert!(!State::True.same_as(&State::False));
    assert!(State::False.same_as(&State::False));
}

#[test]
fn duplicate_is_equal_to_its_source() {
    let a = State::Named("Alta".to_string());
    assert_eq!(a.duplicate(), a);
    assert_eq!(State::True.duplicate(), State::True);
    assert_eq!(State::False.duplicate(), State::False);
}

#[test]
fn chars_of_counts_characters_not_bytes() {
    assert_eq!(chars_of("Físico"), vec!['F', 'í', 's', 'i', 'c', 'o']);
    assert!(chars_of("").is_empty());
}

#[test]
fn same_text_is_exact() {
    assert!(same_text("pH_sensor", "pH_sensor"));
    assert!(!same_text("pH_sensor", "ph_sensor"));
    assert!(!same_text("pH", "pH_sensor"));
    assert!(same_text("", ""));
}

#[test]
fn contains_finds_a_part_anywhere() {
    assert!(contains("TemperaturaReal", "Real"));
    assert!(contains("RealTime", "Real"));
    assert!(contains("xRealx", "Real"));
    assert!(!contains("T_sensor", "Real"));
    assert!(!contains("real", "Real"));
    assert!(!contains("Rea", "Real"));
    assert!(contains("abc", ""));
    assert!(contains("", ""));
    assert!(!contains("", "a"));
    assert!(contains("ReReal", "Real"));
}

#[test]
fn hidden_causes_are_grouped_by_name() {
    assert_eq!(node_group(&"EstadoMicrobiano".to_string()), "Oculto");
    assert_eq!(node_group(&"EstadoOperativo".to_string()), "Oculto");
}

#[test]
fn physical_quantities_are_grouped_by_the_word_real() {
    for name in ["TemperaturaReal", "pHReal", "CaudalReal", "PresionReal", "ProduccionGasReal"] {
        assert_eq!(node_group(&name.to_string()), "Físico");
    }
}

#[test]
fn every_other_node_is_a_sensor() {
    for name in ["T_sensor", "pH_sensor", "Flow_sensor", "Gas_sensor", "Presion_sensor", ""] {
        assert_eq!(node_group(&name.to_string()), "Sensor");
    }
    assert_eq!(node_group(&"estadomicrobiano".to_string()), "Sensor");
}

#[test]
fn node_entry_repeats_the_name() {
    assert_eq!(
        node_for(&"CaudalReal".to_string()),
        WasmNode {
            id: "CaudalReal".to_string(),
            label: "CaudalReal".to_string(),
            group: "Físico".to_string()
        }
    );
}

#[test]
fn refusals_name_what_was_not_found() {
    assert_eq!(
        QueryError::NodeNotFound("Valve".to_string()).message(),
        "Node not found: Valve"
    );
    assert_eq!(
        QueryError::TargetNotFound("Pump".to_string()).message(),
        "Target node not found: Pump"
    );
}
