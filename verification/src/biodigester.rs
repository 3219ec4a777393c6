//! The network of the biodigester: two hidden causes, five physical
//! quantities that they drive, and one sensor for each quantity. Each node
//! is written down as the registration it is and as the function that makes
//! it.

use crate::biodigester_tables::lemma_run_holds_12;
use crate::definition::{valid, NodeDefinitionModel};
use crate::registry::{
    all_accepted, lemma_accepted_run_is_valid, named_rows, named_states, registered,
    NetworkDefinition, Registration, RegistrationModel, ValidationError,
};
use vstd::prelude::*;

verus! {

/// A table as text: for each combination of parent states, the weight of
/// each of the node's states.
pub type TextTable = Seq<(Seq<Seq<char>>, Seq<(Seq<char>, u32)>)>;

/// The registration of a node whose states are named categories.
pub open spec fn entry(
    name: Seq<char>,
    parent_names: Seq<Seq<char>>,
    possible_values: Seq<Seq<char>>,
    table: TextTable,
) -> RegistrationModel {
    RegistrationModel {
        name,
        parent_names,
        domain: named_states(possible_values),
        rows: named_rows(table),
    }
}

/// The names of the nodes of the biodigester's network, in the order of their
/// registration.
pub open spec fn node_names() -> Seq<Seq<char>> {
    seq![
        "EstadoMicrobiano"@,
        "EstadoOperativo"@,
        "TemperaturaReal"@,
        "pHReal"@,
        "CaudalReal"@,
        "PresionReal"@,
        "ProduccionGasReal"@,
        "T_sensor"@,
        "pH_sensor"@,
        "Flow_sensor"@,
        "Gas_sensor"@,
        "Presion_sensor"@,
    ]
}

/// The state of the microbial culture, a cause without parents.
#[verifier::opaque]
pub open spec fn microbial_state_entry() -> RegistrationModel {
    entry(
        "EstadoMicrobiano"@,
        seq![],
        seq!["Bueno"@, "Degradado"@],
        seq![
            (seq![], seq![("Bueno"@, 850_000u32), ("Degradado"@, 150_000u32)]),
        ],
    )
}

fn microbial_state() -> (step: Registration)
    ensures
        step.deep_view() == microbial_state_entry(),
{
    reveal(microbial_state_entry);
    let parents: Vec<&str> = vec![];
    let values: Vec<&str> = vec!["Bueno", "Degradado"];
    let table: Vec<(Vec<&str>, Vec<(&str, u32)>)> = vec![
        (vec![], vec![("Bueno", 850_000), ("Degradado", 150_000)]),
    ];
    assert(parents.deep_view() =~= seq![]);
    assert(values.deep_view() =~= seq!["Bueno"@, "Degradado"@]);
    assert(table.deep_view() =~~= seq![
        (seq![], seq![("Bueno"@, 850_000u32), ("Degradado"@, 150_000u32)]),
    ]);
    Registration::categorical("EstadoMicrobiano", parents, values, table)
}

/// The state of the plant's mechanics, a cause without parents.
#[verifier::opaque]
pub open spec fn operating_state_entry() -> RegistrationModel {
    entry(
        "EstadoOperativo"@,
        seq![],
        seq!["Normal"@, "FallaMecanica"@, "Fuga"@],
        seq![
            (seq![], seq![("Normal"@, 950_000u32), ("FallaMecanica"@, 30_000u32), ("Fuga"@, 20_000u32)]),
        ],
    )
}

fn operating_state() -> (step: Registration)
    ensures
        step.deep_view() == operating_state_entry(),
{
    reveal(operating_state_entry);
    let parents: Vec<&str> = vec![];
    let values: Vec<&str> = vec!["Normal", "FallaMecanica", "Fuga"];
    let table: Vec<(Vec<&str>, Vec<(&str, u32)>)> = vec![
        (vec![], vec![("Normal", 950_000), ("FallaMecanica", 30_000), ("Fuga", 20_000)]),
    ];
    assert(parents.deep_view() =~= seq![]);
    assert(values.deep_view() =~= seq!["Normal"@, "FallaMecanica"@, "Fuga"@]);
    assert(table.deep_view() =~~= seq![
        (seq![], seq![("Normal"@, 950_000u32), ("FallaMecanica"@, 30_000u32), ("Fuga"@, 20_000u32)]),
    ]);
    Registration::categorical("EstadoOperativo", parents, values, table)
}

/// The temperature in the digester, driven by the culture.
#[verifier::opaque]
pub open spec fn temperature_entry() -> RegistrationModel {
    entry(
        "TemperaturaReal"@,
        seq!["EstadoMicrobiano"@],
        seq!["Baja"@, "Normal"@, "Alta"@],
        seq![
            (seq!["Bueno"@], seq![("Normal"@, 900_000u32), ("Baja"@, 50_000u32), ("Alta"@, 50_000u32)]),
            (seq!["Degradado"@], seq![("Baja"@, 600_000u32), ("Normal"@, 300_000u32), ("Alta"@, 100_000u32)]),
        ],
    )
}

fn temperature() -> (step: Registration)
    ensures
        step.deep_view() == temperature_entry(),
{
    reveal(temperature_entry);
    let parents: Vec<&str> = vec!["EstadoMicrobiano"];
    let values: Vec<&str> = vec!["Baja", "Normal", "Alta"];
    let table: Vec<(Vec<&str>, Vec<(&str, u32)>)> = vec![
        (vec!["Bueno"], vec![("Normal", 900_000), ("Baja", 50_000), ("Alta", 50_000)]),
        (vec!["Degradado"], vec![("Baja", 600_000), ("Normal", 300_000), ("Alta", 100_000)]),
    ];
    assert(parents.deep_view() =~= seq!["EstadoMicrobiano"@]);
    assert(values.deep_view() =~= seq!["Baja"@, "Normal"@, "Alta"@]);
    assert(table.deep_view() =~~= seq![
        (seq!["Bueno"@], seq![("Normal"@, 900_000u32), ("Baja"@, 50_000u32), ("Alta"@, 50_000u32)]),
        (seq!["Degradado"@], seq![("Baja"@, 600_000u32), ("Normal"@, 300_000u32), ("Alta"@, 100_000u32)]),
    ]);
    Registration::categorical("TemperaturaReal", parents, values, table)
}

/// The acidity in the digester, driven by the culture.
#[verifier::opaque]
pub open spec fn acidity_entry() -> RegistrationModel {
    entry(
        "pHReal"@,
        seq!["EstadoMicrobiano"@],
        seq!["Acido"@, "Neutro"@, "Alcalino"@],
        seq![
            (seq!["Bueno"@], seq![("Neutro"@, 850_000u32), ("Acido"@, 100_000u32), ("Alcalino"@, 50_000u32)]),
            (seq!["Degradado"@], seq![("Acido"@, 600_000u32), ("Neutro"@, 300_000u32), ("Alcalino"@, 100_000u32)]),
        ],
    )
}

fn acidity() -> (step: Registration)
    ensures
        step.deep_view() == acidity_entry(),
{
    reveal(acidity_entry);
    let parents: Vec<&str> = vec!["EstadoMicrobiano"];
    let values: Vec<&str> = vec!["Acido", "Neutro", "Alcalino"];
    let table: Vec<(Vec<&str>, Vec<(&str, u32)>)> = vec![
        (vec!["Bueno"], vec![("Neutro", 850_000), ("Acido", 100_000), ("Alcalino", 50_000)]),
        (vec!["Degradado"], vec![("Acido", 600_000), ("Neutro", 300_000), ("Alcalino", 100_000)]),
    ];
    assert(parents.deep_view() =~= seq!["EstadoMicrobiano"@]);
    assert(values.deep_view() =~= seq!["Acido"@, "Neutro"@, "Alcalino"@]);
    assert(table.deep_view() =~~= seq![
        (seq!["Bueno"@], seq![("Neutro"@, 850_000u32), ("Acido"@, 100_000u32), ("Alcalino"@, 50_000u32)]),
        (seq!["Degradado"@], seq![("Acido"@, 600_000u32), ("Neutro"@, 300_000u32), ("Alcalino"@, 100_000u32)]),
    ]);
    Registration::categorical("pHReal", parents, values, table)
}

/// The flow through the plant, driven by its mechanics.
#[verifier::opaque]
pub open spec fn flow_entry() -> RegistrationModel {
    entry(
        "CaudalReal"@,
        seq!["EstadoOperativo"@],
        seq!["Bajo"@, "Normal"@, "Alto"@],
        seq![
            (seq!["Normal"@], seq![("Normal"@, 900_000u32), ("Bajo"@, 50_000u32), ("Alto"@, 50_000u32)]),
            (seq!["Fuga"@], seq![("Alto"@, 700_000u32), ("Normal"@, 200_000u32), ("Bajo"@, 100_000u32)]),
            (seq!["FallaMecanica"@], seq![("Bajo"@, 800_000u32), ("Normal"@, 150_000u32), ("Alto"@, 50_000u32)]),
        ],
    )
}

fn flow() -> (step: Registration)
    ensures
        step.deep_view() == flow_entry(),
{
    reveal(flow_entry);
    let parents: Vec<&str> = vec!["EstadoOperativo"];
    let values: Vec<&str> = vec!["Bajo", "Normal", "Alto"];
    let table: Vec<(Vec<&str>, Vec<(&str, u32)>)> = vec![
        (vec!["Normal"], vec![("Normal", 900_000), ("Bajo", 50_000), ("Alto", 50_000)]),
        (vec!["Fuga"], vec![("Alto", 700_000), ("Normal", 200_000), ("Bajo", 100_000)]),
        (vec!["FallaMecanica"], vec![("Bajo", 800_000), ("Normal", 150_000), ("Alto", 50_000)]),
    ];
    assert(parents.deep_view() =~= seq!["EstadoOperativo"@]);
    assert(values.deep_view() =~= seq!["Bajo"@, "Normal"@, "Alto"@]);
    assert(table.deep_view() =~~= seq![
        (seq!["Normal"@], seq![("Normal"@, 900_000u32), ("Bajo"@, 50_000u32), ("Alto"@, 50_000u32)]),
        (seq!["Fuga"@], seq![("Alto"@, 700_000u32), ("Normal"@, 200_000u32), ("Bajo"@, 100_000u32)]),
        (seq!["FallaMecanica"@], seq![("Bajo"@, 800_000u32), ("Normal"@, 150_000u32), ("Alto"@, 50_000u32)]),
    ]);
    Registration::categorical("CaudalReal", parents, values, table)
}

/// The pressure in the plant, driven by its mechanics.
#[verifier::opaque]
pub open spec fn pressure_entry() -> RegistrationModel {
    entry(
        "PresionReal"@,
        seq!["EstadoOperativo"@],
        seq!["Baja"@, "Normal"@, "Alta"@],
        seq![
            (seq!["Normal"@], seq![("Normal"@, 900_000u32), ("Baja"@, 50_000u32), ("Alta"@, 50_000u32)]),
            (seq!["Fuga"@], seq![("Baja"@, 600_000u32), ("Normal"@, 300_000u32), ("Alta"@, 100_000u32)]),
            (seq!["FallaMecanica"@], seq![("Alta"@, 700_000u32), ("Normal"@, 200_000u32), ("Baja"@, 100_000u32)]),
        ],
    )
}

fn pressure() -> (step: Registration)
    ensures
        step.deep_view() == pressure_entry(),
{
    reveal(pressure_entry);
    let parents: Vec<&str> = vec!["EstadoOperativo"];
    let values: Vec<&str> = vec!["Baja", "Normal", "Alta"];
    let table: Vec<(Vec<&str>, Vec<(&str, u32)>)> = vec![
        (vec!["Normal"], vec![("Normal", 900_000), ("Baja", 50_000), ("Alta", 50_000)]),
        (vec!["Fuga"], vec![("Baja", 600_000), ("Normal", 300_000), ("Alta", 100_000)]),
        (vec!["FallaMecanica"], vec![("Alta", 700_000), ("Normal", 200_000), ("Baja", 100_000)]),
    ];
    assert(parents.deep_view() =~= seq!["EstadoOperativo"@]);
    assert(values.deep_view() =~= seq!["Baja"@, "Normal"@, "Alta"@]);
    assert(table.deep_view() =~~= seq![
        (seq!["Normal"@], seq![("Normal"@, 900_000u32), ("Baja"@, 50_000u32), ("Alta"@, 50_000u32)]),
        (seq!["Fuga"@], seq![("Baja"@, 600_000u32), ("Normal"@, 300_000u32), ("Alta"@, 100_000u32)]),
        (seq!["FallaMecanica"@], seq![("Alta"@, 700_000u32), ("Normal"@, 200_000u32), ("Baja"@, 100_000u32)]),
    ]);
    Registration::categorical("PresionReal", parents, values, table)
}

/// The gas production, driven by the culture and by the flow.
#[verifier::opaque]
pub open spec fn gas_production_entry() -> RegistrationModel {
    entry(
        "ProduccionGasReal"@,
        seq!["EstadoMicrobiano"@, "CaudalReal"@],
        seq!["Baja"@, "Normal"@, "Alta"@],
        seq![
            (seq!["Bueno"@, "Normal"@], seq![("Normal"@, 850_000u32), ("Alta"@, 100_000u32), ("Baja"@, 50_000u32)]),
            (seq!["Bueno"@, "Bajo"@], seq![("Normal"@, 500_000u32), ("Alta"@, 100_000u32), ("Baja"@, 400_000u32)]),
            (seq!["Degradado"@, "Normal"@], seq![("Normal"@, 200_000u32), ("Alta"@, 100_000u32), ("Baja"@, 700_000u32)]),
            (seq!["Degradado"@, "Bajo"@], seq![("Normal"@, 90_000u32), ("Alta"@, 10_000u32), ("Baja"@, 900_000u32)]),
            (seq!["Bueno"@, "Alto"@], seq![("Normal"@, 700_000u32), ("Alta"@, 250_000u32), ("Baja"@, 50_000u32)]),
            (seq!["Degradado"@, "Alto"@], seq![("Normal"@, 100_000u32), ("Alta"@, 200_000u32), ("Baja"@, 700_000u32)]),
        ],
    )
}

fn gas_production() -> (step: Registration)
    ensures
        step.deep_view() == gas_production_entry(),
{
    reveal(gas_production_entry);
    let parents: Vec<&str> = vec!["EstadoMicrobiano", "CaudalReal"];
    let values: Vec<&str> = vec!["Baja", "Normal", "Alta"];
    let table: Vec<(Vec<&str>, Vec<(&str, u32)>)> = vec![
        (vec!["Bueno", "Normal"], vec![("Normal", 850_000), ("Alta", 100_000), ("Baja", 50_000)]),
        (vec!["Bueno", "Bajo"], vec![("Normal", 500_000), ("Alta", 100_000), ("Baja", 400_000)]),
        (vec!["Degradado", "Normal"], vec![("Normal", 200_000), ("Alta", 100_000), ("Baja", 700_000)]),
        (vec!["Degradado", "Bajo"], vec![("Normal", 90_000), ("Alta", 10_000), ("Baja", 900_000)]),
        (vec!["Bueno", "Alto"], vec![("Normal", 700_000), ("Alta", 250_000), ("Baja", 50_000)]),
        (vec!["Degradado", "Alto"], vec![("Normal", 100_000), ("Alta", 200_000), ("Baja", 700_000)]),
    ];
    assert(parents.deep_view() =~= seq!["EstadoMicrobiano"@, "CaudalReal"@]);
    assert(values.deep_view() =~= seq!["Baja"@, "Normal"@, "Alta"@]);
    assert(table.deep_view() =~~= seq![
        (seq!["Bueno"@, "Normal"@], seq![("Normal"@, 850_000u32), ("Alta"@, 100_000u32), ("Baja"@, 50_000u32)]),
        (seq!["Bueno"@, "Bajo"@], seq![("Normal"@, 500_000u32), ("Alta"@, 100_000u32), ("Baja"@, 400_000u32)]),
        (seq!["Degradado"@, "Normal"@], seq![("Normal"@, 200_000u32), ("Alta"@, 100_000u32), ("Baja"@, 700_000u32)]),
        (seq!["Degradado"@, "Bajo"@], seq![("Normal"@, 90_000u32), ("Alta"@, 10_000u32), ("Baja"@, 900_000u32)]),
        (seq!["Bueno"@, "Alto"@], seq![("Normal"@, 700_000u32), ("Alta"@, 250_000u32), ("Baja"@, 50_000u32)]),
        (seq!["Degradado"@, "Alto"@], seq![("Normal"@, 100_000u32), ("Alta"@, 200_000u32), ("Baja"@, 700_000u32)]),
    ]);
    Registration::categorical("ProduccionGasReal", parents, values, table)
}

/// The thermometer.
#[verifier::opaque]
pub open spec fn temperature_sensor_entry() -> RegistrationModel {
    entry(
        "T_sensor"@,
        seq!["TemperaturaReal"@],
        seq!["baja"@, "normal"@, "alta"@],
        seq![
            (seq!["Alta"@], seq![("alta"@, 920_000u32), ("normal"@, 70_000u32), ("baja"@, 10_000u32)]),
            (seq!["Normal"@], seq![("normal"@, 900_000u32), ("baja"@, 50_000u32), ("alta"@, 50_000u32)]),
            (seq!["Baja"@], seq![("baja"@, 950_000u32), ("normal"@, 40_000u32), ("alta"@, 10_000u32)]),
        ],
    )
}

fn temperature_sensor() -> (step: Registration)
    ensures
        step.deep_view() == temperature_sensor_entry(),
{
    reveal(temperature_sensor_entry);
    let parents: Vec<&str> = vec!["TemperaturaReal"];
    let values: Vec<&str> = vec!["baja", "normal", "alta"];
    let table: Vec<(Vec<&str>, Vec<(&str, u32)>)> = vec![
        (vec!["Alta"], vec![("alta", 920_000), ("normal", 70_000), ("baja", 10_000)]),
        (vec!["Normal"], vec![("normal", 900_000), ("baja", 50_000), ("alta", 50_000)]),
        (vec!["Baja"], vec![("baja", 950_000), ("normal", 40_000), ("alta", 10_000)]),
    ];
    assert(parents.deep_view() =~= seq!["TemperaturaReal"@]);
    assert(values.deep_view() =~= seq!["baja"@, "normal"@, "alta"@]);
    assert(table.deep_view() =~~= seq![
        (seq!["Alta"@], seq![("alta"@, 920_000u32), ("normal"@, 70_000u32), ("baja"@, 10_000u32)]),
        (seq!["Normal"@], seq![("normal"@, 900_000u32), ("baja"@, 50_000u32), ("alta"@, 50_000u32)]),
        (seq!["Baja"@], seq![("baja"@, 950_000u32), ("normal"@, 40_000u32), ("alta"@, 10_000u32)]),
    ]);
    Registration::categorical("T_sensor", parents, values, table)
}

/// The pH probe.
#[verifier::opaque]
pub open spec fn acidity_sensor_entry() -> RegistrationModel {
    entry(
        "pH_sensor"@,
        seq!["pHReal"@],
        seq!["acido"@, "neutro"@, "alcalino"@],
        seq![
            (seq!["Neutro"@], seq![("neutro"@, 900_000u32), ("acido"@, 50_000u32), ("alcalino"@, 50_000u32)]),
            (seq!["Acido"@], seq![("acido"@, 900_000u32), ("neutro"@, 50_000u32), ("alcalino"@, 50_000u32)]),
            (seq!["Alcalino"@], seq![("alcalino"@, 900_000u32), ("neutro"@, 50_000u32), ("acido"@, 50_000u32)]),
        ],
    )
}

fn acidity_sensor() -> (step: Registration)
    ensures
        step.deep_view() == acidity_sensor_entry(),
{
    reveal(acidity_sensor_entry);
    let parents: Vec<&str> = vec!["pHReal"];
    let values: Vec<&str> = vec!["acido", "neutro", "alcalino"];
    let table: Vec<(Vec<&str>, Vec<(&str, u32)>)> = vec![
        (vec!["Neutro"], vec![("neutro", 900_000), ("acido", 50_000), ("alcalino", 50_000)]),
        (vec!["Acido"], vec![("acido", 900_000), ("neutro", 50_000), ("alcalino", 50_000)]),
        (vec!["Alcalino"], vec![("alcalino", 900_000), ("neutro", 50_000), ("acido", 50_000)]),
    ];
    assert(parents.deep_view() =~= seq!["pHReal"@]);
    assert(values.deep_view() =~= seq!["acido"@, "neutro"@, "alcalino"@]);
    assert(table.deep_view() =~~= seq![
        (seq!["Neutro"@], seq![("neutro"@, 900_000u32), ("acido"@, 50_000u32), ("alcalino"@, 50_000u32)]),
        (seq!["Acido"@], seq![("acido"@, 900_000u32), ("neutro"@, 50_000u32), ("alcalino"@, 50_000u32)]),
        (seq!["Alcalino"@], seq![("alcalino"@, 900_000u32), ("neutro"@, 50_000u32), ("acido"@, 50_000u32)]),
    ]);
    Registration::categorical("pH_sensor", parents, values, table)
}

/// The flow meter.
#[verifier::opaque]
pub open spec fn flow_sensor_entry() -> RegistrationModel {
    entry(
        "Flow_sensor"@,
        seq!["CaudalReal"@],
        seq!["bajo"@, "normal"@, "alto"@],
        seq![
            (seq!["Bajo"@], seq![("bajo"@, 950_000u32), ("normal"@, 40_000u32), ("alto"@, 10_000u32)]),
            (seq!["Normal"@], seq![("normal"@, 900_000u32), ("bajo"@, 50_000u32), ("alto"@, 50_000u32)]),
            (seq!["Alto"@], seq![("alto"@, 920_000u32), ("normal"@, 60_000u32), ("bajo"@, 20_000u32)]),
        ],
    )
}

fn flow_sensor() -> (step: Registration)
    ensures
        step.deep_view() == flow_sensor_entry(),
{
    reveal(flow_sensor_entry);
    let parents: Vec<&str> = vec!["CaudalReal"];
    let values: Vec<&str> = vec!["bajo", "normal", "alto"];
    let table: Vec<(Vec<&str>, Vec<(&str, u32)>)> = vec![
        (vec!["Bajo"], vec![("bajo", 950_000), ("normal", 40_000), ("alto", 10_000)]),
        (vec!["Normal"], vec![("normal", 900_000), ("bajo", 50_000), ("alto", 50_000)]),
        (vec!["Alto"], vec![("alto", 920_000), ("normal", 60_000), ("bajo", 20_000)]),
    ];
    assert(parents.deep_view() =~= seq!["CaudalReal"@]);
    assert(values.deep_view() =~= seq!["bajo"@, "normal"@, "alto"@]);
    assert(table.deep_view() =~~= seq![
        (seq!["Bajo"@], seq![("bajo"@, 950_000u32), ("normal"@, 40_000u32), ("alto"@, 10_000u32)]),
        (seq!["Normal"@], seq![("normal"@, 900_000u32), ("bajo"@, 50_000u32), ("alto"@, 50_000u32)]),
        (seq!["Alto"@], seq![("alto"@, 920_000u32), ("normal"@, 60_000u32), ("bajo"@, 20_000u32)]),
    ]);
    Registration::categorical("Flow_sensor", parents, values, table)
}

/// The gas meter.
#[verifier::opaque]
pub open spec fn gas_sensor_entry() -> RegistrationModel {
    entry(
        "Gas_sensor"@,
        seq!["ProduccionGasReal"@],
        seq!["bajo"@, "normal"@, "alto"@],
        seq![
            (seq!["Baja"@], seq![("bajo"@, 950_000u32), ("normal"@, 40_000u32), ("alto"@, 10_000u32)]),
            (seq!["Normal"@], seq![("normal"@, 900_000u32), ("bajo"@, 50_000u32), ("alto"@, 50_000u32)]),
            (seq!["Alta"@], seq![("alto"@, 920_000u32), ("normal"@, 60_000u32), ("bajo"@, 20_000u32)]),
        ],
    )
}

fn gas_sensor() -> (step: Registration)
    ensures
        step.deep_view() == gas_sensor_entry(),
{
    reveal(gas_sensor_entry);
    let parents: Vec<&str> = vec!["ProduccionGasReal"];
    let values: Vec<&str> = vec!["bajo", "normal", "alto"];
    let table: Vec<(Vec<&str>, Vec<(&str, u32)>)> = vec![
        (vec!["Baja"], vec![("bajo", 950_000), ("normal", 40_000), ("alto", 10_000)]),
        (vec!["Normal"], vec![("normal", 900_000), ("bajo", 50_000), ("alto", 50_000)]),
        (vec!["Alta"], vec![("alto", 920_000), ("normal", 60_000), ("bajo", 20_000)]),
    ];
    assert(parents.deep_view() =~= seq!["ProduccionGasReal"@]);
    assert(values.deep_view() =~= seq!["bajo"@, "normal"@, "alto"@]);
    assert(table.deep_view() =~~= seq![
        (seq!["Baja"@], seq![("bajo"@, 950_000u32), ("normal"@, 40_000u32), ("alto"@, 10_000u32)]),
        (seq!["Normal"@], seq![("normal"@, 900_000u32), ("bajo"@, 50_000u32), ("alto"@, 50_000u32)]),
        (seq!["Alta"@], seq![("alto"@, 920_000u32), ("normal"@, 60_000u32), ("bajo"@, 20_000u32)]),
    ]);
    Registration::categorical("Gas_sensor", parents, values, table)
}

/// The manometer.
#[verifier::opaque]
pub open spec fn pressure_sensor_entry() -> RegistrationModel {
    entry(
        "Presion_sensor"@,
        seq!["PresionReal"@],
        seq!["baja"@, "normal"@, "alta"@],
        seq![
            (seq!["Alta"@], seq![("alta"@, 920_000u32), ("normal"@, 60_000u32), ("baja"@, 20_000u32)]),
            (seq!["Normal"@], seq![("normal"@, 900_000u32), ("baja"@, 50_000u32), ("alta"@, 50_000u32)]),
            (seq!["Baja"@], seq![("baja"@, 950_000u32), ("normal"@, 40_000u32), ("alta"@, 10_000u32)]),
        ],
    )
}

fn pressure_sensor() -> (step: Registration)
    ensures
        step.deep_view() == pressure_sensor_entry(),
{
    reveal(pressure_sensor_entry);
    let parents: Vec<&str> = vec!["PresionReal"];
    let values: Vec<&str> = vec!["baja", "normal", "alta"];
    let table: Vec<(Vec<&str>, Vec<(&str, u32)>)> = vec![
        (vec!["Alta"], vec![("alta", 920_000), ("normal", 60_000), ("baja", 20_000)]),
        (vec!["Normal"], vec![("normal", 900_000), ("baja", 50_000), ("alta", 50_000)]),
        (vec!["Baja"], vec![("baja", 950_000), ("normal", 40_000), ("alta", 10_000)]),
    ];
    assert(parents.deep_view() =~= seq!["PresionReal"@]);
    assert(values.deep_view() =~= seq!["baja"@, "normal"@, "alta"@]);
    assert(table.deep_view() =~~= seq![
        (seq!["Alta"@], seq![("alta"@, 920_000u32), ("normal"@, 60_000u32), ("baja"@, 20_000u32)]),
        (seq!["Normal"@], seq![("normal"@, 900_000u32), ("baja"@, 50_000u32), ("alta"@, 50_000u32)]),
        (seq!["Baja"@], seq![("baja"@, 950_000u32), ("normal"@, 40_000u32), ("alta"@, 10_000u32)]),
    ]);
    Registration::categorical("Presion_sensor", parents, values, table)
}

/// The registrations of the biodigester's network: causes first, then the
/// physical quantities, then the sensors.
pub open spec fn biodigester_run() -> Seq<RegistrationModel> {
    seq![
        microbial_state_entry(),
        operating_state_entry(),
        temperature_entry(),
        acidity_entry(),
        flow_entry(),
        pressure_entry(),
        gas_production_entry(),
        temperature_sensor_entry(),
        acidity_sensor_entry(),
        flow_sensor_entry(),
        gas_sensor_entry(),
        pressure_sensor_entry(),
    ]
}

/// The nodes of the biodigester's network, each with the ids of its parents.
pub open spec fn biodigester_nodes() -> Seq<NodeDefinitionModel> {
    seq![
        microbial_state_entry().placed(seq![]),
        operating_state_entry().placed(seq![]),
        temperature_entry().placed(seq![0usize]),
        acidity_entry().placed(seq![0usize]),
        flow_entry().placed(seq![1usize]),
        pressure_entry().placed(seq![1usize]),
        gas_production_entry().placed(seq![0usize, 4usize]),
        temperature_sensor_entry().placed(seq![2usize]),
        acidity_sensor_entry().placed(seq![3usize]),
        flow_sensor_entry().placed(seq![4usize]),
        gas_sensor_entry().placed(seq![6usize]),
        pressure_sensor_entry().placed(seq![5usize]),
    ]
}

/// Every registration of the biodigester's network is accepted after those
/// before it, and the run yields the nodes of [`biodigester_nodes`]: the
/// names are distinct, every parent is registered before its children, and
/// every table has, for each combination of states of the parents, one row
/// whose weights sum to one.
pub proof fn lemma_biodigester_is_accepted()
    ensures
        all_accepted(biodigester_run(), 12),
        registered(biodigester_run()) == biodigester_nodes(),
        valid(biodigester_nodes()),
{
    lemma_run_holds_12();
    assert(biodigester_run().take(12) =~= biodigester_run());
    assert(biodigester_nodes().take(12) =~= biodigester_nodes());
    lemma_accepted_run_is_valid(biodigester_run());
}

/// Makes the registrations of the biodigester's network.
pub fn registrations() -> (steps: Vec<Registration>)
    ensures
        steps.deep_view() == biodigester_run(),
{
    let steps = vec![
        microbial_state(),
        operating_state(),
        temperature(),
        acidity(),
        flow(),
        pressure(),
        gas_production(),
        temperature_sensor(),
        acidity_sensor(),
        flow_sensor(),
        gas_sensor(),
        pressure_sensor(),
    ];
    assert(steps.deep_view() =~= biodigester_run());
    steps
}

/// Builds the definition of the biodigester's network by making its
/// registrations in order. All of them are accepted: the definition holds
/// the twelve nodes of [`biodigester_nodes`].
pub fn build_network_internal() -> (result: Result<NetworkDefinition, (usize, ValidationError)>)
    ensures
        result.is_ok(),
        result.unwrap().nodes() == biodigester_nodes(),
{
    let steps = registrations();
    proof {
        lemma_biodigester_is_accepted();
    }
    NetworkDefinition::build(&steps)
}

} // verus!
