//! The proof that the tables of the biodigester's network are in order:
//! node by node, that the node may follow the nodes before it.

use crate::biodigester::{
    acidity_entry,
    acidity_sensor_entry,
    flow_entry,
    flow_sensor_entry,
    gas_production_entry,
    gas_sensor_entry,
    microbial_state_entry,
    operating_state_entry,
    pressure_entry,
    pressure_sensor_entry,
    temperature_entry,
    temperature_sensor_entry,
    biodigester_nodes, biodigester_run, node_names,
};
use crate::definition::{
    acceptable, covered, doubles, has_row_for, is_combination, malformed, name_taken, normalized,
    parent_domains, parents_precede, repeats, strays, total, NodeDefinitionModel,
};
use crate::registry::{
    all_accepted, is_position, lemma_run_goes_on, registered, RegistrationModel,
};
use crate::state::StateModel;
use vstd::prelude::*;

verus! {

/// Whether `before` holds exactly the first `count` nodes by name.
pub open spec fn named_so_far(before: Seq<NodeDefinitionModel>, count: int) -> bool {
    &&& before.len() == count
    &&& forall|i: int| 0 <= i < count ==> (#[trigger] before[i]).name == node_names()[i]
}

/// The name and the states of `EstadoMicrobiano`.
pub(crate) proof fn lemma_microbial_state_shape()
    ensures
        microbial_state_entry().name == "EstadoMicrobiano"@,
        microbial_state_entry().domain == seq![StateModel::Named("Bueno"@), StateModel::Named("Degradado"@)],
{
    reveal(microbial_state_entry);
    assert(microbial_state_entry().domain =~= seq![StateModel::Named("Bueno"@), StateModel::Named("Degradado"@)]);
}

/// `EstadoMicrobiano` may come first.
pub(crate) proof fn lemma_microbial_state_fits(before: Seq<NodeDefinitionModel>)
    requires
        named_so_far(before, 0),
    ensures
        acceptable(before, microbial_state_entry().placed(seq![])),
{
    reveal(microbial_state_entry);
    reveal_strlit("Bueno");
    reveal_strlit("Degradado");
    reveal_strlit("EstadoMicrobiano");
    let node = microbial_state_entry().placed(seq![]);
    let rows = node.rows;
    let domains = parent_domains(before, node.parents);
    assert(!name_taken(before, node.name));
    assert(parents_precede(before, node));
    assert(domains =~= seq![]);
    assert(node.domain =~= seq![StateModel::Named("Bueno"@), StateModel::Named("Degradado"@)]);
    assert(rows.len() == 1);
    assert("Bueno"@.len() != "Degradado"@.len());
    assert(rows[0].given =~= seq![]);
    assert(rows[0].weights =~= seq![(StateModel::Named("Bueno"@), 850_000u32), (StateModel::Named("Degradado"@), 150_000u32)]);
    assert(normalized(rows, 0)) by {
        reveal_with_fuel(total, 3);
        assert(rows[0].weights.drop_last() =~= seq![(StateModel::Named("Bueno"@), 850_000u32)]);
    }
    assert(!malformed(rows, domains, node.domain, 0)) by {
        assert(is_combination(domains, rows[0].given));
        assert(!strays(rows[0].weights, node.domain)) by {
            assert(node.domain[0] == rows[0].weights[0].0);
            assert(node.domain[1] == rows[0].weights[1].0);
        }
        assert(!doubles(rows[0].weights)) by {
            assert(rows[0].weights[0].0 != rows[0].weights[1].0);
        }
        assert(!repeats(rows, 0));
    }
    assert(covered(rows, domains)) by {
        assert forall|c: Seq<StateModel>| #[trigger] is_combination(domains, c) implies has_row_for(
            rows,
            c,
        ) by {
            assert(c =~= rows[0].given);
        }
    }
}

/// The name and the states of `EstadoOperativo`.
pub(crate) proof fn lemma_operating_state_shape()
    ensures
        operating_state_entry().name == "EstadoOperativo"@,
        operating_state_entry().domain == seq![StateModel::Named("Normal"@), StateModel::Named("FallaMecanica"@), StateModel::Named("Fuga"@)],
{
    reveal(operating_state_entry);
    assert(operating_state_entry().domain =~= seq![StateModel::Named("Normal"@), StateModel::Named("FallaMecanica"@), StateModel::Named("Fuga"@)]);
}

/// `EstadoOperativo` may follow the nodes before it.
pub(crate) proof fn lemma_operating_state_fits(before: Seq<NodeDefinitionModel>)
    requires
        named_so_far(before, 1),
    ensures
        acceptable(before, operating_state_entry().placed(seq![])),
{
    reveal(operating_state_entry);
    reveal_strlit("EstadoMicrobiano");
    reveal_strlit("EstadoOperativo");
    reveal_strlit("FallaMecanica");
    reveal_strlit("Fuga");
    reveal_strlit("Normal");
    let node = operating_state_entry().placed(seq![]);
    let rows = node.rows;
    let domains = parent_domains(before, node.parents);
    assert(!name_taken(before, node.name)) by {
        assert("EstadoMicrobiano"@.len() != "EstadoOperativo"@.len());
        assert(before[0].name == "EstadoMicrobiano"@);
    }
    assert(parents_precede(before, node));
    assert(domains =~= seq![]);
    assert(node.domain =~= seq![StateModel::Named("Normal"@), StateModel::Named("FallaMecanica"@), StateModel::Named("Fuga"@)]);
    assert(rows.len() == 1);
    assert("Normal"@.len() != "FallaMecanica"@.len());
    assert("Normal"@.len() != "Fuga"@.len());
    assert("FallaMecanica"@.len() != "Fuga"@.len());
    assert(rows[0].given =~= seq![]);
    assert(rows[0].weights =~= seq![(StateModel::Named("Normal"@), 950_000u32), (StateModel::Named("FallaMecanica"@), 30_000u32), (StateModel::Named("Fuga"@), 20_000u32)]);
    assert(normalized(rows, 0)) by {
        reveal_with_fuel(total, 4);
        assert(rows[0].weights.drop_last() =~= seq![(StateModel::Named("Normal"@), 950_000u32), (StateModel::Named("FallaMecanica"@), 30_000u32)]);
        assert(rows[0].weights.drop_last().drop_last() =~= seq![(StateModel::Named("Normal"@), 950_000u32)]);
    }
    assert(!malformed(rows, domains, node.domain, 0)) by {
        assert(is_combination(domains, rows[0].given));
        assert(!strays(rows[0].weights, node.domain)) by {
            assert(node.domain[0] == rows[0].weights[0].0);
            assert(node.domain[1] == rows[0].weights[1].0);
            assert(node.domain[2] == rows[0].weights[2].0);
        }
        assert(!doubles(rows[0].weights)) by {
            assert(rows[0].weights[0].0 != rows[0].weights[1].0);
            assert(rows[0].weights[0].0 != rows[0].weights[2].0);
            assert(rows[0].weights[1].0 != rows[0].weights[2].0);
        }
        assert(!repeats(rows, 0));
    }
    assert(covered(rows, domains)) by {
        assert forall|c: Seq<StateModel>| #[trigger] is_combination(domains, c) implies has_row_for(
            rows,
            c,
        ) by {
            assert(c =~= rows[0].given);
        }
    }
}

/// The name and the states of `TemperaturaReal`.
pub(crate) proof fn lemma_temperature_shape()
    ensures
        temperature_entry().name == "TemperaturaReal"@,
        temperature_entry().domain == seq![StateModel::Named("Baja"@), StateModel::Named("Normal"@), StateModel::Named("Alta"@)],
{
    reveal(temperature_entry);
    assert(temperature_entry().domain =~= seq![StateModel::Named("Baja"@), StateModel::Named("Normal"@), StateModel::Named("Alta"@)]);
}

/// `TemperaturaReal` may follow the nodes before it, with `EstadoMicrobiano` as its parent.
pub(crate) proof fn lemma_temperature_fits(before: Seq<NodeDefinitionModel>)
    requires
        named_so_far(before, 2),
        before[0].domain == microbial_state_entry().domain,
    ensures
        acceptable(before, temperature_entry().placed(seq![0usize])),
        is_position(before, temperature_entry().parent_names[0], 0),
{
    reveal(temperature_entry);
    reveal_strlit("Alta");
    reveal_strlit("Baja");
    reveal_strlit("Bueno");
    reveal_strlit("Degradado");
    reveal_strlit("EstadoMicrobiano");
    reveal_strlit("EstadoOperativo");
    reveal_strlit("Normal");
    reveal_strlit("TemperaturaReal");
    lemma_microbial_state_shape();
    let node = temperature_entry().placed(seq![0usize]);
    let rows = node.rows;
    let domains = parent_domains(before, node.parents);
    assert(!name_taken(before, node.name)) by {
        assert("EstadoMicrobiano"@.len() != "TemperaturaReal"@.len());
        assert(before[0].name == "EstadoMicrobiano"@);
        assert("EstadoOperativo"@[0] != "TemperaturaReal"@[0]);
        assert(before[1].name == "EstadoOperativo"@);
    }
    assert(is_position(before, node_names()[0], 0)) by {
        assert(before[0].name == "EstadoMicrobiano"@);
    }
    assert(temperature_entry().parent_names[0] == node_names()[0]);
    assert(parents_precede(before, node));
    assert(domains =~= seq![before[0].domain]);
    assert(node.domain =~= seq![StateModel::Named("Baja"@), StateModel::Named("Normal"@), StateModel::Named("Alta"@)]);
    assert(rows.len() == 2);
    assert("Baja"@.len() != "Normal"@.len());
    assert("Baja"@[0] != "Alta"@[0]);
    assert("Normal"@.len() != "Alta"@.len());
    assert("Bueno"@.len() != "Degradado"@.len());
    assert(rows[0].given =~= seq![StateModel::Named("Bueno"@)]);
    assert(rows[0].weights =~= seq![(StateModel::Named("Normal"@), 900_000u32), (StateModel::Named("Baja"@), 50_000u32), (StateModel::Named("Alta"@), 50_000u32)]);
    assert(rows[1].given =~= seq![StateModel::Named("Degradado"@)]);
    assert(rows[1].weights =~= seq![(StateModel::Named("Baja"@), 600_000u32), (StateModel::Named("Normal"@), 300_000u32), (StateModel::Named("Alta"@), 100_000u32)]);
    assert(normalized(rows, 0)) by {
        reveal_with_fuel(total, 4);
        assert(rows[0].weights.drop_last() =~= seq![(StateModel::Named("Normal"@), 900_000u32), (StateModel::Named("Baja"@), 50_000u32)]);
        assert(rows[0].weights.drop_last().drop_last() =~= seq![(StateModel::Named("Normal"@), 900_000u32)]);
    }
    assert(!malformed(rows, domains, node.domain, 0)) by {
        assert(is_combination(domains, rows[0].given)) by {
            assert(domains[0][0] == rows[0].given[0]);
        }
        assert(!strays(rows[0].weights, node.domain)) by {
            assert(node.domain[1] == rows[0].weights[0].0);
            assert(node.domain[0] == rows[0].weights[1].0);
            assert(node.domain[2] == rows[0].weights[2].0);
        }
        assert(!doubles(rows[0].weights)) by {
            assert(rows[0].weights[0].0 != rows[0].weights[1].0);
            assert(rows[0].weights[0].0 != rows[0].weights[2].0);
            assert(rows[0].weights[1].0 != rows[0].weights[2].0);
        }
        assert(!repeats(rows, 0));
    }
    assert(normalized(rows, 1)) by {
        reveal_with_fuel(total, 4);
        assert(rows[1].weights.drop_last() =~= seq![(StateModel::Named("Baja"@), 600_000u32), (StateModel::Named("Normal"@), 300_000u32)]);
        assert(rows[1].weights.drop_last().drop_last() =~= seq![(StateModel::Named("Baja"@), 600_000u32)]);
    }
    assert(!malformed(rows, domains, node.domain, 1)) by {
        assert(is_combination(domains, rows[1].given)) by {
            assert(domains[0][1] == rows[1].given[0]);
        }
        assert(!strays(rows[1].weights, node.domain)) by {
            assert(node.domain[0] == rows[1].weights[0].0);
            assert(node.domain[1] == rows[1].weights[1].0);
            assert(node.domain[2] == rows[1].weights[2].0);
        }
        assert(!doubles(rows[1].weights)) by {
            assert(rows[1].weights[0].0 != rows[1].weights[1].0);
            assert(rows[1].weights[0].0 != rows[1].weights[2].0);
            assert(rows[1].weights[1].0 != rows[1].weights[2].0);
        }
        assert(!repeats(rows, 1)) by {
            assert(rows[0].given[0] != rows[1].given[0]);
        }
    }
    assert(covered(rows, domains)) by {
        assert forall|c: Seq<StateModel>| #[trigger] is_combination(domains, c) implies has_row_for(
            rows,
            c,
        ) by {
            assert(domains[0].contains(c[0]));
            if c[0] == domains[0][0] {
                assert(c =~= rows[0].given);
            } else {
                assert(c[0] == domains[0][1]);
                assert(c =~= rows[1].given);
            }
        }
    }
}

/// The name and the states of `pHReal`.
pub(crate) proof fn lemma_acidity_shape()
    ensures
        acidity_entry().name == "pHReal"@,
        acidity_entry().domain == seq![StateModel::Named("Acido"@), StateModel::Named("Neutro"@), StateModel::Named("Alcalino"@)],
{
    reveal(acidity_entry);
    assert(acidity_entry().domain =~= seq![StateModel::Named("Acido"@), StateModel::Named("Neutro"@), StateModel::Named("Alcalino"@)]);
}

/// `pHReal` may follow the nodes before it, with `EstadoMicrobiano` as its parent.
pub(crate) proof fn lemma_acidity_fits(before: Seq<NodeDefinitionModel>)
    requires
        named_so_far(before, 3),
        before[0].domain == microbial_state_entry().domain,
    ensures
        acceptable(before, acidity_entry().placed(seq![0usize])),
        is_position(before, acidity_entry().parent_names[0], 0),
{
    reveal(acidity_entry);
    reveal_strlit("Acido");
    reveal_strlit("Alcalino");
    reveal_strlit("Bueno");
    reveal_strlit("Degradado");
    reveal_strlit("EstadoMicrobiano");
    reveal_strlit("EstadoOperativo");
    reveal_strlit("Neutro");
    reveal_strlit("TemperaturaReal");
    reveal_strlit("pHReal");
    lemma_microbial_state_shape();
    let node = acidity_entry().placed(seq![0usize]);
    let rows = node.rows;
    let domains = parent_domains(before, node.parents);
    assert(!name_taken(before, node.name)) by {
        assert("EstadoMicrobiano"@.len() != "pHReal"@.len());
        assert(before[0].name == "EstadoMicrobiano"@);
        assert("EstadoOperativo"@.len() != "pHReal"@.len());
        assert(before[1].name == "EstadoOperativo"@);
        assert("TemperaturaReal"@.len() != "pHReal"@.len());
        assert(before[2].name == "TemperaturaReal"@);
    }
    assert(is_position(before, node_names()[0], 0)) by {
        assert(before[0].name == "EstadoMicrobiano"@);
    }
    assert(acidity_entry().parent_names[0] == node_names()[0]);
    assert(parents_precede(before, node));
    assert(domains =~= seq![before[0].domain]);
    assert(node.domain =~= seq![StateModel::Named("Acido"@), StateModel::Named("Neutro"@), StateModel::Named("Alcalino"@)]);
    assert(rows.len() == 2);
    assert("Acido"@.len() != "Neutro"@.len());
    assert("Acido"@.len() != "Alcalino"@.len());
    assert("Neutro"@.len() != "Alcalino"@.len());
    assert("Bueno"@.len() != "Degradado"@.len());
    assert(rows[0].given =~= seq![StateModel::Named("Bueno"@)]);
    assert(rows[0].weights =~= seq![(StateModel::Named("Neutro"@), 850_000u32), (StateModel::Named("Acido"@), 100_000u32), (StateModel::Named("Alcalino"@), 50_000u32)]);
    assert(rows[1].given =~= seq![StateModel::Named("Degradado"@)]);
    assert(rows[1].weights =~= seq![(StateModel::Named("Acido"@), 600_000u32), (StateModel::Named("Neutro"@), 300_000u32), (StateModel::Named("Alcalino"@), 100_000u32)]);
    assert(normalized(rows, 0)) by {
        reveal_with_fuel(total, 4);
        assert(rows[0].weights.drop_last() =~= seq![(StateModel::Named("Neutro"@), 850_000u32), (StateModel::Named("Acido"@), 100_000u32)]);
        assert(rows[0].weights.drop_last().drop_last() =~= seq![(StateModel::Named("Neutro"@), 850_000u32)]);
    }
    assert(!malformed(rows, domains, node.domain, 0)) by {
        assert(is_combination(domains, rows[0].given)) by {
            assert(domains[0][0] == rows[0].given[0]);
        }
        assert(!strays(rows[0].weights, node.domain)) by {
            assert(node.domain[1] == rows[0].weights[0].0);
            assert(node.domain[0] == rows[0].weights[1].0);
            assert(node.domain[2] == rows[0].weights[2].0);
        }
        assert(!doubles(rows[0].weights)) by {
            assert(rows[0].weights[0].0 != rows[0].weights[1].0);
            assert(rows[0].weights[0].0 != rows[0].weights[2].0);
            assert(rows[0].weights[1].0 != rows[0].weights[2].0);
        }
        assert(!repeats(rows, 0));
    }
    assert(normalized(rows, 1)) by {
        reveal_with_fuel(total, 4);
        assert(rows[1].weights.drop_last() =~= seq![(StateModel::Named("Acido"@), 600_000u32), (StateModel::Named("Neutro"@), 300_000u32)]);
        assert(rows[1].weights.drop_last().drop_last() =~= seq![(StateModel::Named("Acido"@), 600_000u32)]);
    }
    assert(!malformed(rows, domains, node.domain, 1)) by {
        assert(is_combination(domains, rows[1].given)) by {
            assert(domains[0][1] == rows[1].given[0]);
        }
        assert(!strays(rows[1].weights, node.domain)) by {
            assert(node.domain[0] == rows[1].weights[0].0);
            assert(node.domain[1] == rows[1].weights[1].0);
            assert(node.domain[2] == rows[1].weights[2].0);
        }
        assert(!doubles(rows[1].weights)) by {
            assert(rows[1].weights[0].0 != rows[1].weights[1].0);
            assert(rows[1].weights[0].0 != rows[1].weights[2].0);
            assert(rows[1].weights[1].0 != rows[1].weights[2].0);
        }
        assert(!repeats(rows, 1)) by {
            assert(rows[0].given[0] != rows[1].given[0]);
        }
    }
    assert(covered(rows, domains)) by {
        assert forall|c: Seq<StateModel>| #[trigger] is_combination(domains, c) implies has_row_for(
            rows,
            c,
        ) by {
            assert(domains[0].contains(c[0]));
            if c[0] == domains[0][0] {
                assert(c =~= rows[0].given);
            } else {
                assert(c[0] == domains[0][1]);
                assert(c =~= rows[1].given);
            }
        }
    }
}

/// The name and the states of `CaudalReal`.
pub(crate) proof fn lemma_flow_shape()
    ensures
        flow_entry().name == "CaudalReal"@,
        flow_entry().domain == seq![StateModel::Named("Bajo"@), StateModel::Named("Normal"@), StateModel::Named("Alto"@)],
{
    reveal(flow_entry);
    assert(flow_entry().domain =~= seq![StateModel::Named("Bajo"@), StateModel::Named("Normal"@), StateModel::Named("Alto"@)]);
}

/// `CaudalReal` may follow the nodes before it, with `EstadoOperativo` as its parent.
pub(crate) proof fn lemma_flow_fits(before: Seq<NodeDefinitionModel>)
    requires
        named_so_far(before, 4),
        before[1].domain == operating_state_entry().domain,
    ensures
        acceptable(before, flow_entry().placed(seq![1usize])),
        is_position(before, flow_entry().parent_names[0], 1),
{
    reveal(flow_entry);
    reveal_strlit("Alto");
    reveal_strlit("Bajo");
    reveal_strlit("CaudalReal");
    reveal_strlit("EstadoMicrobiano");
    reveal_strlit("EstadoOperativo");
    reveal_strlit("FallaMecanica");
    reveal_strlit("Fuga");
    reveal_strlit("Normal");
    reveal_strlit("TemperaturaReal");
    reveal_strlit("pHReal");
    lemma_operating_state_shape();
    let node = flow_entry().placed(seq![1usize]);
    let rows = node.rows;
    let domains = parent_domains(before, node.parents);
    assert(!name_taken(before, node.name)) by {
        assert("EstadoMicrobiano"@.len() != "CaudalReal"@.len());
        assert(before[0].name == "EstadoMicrobiano"@);
        assert("EstadoOperativo"@.len() != "CaudalReal"@.len());
        assert(before[1].name == "EstadoOperativo"@);
        assert("TemperaturaReal"@.len() != "CaudalReal"@.len());
        assert(before[2].name == "TemperaturaReal"@);
        assert("pHReal"@.len() != "CaudalReal"@.len());
        assert(before[3].name == "pHReal"@);
    }
    assert(is_position(before, node_names()[1], 1)) by {
        assert("EstadoMicrobiano"@.len() != "EstadoOperativo"@.len());
        assert(before[0].name == "EstadoMicrobiano"@);
        assert(before[1].name == "EstadoOperativo"@);
    }
    assert(flow_entry().parent_names[0] == node_names()[1]);
    assert(parents_precede(before, node));
    assert(domains =~= seq![before[1].domain]);
    assert(node.domain =~= seq![StateModel::Named("Bajo"@), StateModel::Named("Normal"@), StateModel::Named("Alto"@)]);
    assert(rows.len() == 3);
    assert("Bajo"@.len() != "Normal"@.len());
    assert("Bajo"@[0] != "Alto"@[0]);
    assert("Normal"@.len() != "Alto"@.len());
    assert("Normal"@.len() != "FallaMecanica"@.len());
    assert("Normal"@.len() != "Fuga"@.len());
    assert("FallaMecanica"@.len() != "Fuga"@.len());
    assert(rows[0].given =~= seq![StateModel::Named("Normal"@)]);
    assert(rows[0].weights =~= seq![(StateModel::Named("Normal"@), 900_000u32), (StateModel::Named("Bajo"@), 50_000u32), (StateModel::Named("Alto"@), 50_000u32)]);
    assert(rows[1].given =~= seq![StateModel::Named("Fuga"@)]);
    assert(rows[1].weights =~= seq![(StateModel::Named("Alto"@), 700_000u32), (StateModel::Named("Normal"@), 200_000u32), (StateModel::Named("Bajo"@), 100_000u32)]);
    assert(rows[2].given =~= seq![StateModel::Named("FallaMecanica"@)]);
    assert(rows[2].weights =~= seq![(StateModel::Named("Bajo"@), 800_000u32), (StateModel::Named("Normal"@), 150_000u32), (StateModel::Named("Alto"@), 50_000u32)]);
    assert(normalized(rows, 0)) by {
        reveal_with_fuel(total, 4);
        assert(rows[0].weights.drop_last() =~= seq![(StateModel::Named("Normal"@), 900_000u32), (StateModel::Named("Bajo"@), 50_000u32)]);
        assert(rows[0].weights.drop_last().drop_last() =~= seq![(StateModel::Named("Normal"@), 900_000u32)]);
    }
    assert(!malformed(rows, domains, node.domain, 0)) by {
        assert(is_combination(domains, rows[0].given)) by {
            assert(domains[0][0] == rows[0].given[0]);
        }
        assert(!strays(rows[0].weights, node.domain)) by {
            assert(node.domain[1] == rows[0].weights[0].0);
            assert(node.domain[0] == rows[0].weights[1].0);
            assert(node.domain[2] == rows[0].weights[2].0);
        }
        assert(!doubles(rows[0].weights)) by {
            assert(rows[0].weights[0].0 != rows[0].weights[1].0);
            assert(rows[0].weights[0].0 != rows[0].weights[2].0);
            assert(rows[0].weights[1].0 != rows[0].weights[2].0);
        }
        assert(!repeats(rows, 0));
    }
    assert(normalized(rows, 1)) by {
        reveal_with_fuel(total, 4);
        assert(rows[1].weights.drop_last() =~= seq![(StateModel::Named("Alto"@), 700_000u32), (StateModel::Named("Normal"@), 200_000u32)]);
        assert(rows[1].weights.drop_last().drop_last() =~= seq![(StateModel::Named("Alto"@), 700_000u32)]);
    }
    assert(!malformed(rows, domains, node.domain, 1)) by {
        assert(is_combination(domains, rows[1].given)) by {
            assert(domains[0][2] == rows[1].given[0]);
        }
        assert(!strays(rows[1].weights, node.domain)) by {
            assert(node.domain[2] == rows[1].weights[0].0);
            assert(node.domain[1] == rows[1].weights[1].0);
            assert(node.domain[0] == rows[1].weights[2].0);
        }
        assert(!doubles(rows[1].weights)) by {
            assert(rows[1].weights[0].0 != rows[1].weights[1].0);
            assert(rows[1].weights[0].0 != rows[1].weights[2].0);
            assert(rows[1].weights[1].0 != rows[1].weights[2].0);
        }
        assert(!repeats(rows, 1)) by {
            assert(rows[0].given[0] != rows[1].given[0]);
        }
    }
    assert(normalized(rows, 2)) by {
        reveal_with_fuel(total, 4);
        assert(rows[2].weights.drop_last() =~= seq![(StateModel::Named("Bajo"@), 800_000u32), (StateModel::Named("Normal"@), 150_000u32)]);
        assert(rows[2].weights.drop_last().drop_last() =~= seq![(StateModel::Named("Bajo"@), 800_000u32)]);
    }
    assert(!malformed(rows, domains, node.domain, 2)) by {
        assert(is_combination(domains, rows[2].given)) by {
            assert(domains[0][1] == rows[2].given[0]);
        }
        assert(!strays(rows[2].weights, node.domain)) by {
            assert(node.domain[0] == rows[2].weights[0].0);
            assert(node.domain[1] == rows[2].weights[1].0);
            assert(node.domain[2] == rows[2].weights[2].0);
        }
        assert(!doubles(rows[2].weights)) by {
            assert(rows[2].weights[0].0 != rows[2].weights[1].0);
            assert(rows[2].weights[0].0 != rows[2].weights[2].0);
            assert(rows[2].weights[1].0 != rows[2].weights[2].0);
        }
        assert(!repeats(rows, 2)) by {
            assert(rows[0].given[0] != rows[2].given[0]);
            assert(rows[1].given[0] != rows[2].given[0]);
        }
    }
    assert(covered(rows, domains)) by {
        assert forall|c: Seq<StateModel>| #[trigger] is_combination(domains, c) implies has_row_for(
            rows,
            c,
        ) by {
            assert(domains[0].contains(c[0]));
            if c[0] == domains[0][0] {
                assert(c =~= rows[0].given);
            } else if c[0] == domains[0][1] {
                assert(c =~= rows[2].given);
            } else {
                assert(c[0] == domains[0][2]);
                assert(c =~= rows[1].given);
            }
        }
    }
}

/// The name and the states of `PresionReal`.
pub(crate) proof fn lemma_pressure_shape()
    ensures
        pressure_entry().name == "PresionReal"@,
        pressure_entry().domain == seq![StateModel::Named("Baja"@), StateModel::Named("Normal"@), StateModel::Named("Alta"@)],
{
    reveal(pressure_entry);
    assert(pressure_entry().domain =~= seq![StateModel::Named("Baja"@), StateModel::Named("Normal"@), StateModel::Named("Alta"@)]);
}

/// `PresionReal` may follow the nodes before it, with `EstadoOperativo` as its parent.
pub(crate) proof fn lemma_pressure_fits(before: Seq<NodeDefinitionModel>)
    requires
        named_so_far(before, 5),
        before[1].domain == operating_state_entry().domain,
    ensures
        acceptable(before, pressure_entry().placed(seq![1usize])),
        is_position(before, pressure_entry().parent_names[0], 1),
{
    reveal(pressure_entry);
    reveal_strlit("Alta");
    reveal_strlit("Baja");
    reveal_strlit("CaudalReal");
    reveal_strlit("EstadoMicrobiano");
    reveal_strlit("EstadoOperativo");
    reveal_strlit("FallaMecanica");
    reveal_strlit("Fuga");
    reveal_strlit("Normal");
    reveal_strlit("PresionReal");
    reveal_strlit("TemperaturaReal");
    reveal_strlit("pHReal");
    lemma_operating_state_shape();
    let node = pressure_entry().placed(seq![1usize]);
    let rows = node.rows;
    let domains = parent_domains(before, node.parents);
    assert(!name_taken(before, node.name)) by {
        assert("EstadoMicrobiano"@.len() != "PresionReal"@.len());
        assert(before[0].name == "EstadoMicrobiano"@);
        assert("EstadoOperativo"@.len() != "PresionReal"@.len());
        assert(before[1].name == "EstadoOperativo"@);
        assert("TemperaturaReal"@.len() != "PresionReal"@.len());
        assert(before[2].name == "TemperaturaReal"@);
        assert("pHReal"@.len() != "PresionReal"@.len());
        assert(before[3].name == "pHReal"@);
        assert("CaudalReal"@.len() != "PresionReal"@.len());
        assert(before[4].name == "CaudalReal"@);
    }
    assert(is_position(before, node_names()[1], 1)) by {
        assert("EstadoMicrobiano"@.len() != "EstadoOperativo"@.len());
        assert(before[0].name == "EstadoMicrobiano"@);
        assert(before[1].name == "EstadoOperativo"@);
    }
    assert(pressure_entry().parent_names[0] == node_names()[1]);
    assert(parents_precede(before, node));
    assert(domains =~= seq![before[1].domain]);
    assert(node.domain =~= seq![StateModel::Named("Baja"@), StateModel::Named("Normal"@), StateModel::Named("Alta"@)]);
    assert(rows.len() == 3);
    assert("Baja"@.len() != "Normal"@.len());
    assert("Baja"@[0] != "Alta"@[0]);
    assert("Normal"@.len() != "Alta"@.len());
    assert("Normal"@.len() != "FallaMecanica"@.len());
    assert("Normal"@.len() != "Fuga"@.len());
    assert("FallaMecanica"@.len() != "Fuga"@.len());
    assert(rows[0].given =~= seq![StateModel::Named("Normal"@)]);
    assert(rows[0].weights =~= seq![(StateModel::Named("Normal"@), 900_000u32), (StateModel::Named("Baja"@), 50_000u32), (StateModel::Named("Alta"@), 50_000u32)]);
    assert(rows[1].given =~= seq![StateModel::Named("Fuga"@)]);
    assert(rows[1].weights =~= seq![(StateModel::Named("Baja"@), 600_000u32), (StateModel::Named("Normal"@), 300_000u32), (StateModel::Named("Alta"@), 100_000u32)]);
    assert(rows[2].given =~= seq![StateModel::Named("FallaMecanica"@)]);
    assert(rows[2].weights =~= seq![(StateModel::Named("Alta"@), 700_000u32), (StateModel::Named("Normal"@), 200_000u32), (StateModel::Named("Baja"@), 100_000u32)]);
    assert(normalized(rows, 0)) by {
        reveal_with_fuel(total, 4);
        assert(rows[0].weights.drop_last() =~= seq![(StateModel::Named("Normal"@), 900_000u32), (StateModel::Named("Baja"@), 50_000u32)]);
        assert(rows[0].weights.drop_last().drop_last() =~= seq![(StateModel::Named("Normal"@), 900_000u32)]);
    }
    assert(!malformed(rows, domains, node.domain, 0)) by {
        assert(is_combination(domains, rows[0].given)) by {
            assert(domains[0][0] == rows[0].given[0]);
        }
        assert(!strays(rows[0].weights, node.domain)) by {
            assert(node.domain[1] == rows[0].weights[0].0);
            assert(node.domain[0] == rows[0].weights[1].0);
            assert(node.domain[2] == rows[0].weights[2].0);
        }
        assert(!doubles(rows[0].weights)) by {
            assert(rows[0].weights[0].0 != rows[0].weights[1].0);
            assert(rows[0].weights[0].0 != rows[0].weights[2].0);
            assert(rows[0].weights[1].0 != rows[0].weights[2].0);
        }
        assert(!repeats(rows, 0));
    }
    assert(normalized(rows, 1)) by {
        reveal_with_fuel(total, 4);
        assert(rows[1].weights.drop_last() =~= seq![(StateModel::Named("Baja"@), 600_000u32), (StateModel::Named("Normal"@), 300_000u32)]);
        assert(rows[1].weights.drop_last().drop_last() =~= seq![(StateModel::Named("Baja"@), 600_000u32)]);
    }
    assert(!malformed(rows, domains, node.domain, 1)) by {
        assert(is_combination(domains, rows[1].given)) by {
            assert(domains[0][2] == rows[1].given[0]);
        }
        assert(!strays(rows[1].weights, node.domain)) by {
            assert(node.domain[0] == rows[1].weights[0].0);
            assert(node.domain[1] == rows[1].weights[1].0);
            assert(node.domain[2] == rows[1].weights[2].0);
        }
        assert(!doubles(rows[1].weights)) by {
            assert(rows[1].weights[0].0 != rows[1].weights[1].0);
            assert(rows[1].weights[0].0 != rows[1].weights[2].0);
            assert(rows[1].weights[1].0 != rows[1].weights[2].0);
        }
        assert(!repeats(rows, 1)) by {
            assert(rows[0].given[0] != rows[1].given[0]);
        }
    }
    assert(normalized(rows, 2)) by {
        reveal_with_fuel(total, 4);
        assert(rows[2].weights.drop_last() =~= seq![(StateModel::Named("Alta"@), 700_000u32), (StateModel::Named("Normal"@), 200_000u32)]);
        assert(rows[2].weights.drop_last().drop_last() =~= seq![(StateModel::Named("Alta"@), 700_000u32)]);
    }
    assert(!malformed(rows, domains, node.domain, 2)) by {
        assert(is_combination(domains, rows[2].given)) by {
            assert(domains[0][1] == rows[2].given[0]);
        }
        assert(!strays(rows[2].weights, node.domain)) by {
            assert(node.domain[2] == rows[2].weights[0].0);
            assert(node.domain[1] == rows[2].weights[1].0);
            assert(node.domain[0] == rows[2].weights[2].0);
        }
        assert(!doubles(rows[2].weights)) by {
            assert(rows[2].weights[0].0 != rows[2].weights[1].0);
            assert(rows[2].weights[0].0 != rows[2].weights[2].0);
            assert(rows[2].weights[1].0 != rows[2].weights[2].0);
        }
        assert(!repeats(rows, 2)) by {
            assert(rows[0].given[0] != rows[2].given[0]);
            assert(rows[1].given[0] != rows[2].given[0]);
        }
    }
    assert(covered(rows, domains)) by {
        assert forall|c: Seq<StateModel>| #[trigger] is_combination(domains, c) implies has_row_for(
            rows,
            c,
        ) by {
            assert(domains[0].contains(c[0]));
            if c[0] == domains[0][0] {
                assert(c =~= rows[0].given);
            } else if c[0] == domains[0][1] {
                assert(c =~= rows[2].given);
            } else {
                assert(c[0] == domains[0][2]);
                assert(c =~= rows[1].given);
            }
        }
    }
}

/// The name and the states of `ProduccionGasReal`.
pub(crate) proof fn lemma_gas_production_shape()
    ensures
        gas_production_entry().name == "ProduccionGasReal"@,
        gas_production_entry().domain == seq![StateModel::Named("Baja"@), StateModel::Named("Normal"@), StateModel::Named("Alta"@)],
{
    reveal(gas_production_entry);
    assert(gas_production_entry().domain =~= seq![StateModel::Named("Baja"@), StateModel::Named("Normal"@), StateModel::Named("Alta"@)]);
}

/// `ProduccionGasReal` may follow the nodes before it, with `EstadoMicrobiano` and `CaudalReal` as its parents.
pub(crate) proof fn lemma_gas_production_fits(before: Seq<NodeDefinitionModel>)
    requires
        named_so_far(before, 6),
        before[0].domain == microbial_state_entry().domain,
        before[4].domain == flow_entry().domain,
    ensures
        acceptable(before, gas_production_entry().placed(seq![0usize, 4usize])),
        is_position(before, gas_production_entry().parent_names[0], 0),
        is_position(before, gas_production_entry().parent_names[1], 4),
{
    reveal(gas_production_entry);
    reveal_strlit("Alta");
    reveal_strlit("Alto");
    reveal_strlit("Baja");
    reveal_strlit("Bajo");
    reveal_strlit("Bueno");
    reveal_strlit("CaudalReal");
    reveal_strlit("Degradado");
    reveal_strlit("EstadoMicrobiano");
    reveal_strlit("EstadoOperativo");
    reveal_strlit("Normal");
    reveal_strlit("PresionReal");
    reveal_strlit("ProduccionGasReal");
    reveal_strlit("TemperaturaReal");
    reveal_strlit("pHReal");
    lemma_microbial_state_shape();
    lemma_flow_shape();
    let node = gas_production_entry().placed(seq![0usize, 4usize]);
    let rows = node.rows;
    let domains = parent_domains(before, node.parents);
    assert(!name_taken(before, node.name)) by {
        assert("EstadoMicrobiano"@.len() != "ProduccionGasReal"@.len());
        assert(before[0].name == "EstadoMicrobiano"@);
        assert("EstadoOperativo"@.len() != "ProduccionGasReal"@.len());
        assert(before[1].name == "EstadoOperativo"@);
        assert("TemperaturaReal"@.len() != "ProduccionGasReal"@.len());
        assert(before[2].name == "TemperaturaReal"@);
        assert("pHReal"@.len() != "ProduccionGasReal"@.len());
        assert(before[3].name == "pHReal"@);
        assert("CaudalReal"@.len() != "ProduccionGasReal"@.len());
        assert(before[4].name == "CaudalReal"@);
        assert("PresionReal"@.len() != "ProduccionGasReal"@.len());
        assert(before[5].name == "PresionReal"@);
    }
    assert(is_position(before, node_names()[0], 0)) by {
        assert(before[0].name == "EstadoMicrobiano"@);
    }
    assert(gas_production_entry().parent_names[0] == node_names()[0]);
    assert(is_position(before, node_names()[4], 4)) by {
        assert("EstadoMicrobiano"@.len() != "CaudalReal"@.len());
        assert(before[0].name == "EstadoMicrobiano"@);
        assert("EstadoOperativo"@.len() != "CaudalReal"@.len());
        assert(before[1].name == "EstadoOperativo"@);
        assert("TemperaturaReal"@.len() != "CaudalReal"@.len());
        assert(before[2].name == "TemperaturaReal"@);
        assert("pHReal"@.len() != "CaudalReal"@.len());
        assert(before[3].name == "pHReal"@);
        assert(before[4].name == "CaudalReal"@);
    }
    assert(gas_production_entry().parent_names[1] == node_names()[4]);
    assert(parents_precede(before, node));
    assert(domains =~= seq![before[0].domain, before[4].domain]);
    assert(node.domain =~= seq![StateModel::Named("Baja"@), StateModel::Named("Normal"@), StateModel::Named("Alta"@)]);
    assert(rows.len() == 6);
    assert("Baja"@.len() != "Normal"@.len());
    assert("Baja"@[0] != "Alta"@[0]);
    assert("Normal"@.len() != "Alta"@.len());
    assert("Bueno"@.len() != "Degradado"@.len());
    assert("Bajo"@.len() != "Normal"@.len());
    assert("Bajo"@[0] != "Alto"@[0]);
    assert("Normal"@.len() != "Alto"@.len());
    assert(rows[0].given =~= seq![StateModel::Named("Bueno"@), StateModel::Named("Normal"@)]);
    assert(rows[0].weights =~= seq![(StateModel::Named("Normal"@), 850_000u32), (StateModel::Named("Alta"@), 100_000u32), (StateModel::Named("Baja"@), 50_000u32)]);
    assert(rows[1].given =~= seq![StateModel::Named("Bueno"@), StateModel::Named("Bajo"@)]);
    assert(rows[1].weights =~= seq![(StateModel::Named("Normal"@), 500_000u32), (StateModel::Named("Alta"@), 100_000u32), (StateModel::Named("Baja"@), 400_000u32)]);
    assert(rows[2].given =~= seq![StateModel::Named("Degradado"@), StateModel::Named("Normal"@)]);
    assert(rows[2].weights =~= seq![(StateModel::Named("Normal"@), 200_000u32), (StateModel::Named("Alta"@), 100_000u32), (StateModel::Named("Baja"@), 700_000u32)]);
    assert(rows[3].given =~= seq![StateModel::Named("Degradado"@), StateModel::Named("Bajo"@)]);
    assert(rows[3].weights =~= seq![(StateModel::Named("Normal"@), 90_000u32), (StateModel::Named("Alta"@), 10_000u32), (StateModel::Named("Baja"@), 900_000u32)]);
    assert(rows[4].given =~= seq![StateModel::Named("Bueno"@), StateModel::Named("Alto"@)]);
    assert(rows[4].weights =~= seq![(StateModel::Named("Normal"@), 700_000u32), (StateModel::Named("Alta"@), 250_000u32), (StateModel::Named("Baja"@), 50_000u32)]);
    assert(rows[5].given =~= seq![StateModel::Named("Degradado"@), StateModel::Named("Alto"@)]);
    assert(rows[5].weights =~= seq![(StateModel::Named("Normal"@), 100_000u32), (StateModel::Named("Alta"@), 200_000u32), (StateModel::Named("Baja"@), 700_000u32)]);
    assert(normalized(rows, 0)) by {
        reveal_with_fuel(total, 4);
        assert(rows[0].weights.drop_last() =~= seq![(StateModel::Named("Normal"@), 850_000u32), (StateModel::Named("Alta"@), 100_000u32)]);
        assert(rows[0].weights.drop_last().drop_last() =~= seq![(StateModel::Named("Normal"@), 850_000u32)]);
    }
    assert(!malformed(rows, domains, node.domain, 0)) by {
        assert(is_combination(domains, rows[0].given)) by {
            assert(domains[0][0] == rows[0].given[0]);
            assert(domains[1][1] == rows[0].given[1]);
        }
        assert(!strays(rows[0].weights, node.domain)) by {
            assert(node.domain[1] == rows[0].weights[0].0);
            assert(node.domain[2] == rows[0].weights[1].0);
            assert(node.domain[0] == rows[0].weights[2].0);
        }
        assert(!doubles(rows[0].weights)) by {
            assert(rows[0].weights[0].0 != rows[0].weights[1].0);
            assert(rows[0].weights[0].0 != rows[0].weights[2].0);
            assert(rows[0].weights[1].0 != rows[0].weights[2].0);
        }
        assert(!repeats(rows, 0));
    }
    assert(normalized(rows, 1)) by {
        reveal_with_fuel(total, 4);
        assert(rows[1].weights.drop_last() =~= seq![(StateModel::Named("Normal"@), 500_000u32), (StateModel::Named("Alta"@), 100_000u32)]);
        assert(rows[1].weights.drop_last().drop_last() =~= seq![(StateModel::Named("Normal"@), 500_000u32)]);
    }
    assert(!malformed(rows, domains, node.domain, 1)) by {
        assert(is_combination(domains, rows[1].given)) by {
            assert(domains[0][0] == rows[1].given[0]);
            assert(domains[1][0] == rows[1].given[1]);
        }
        assert(!strays(rows[1].weights, node.domain)) by {
            assert(node.domain[1] == rows[1].weights[0].0);
            assert(node.domain[2] == rows[1].weights[1].0);
            assert(node.domain[0] == rows[1].weights[2].0);
        }
        assert(!doubles(rows[1].weights)) by {
            assert(rows[1].weights[0].0 != rows[1].weights[1].0);
            assert(rows[1].weights[0].0 != rows[1].weights[2].0);
            assert(rows[1].weights[1].0 != rows[1].weights[2].0);
        }
        assert(!repeats(rows, 1)) by {
            assert(rows[0].given[1] != rows[1].given[1]);
        }
    }
    assert(normalized(rows, 2)) by {
        reveal_with_fuel(total, 4);
        assert(rows[2].weights.drop_last() =~= seq![(StateModel::Named("Normal"@), 200_000u32), (StateModel::Named("Alta"@), 100_000u32)]);
        assert(rows[2].weights.drop_last().drop_last() =~= seq![(StateModel::Named("Normal"@), 200_000u32)]);
    }
    assert(!malformed(rows, domains, node.domain, 2)) by {
        assert(is_combination(domains, rows[2].given)) by {
            assert(domains[0][1] == rows[2].given[0]);
            assert(domains[1][1] == rows[2].given[1]);
        }
        assert(!strays(rows[2].weights, node.domain)) by {
            assert(node.domain[1] == rows[2].weights[0].0);
            assert(node.domain[2] == rows[2].weights[1].0);
            assert(node.domain[0] == rows[2].weights[2].0);
        }
        assert(!doubles(rows[2].weights)) by {
            assert(rows[2].weights[0].0 != rows[2].weights[1].0);
            assert(rows[2].weights[0].0 != rows[2].weights[2].0);
            assert(rows[2].weights[1].0 != rows[2].weights[2].0);
        }
        assert(!repeats(rows, 2)) by {
            assert(rows[0].given[0] != rows[2].given[0]);
            assert(rows[1].given[0] != rows[2].given[0]);
        }
    }
    assert(normalized(rows, 3)) by {
        reveal_with_fuel(total, 4);
        assert(rows[3].weights.drop_last() =~= seq![(StateModel::Named("Normal"@), 90_000u32), (StateModel::Named("Alta"@), 10_000u32)]);
        assert(rows[3].weights.drop_last().drop_last() =~= seq![(StateModel::Named("Normal"@), 90_000u32)]);
    }
    assert(!malformed(rows, domains, node.domain, 3)) by {
        assert(is_combination(domains, rows[3].given)) by {
            assert(domains[0][1] == rows[3].given[0]);
            assert(domains[1][0] == rows[3].given[1]);
        }
        assert(!strays(rows[3].weights, node.domain)) by {
            assert(node.domain[1] == rows[3].weights[0].0);
            assert(node.domain[2] == rows[3].weights[1].0);
            assert(node.domain[0] == rows[3].weights[2].0);
        }
        assert(!doubles(rows[3].weights)) by {
            assert(rows[3].weights[0].0 != rows[3].weights[1].0);
            assert(rows[3].weights[0].0 != rows[3].weights[2].0);
            assert(rows[3].weights[1].0 != rows[3].weights[2].0);
        }
        assert(!repeats(rows, 3)) by {
            assert(rows[0].given[0] != rows[3].given[0]);
            assert(rows[1].given[0] != rows[3].given[0]);
            assert(rows[2].given[1] != rows[3].given[1]);
        }
    }
    assert(normalized(rows, 4)) by {
        reveal_with_fuel(total, 4);
        assert(rows[4].weights.drop_last() =~= seq![(StateModel::Named("Normal"@), 700_000u32), (StateModel::Named("Alta"@), 250_000u32)]);
        assert(rows[4].weights.drop_last().drop_last() =~= seq![(StateModel::Named("Normal"@), 700_000u32)]);
    }
    assert(!malformed(rows, domains, node.domain, 4)) by {
        assert(is_combination(domains, rows[4].given)) by {
            assert(domains[0][0] == rows[4].given[0]);
            assert(domains[1][2] == rows[4].given[1]);
        }
        assert(!strays(rows[4].weights, node.domain)) by {
            assert(node.domain[1] == rows[4].weights[0].0);
            assert(node.domain[2] == rows[4].weights[1].0);
            assert(node.domain[0] == rows[4].weights[2].0);
        }
        assert(!doubles(rows[4].weights)) by {
            assert(rows[4].weights[0].0 != rows[4].weights[1].0);
            assert(rows[4].weights[0].0 != rows[4].weights[2].0);
            assert(rows[4].weights[1].0 != rows[4].weights[2].0);
        }
        assert(!repeats(rows, 4)) by {
            assert(rows[0].given[1] != rows[4].given[1]);
            assert(rows[1].given[1] != rows[4].given[1]);
            assert(rows[2].given[0] != rows[4].given[0]);
            assert(rows[3].given[0] != rows[4].given[0]);
        }
    }
    assert(normalized(rows, 5)) by {
        reveal_with_fuel(total, 4);
        assert(rows[5].weights.drop_last() =~= seq![(StateModel::Named("Normal"@), 100_000u32), (StateModel::Named("Alta"@), 200_000u32)]);
        assert(rows[5].weights.drop_last().drop_last() =~= seq![(StateModel::Named("Normal"@), 100_000u32)]);
    }
    assert(!malformed(rows, domains, node.domain, 5)) by {
        assert(is_combination(domains, rows[5].given)) by {
            assert(domains[0][1] == rows[5].given[0]);
            assert(domains[1][2] == rows[5].given[1]);
        }
        assert(!strays(rows[5].weights, node.domain)) by {
            assert(node.domain[1] == rows[5].weights[0].0);
            assert(node.domain[2] == rows[5].weights[1].0);
            assert(node.domain[0] == rows[5].weights[2].0);
        }
        assert(!doubles(rows[5].weights)) by {
            assert(rows[5].weights[0].0 != rows[5].weights[1].0);
            assert(rows[5].weights[0].0 != rows[5].weights[2].0);
            assert(rows[5].weights[1].0 != rows[5].weights[2].0);
        }
        assert(!repeats(rows, 5)) by {
            assert(rows[0].given[0] != rows[5].given[0]);
            assert(rows[1].given[0] != rows[5].given[0]);
            assert(rows[2].given[1] != rows[5].given[1]);
            assert(rows[3].given[1] != rows[5].given[1]);
            assert(rows[4].given[0] != rows[5].given[0]);
        }
    }
    assert(covered(rows, domains)) by {
        assert forall|c: Seq<StateModel>| #[trigger] is_combination(domains, c) implies has_row_for(
            rows,
            c,
        ) by {
            assert(domains[0].contains(c[0]));
            assert(domains[1].contains(c[1]));
            if c[0] == domains[0][0] {
                if c[1] == domains[1][0] {
                    assert(c =~= rows[1].given);
                } else if c[1] == domains[1][1] {
                    assert(c =~= rows[0].given);
                } else {
                    assert(c[1] == domains[1][2]);
                    assert(c =~= rows[4].given);
                }
            } else {
                assert(c[0] == domains[0][1]);
                if c[1] == domains[1][0] {
                    assert(c =~= rows[3].given);
                } else if c[1] == domains[1][1] {
                    assert(c =~= rows[2].given);
                } else {
                    assert(c[1] == domains[1][2]);
                    assert(c =~= rows[5].given);
                }
            }
        }
    }
}

/// The name and the states of `T_sensor`.
pub(crate) proof fn lemma_temperature_sensor_shape()
    ensures
        temperature_sensor_entry().name == "T_sensor"@,
        temperature_sensor_entry().domain == seq![StateModel::Named("baja"@), StateModel::Named("normal"@), StateModel::Named("alta"@)],
{
    reveal(temperature_sensor_entry);
    assert(temperature_sensor_entry().domain =~= seq![StateModel::Named("baja"@), StateModel::Named("normal"@), StateModel::Named("alta"@)]);
}

/// `T_sensor` may follow the nodes before it, with `TemperaturaReal` as its parent.
pub(crate) proof fn lemma_temperature_sensor_fits(before: Seq<NodeDefinitionModel>)
    requires
        named_so_far(before, 7),
        before[2].domain == temperature_entry().domain,
    ensures
        acceptable(before, temperature_sensor_entry().placed(seq![2usize])),
        is_position(before, temperature_sensor_entry().parent_names[0], 2),
{
    reveal(temperature_sensor_entry);
    reveal_strlit("Alta");
    reveal_strlit("Baja");
    reveal_strlit("CaudalReal");
    reveal_strlit("EstadoMicrobiano");
    reveal_strlit("EstadoOperativo");
    reveal_strlit("Normal");
    reveal_strlit("PresionReal");
    reveal_strlit("ProduccionGasReal");
    reveal_strlit("T_sensor");
    reveal_strlit("TemperaturaReal");
    reveal_strlit("alta");
    reveal_strlit("baja");
    reveal_strlit("normal");
    reveal_strlit("pHReal");
    lemma_temperature_shape();
    let node = temperature_sensor_entry().placed(seq![2usize]);
    let rows = node.rows;
    let domains = parent_domains(before, node.parents);
    assert(!name_taken(before, node.name)) by {
        assert("EstadoMicrobiano"@.len() != "T_sensor"@.len());
        assert(before[0].name == "EstadoMicrobiano"@);
        assert("EstadoOperativo"@.len() != "T_sensor"@.len());
        assert(before[1].name == "EstadoOperativo"@);
        assert("TemperaturaReal"@.len() != "T_sensor"@.len());
        assert(before[2].name == "TemperaturaReal"@);
        assert("pHReal"@.len() != "T_sensor"@.len());
        assert(before[3].name == "pHReal"@);
        assert("CaudalReal"@.len() != "T_sensor"@.len());
        assert(before[4].name == "CaudalReal"@);
        assert("PresionReal"@.len() != "T_sensor"@.len());
        assert(before[5].name == "PresionReal"@);
        assert("ProduccionGasReal"@.len() != "T_sensor"@.len());
        assert(before[6].name == "ProduccionGasReal"@);
    }
    assert(is_position(before, node_names()[2], 2)) by {
        assert("EstadoMicrobiano"@.len() != "TemperaturaReal"@.len());
        assert(before[0].name == "EstadoMicrobiano"@);
        assert("EstadoOperativo"@[0] != "TemperaturaReal"@[0]);
        assert(before[1].name == "EstadoOperativo"@);
        assert(before[2].name == "TemperaturaReal"@);
    }
    assert(temperature_sensor_entry().parent_names[0] == node_names()[2]);
    assert(parents_precede(before, node));
    assert(domains =~= seq![before[2].domain]);
    assert(node.domain =~= seq![StateModel::Named("baja"@), StateModel::Named("normal"@), StateModel::Named("alta"@)]);
    assert(rows.len() == 3);
    assert("baja"@.len() != "normal"@.len());
    assert("baja"@[0] != "alta"@[0]);
    assert("normal"@.len() != "alta"@.len());
    assert("Baja"@.len() != "Normal"@.len());
    assert("Baja"@[0] != "Alta"@[0]);
    assert("Normal"@.len() != "Alta"@.len());
    assert(rows[0].given =~= seq![StateModel::Named("Alta"@)]);
    assert(rows[0].weights =~= seq![(StateModel::Named("alta"@), 920_000u32), (StateModel::Named("normal"@), 70_000u32), (StateModel::Named("baja"@), 10_000u32)]);
    assert(rows[1].given =~= seq![StateModel::Named("Normal"@)]);
    assert(rows[1].weights =~= seq![(StateModel::Named("normal"@), 900_000u32), (StateModel::Named("baja"@), 50_000u32), (StateModel::Named("alta"@), 50_000u32)]);
    assert(rows[2].given =~= seq![StateModel::Named("Baja"@)]);
    assert(rows[2].weights =~= seq![(StateModel::Named("baja"@), 950_000u32), (StateModel::Named("normal"@), 40_000u32), (StateModel::Named("alta"@), 10_000u32)]);
    assert(normalized(rows, 0)) by {
        reveal_with_fuel(total, 4);
        assert(rows[0].weights.drop_last() =~= seq![(StateModel::Named("alta"@), 920_000u32), (StateModel::Named("normal"@), 70_000u32)]);
        assert(rows[0].weights.drop_last().drop_last() =~= seq![(StateModel::Named("alta"@), 920_000u32)]);
    }
    assert(!malformed(rows, domains, node.domain, 0)) by {
        assert(is_combination(domains, rows[0].given)) by {
            assert(domains[0][2] == rows[0].given[0]);
        }
        assert(!strays(rows[0].weights, node.domain)) by {
            assert(node.domain[2] == rows[0].weights[0].0);
            assert(node.domain[1] == rows[0].weights[1].0);
            assert(node.domain[0] == rows[0].weights[2].0);
        }
        assert(!doubles(rows[0].weights)) by {
            assert(rows[0].weights[0].0 != rows[0].weights[1].0);
            assert(rows[0].weights[0].0 != rows[0].weights[2].0);
            assert(rows[0].weights[1].0 != rows[0].weights[2].0);
        }
        assert(!repeats(rows, 0));
    }
    assert(normalized(rows, 1)) by {
        reveal_with_fuel(total, 4);
        assert(rows[1].weights.drop_last() =~= seq![(StateModel::Named("normal"@), 900_000u32), (StateModel::Named("baja"@), 50_000u32)]);
        assert(rows[1].weights.drop_last().drop_last() =~= seq![(StateModel::Named("normal"@), 900_000u32)]);
    }
    assert(!malformed(rows, domains, node.domain, 1)) by {
        assert(is_combination(domains, rows[1].given)) by {
            assert(domains[0][1] == rows[1].given[0]);
        }
        assert(!strays(rows[1].weights, node.domain)) by {
            assert(node.domain[1] == rows[1].weights[0].0);
            assert(node.domain[0] == rows[1].weights[1].0);
            assert(node.domain[2] == rows[1].weights[2].0);
        }
        assert(!doubles(rows[1].weights)) by {
            assert(rows[1].weights[0].0 != rows[1].weights[1].0);
            assert(rows[1].weights[0].0 != rows[1].weights[2].0);
            assert(rows[1].weights[1].0 != rows[1].weights[2].0);
        }
        assert(!repeats(rows, 1)) by {
            assert(rows[0].given[0] != rows[1].given[0]);
        }
    }
    assert(normalized(rows, 2)) by {
        reveal_with_fuel(total, 4);
        assert(rows[2].weights.drop_last() =~= seq![(StateModel::Named("baja"@), 950_000u32), (StateModel::Named("normal"@), 40_000u32)]);
        assert(rows[2].weights.drop_last().drop_last() =~= seq![(StateModel::Named("baja"@), 950_000u32)]);
    }
    assert(!malformed(rows, domains, node.domain, 2)) by {
        assert(is_combination(domains, rows[2].given)) by {
            assert(domains[0][0] == rows[2].given[0]);
        }
        assert(!strays(rows[2].weights, node.domain)) by {
            assert(node.domain[0] == rows[2].weights[0].0);
            assert(node.domain[1] == rows[2].weights[1].0);
            assert(node.domain[2] == rows[2].weights[2].0);
        }
        assert(!doubles(rows[2].weights)) by {
            assert(rows[2].weights[0].0 != rows[2].weights[1].0);
            assert(rows[2].weights[0].0 != rows[2].weights[2].0);
            assert(rows[2].weights[1].0 != rows[2].weights[2].0);
        }
        assert(!repeats(rows, 2)) by {
            assert(rows[0].given[0] != rows[2].given[0]);
            assert(rows[1].given[0] != rows[2].given[0]);
        }
    }
    assert(covered(rows, domains)) by {
        assert forall|c: Seq<StateModel>| #[trigger] is_combination(domains, c) implies has_row_for(
            rows,
            c,
        ) by {
            assert(domains[0].contains(c[0]));
            if c[0] == domains[0][0] {
                assert(c =~= rows[2].given);
            } else if c[0] == domains[0][1] {
                assert(c =~= rows[1].given);
            } else {
                assert(c[0] == domains[0][2]);
                assert(c =~= rows[0].given);
            }
        }
    }
}

/// The name and the states of `pH_sensor`.
pub(crate) proof fn lemma_acidity_sensor_shape()
    ensures
        acidity_sensor_entry().name == "pH_sensor"@,
        acidity_sensor_entry().domain == seq![StateModel::Named("acido"@), StateModel::Named("neutro"@), StateModel::Named("alcalino"@)],
{
    reveal(acidity_sensor_entry);
    assert(acidity_sensor_entry().domain =~= seq![StateModel::Named("acido"@), StateModel::Named("neutro"@), StateModel::Named("alcalino"@)]);
}

/// `pH_sensor` may follow the nodes before it, with `pHReal` as its parent.
pub(crate) proof fn lemma_acidity_sensor_fits(before: Seq<NodeDefinitionModel>)
    requires
        named_so_far(before, 8),
        before[3].domain == acidity_entry().domain,
    ensures
        acceptable(before, acidity_sensor_entry().placed(seq![3usize])),
        is_position(before, acidity_sensor_entry().parent_names[0], 3),
{
    reveal(acidity_sensor_entry);
    reveal_strlit("Acido");
    reveal_strlit("Alcalino");
    reveal_strlit("CaudalReal");
    reveal_strlit("EstadoMicrobiano");
    reveal_strlit("EstadoOperativo");
    reveal_strlit("Neutro");
    reveal_strlit("PresionReal");
    reveal_strlit("ProduccionGasReal");
    reveal_strlit("T_sensor");
    reveal_strlit("TemperaturaReal");
    reveal_strlit("acido");
    reveal_strlit("alcalino");
    reveal_strlit("neutro");
    reveal_strlit("pHReal");
    reveal_strlit("pH_sensor");
    lemma_acidity_shape();
    let node = acidity_sensor_entry().placed(seq![3usize]);
    let rows = node.rows;
    let domains = parent_domains(before, node.parents);
    assert(!name_taken(before, node.name)) by {
        assert("EstadoMicrobiano"@.len() != "pH_sensor"@.len());
        assert(before[0].name == "EstadoMicrobiano"@);
        assert("EstadoOperativo"@.len() != "pH_sensor"@.len());
        assert(before[1].name == "EstadoOperativo"@);
        assert("TemperaturaReal"@.len() != "pH_sensor"@.len());
        assert(before[2].name == "TemperaturaReal"@);
        assert("pHReal"@.len() != "pH_sensor"@.len());
        assert(before[3].name == "pHReal"@);
        assert("CaudalReal"@.len() != "pH_sensor"@.len());
        assert(before[4].name == "CaudalReal"@);
        assert("PresionReal"@.len() != "pH_sensor"@.len());
        assert(before[5].name == "PresionReal"@);
        assert("ProduccionGasReal"@.len() != "pH_sensor"@.len());
        assert(before[6].name == "ProduccionGasReal"@);
        assert("T_sensor"@.len() != "pH_sensor"@.len());
        assert(before[7].name == "T_sensor"@);
    }
    assert(is_position(before, node_names()[3], 3)) by {
        assert("EstadoMicrobiano"@.len() != "pHReal"@.len());
        assert(before[0].name == "EstadoMicrobiano"@);
        assert("EstadoOperativo"@.len() != "pHReal"@.len());
        assert(before[1].name == "EstadoOperativo"@);
        assert("TemperaturaReal"@.len() != "pHReal"@.len());
        assert(before[2].name == "TemperaturaReal"@);
        assert(before[3].name == "pHReal"@);
    }
    assert(acidity_sensor_entry().parent_names[0] == node_names()[3]);
    assert(parents_precede(before, node));
    assert(domains =~= seq![before[3].domain]);
    assert(node.domain =~= seq![StateModel::Named("acido"@), StateModel::Named("neutro"@), StateModel::Named("alcalino"@)]);
    assert(rows.len() == 3);
    assert("acido"@.len() != "neutro"@.len());
    assert("acido"@.len() != "alcalino"@.len());
    assert("neutro"@.len() != "alcalino"@.len());
    assert("Acido"@.len() != "Neutro"@.len());
    assert("Acido"@.len() != "Alcalino"@.len());
    assert("Neutro"@.len() != "Alcalino"@.len());
    assert(rows[0].given =~= seq![StateModel::Named("Neutro"@)]);
    assert(rows[0].weights =~= seq![(StateModel::Named("neutro"@), 900_000u32), (StateModel::Named("acido"@), 50_000u32), (StateModel::Named("alcalino"@), 50_000u32)]);
    assert(rows[1].given =~= seq![StateModel::Named("Acido"@)]);
    assert(rows[1].weights =~= seq![(StateModel::Named("acido"@), 900_000u32), (StateModel::Named("neutro"@), 50_000u32), (StateModel::Named("alcalino"@), 50_000u32)]);
    assert(rows[2].given =~= seq![StateModel::Named("Alcalino"@)]);
    assert(rows[2].weights =~= seq![(StateModel::Named("alcalino"@), 900_000u32), (StateModel::Named("neutro"@), 50_000u32), (StateModel::Named("acido"@), 50_000u32)]);
    assert(normalized(rows, 0)) by {
        reveal_with_fuel(total, 4);
        assert(rows[0].weights.drop_last() =~= seq![(StateModel::Named("neutro"@), 900_000u32), (StateModel::Named("acido"@), 50_000u32)]);
        assert(rows[0].weights.drop_last().drop_last() =~= seq![(StateModel::Named("neutro"@), 900_000u32)]);
    }
    assert(!malformed(rows, domains, node.domain, 0)) by {
        assert(is_combination(domains, rows[0].given)) by {
            assert(domains[0][1] == rows[0].given[0]);
        }
        assert(!strays(rows[0].weights, node.domain)) by {
            assert(node.domain[1] == rows[0].weights[0].0);
            assert(node.domain[0] == rows[0].weights[1].0);
            assert(node.domain[2] == rows[0].weights[2].0);
        }
        assert(!doubles(rows[0].weights)) by {
            assert(rows[0].weights[0].0 != rows[0].weights[1].0);
            assert(rows[0].weights[0].0 != rows[0].weights[2].0);
            assert(rows[0].weights[1].0 != rows[0].weights[2].0);
        }
        assert(!repeats(rows, 0));
    }
    assert(normalized(rows, 1)) by {
        reveal_with_fuel(total, 4);
        assert(rows[1].weights.drop_last() =~= seq![(StateModel::Named("acido"@), 900_000u32), (StateModel::Named("neutro"@), 50_000u32)]);
        assert(rows[1].weights.drop_last().drop_last() =~= seq![(StateModel::Named("acido"@), 900_000u32)]);
    }
    assert(!malformed(rows, domains, node.domain, 1)) by {
        assert(is_combination(domains, rows[1].given)) by {
            assert(domains[0][0] == rows[1].given[0]);
        }
        assert(!strays(rows[1].weights, node.domain)) by {
            assert(node.domain[0] == rows[1].weights[0].0);
            assert(node.domain[1] == rows[1].weights[1].0);
            assert(node.domain[2] == rows[1].weights[2].0);
        }
        assert(!doubles(rows[1].weights)) by {
            assert(rows[1].weights[0].0 != rows[1].weights[1].0);
            assert(rows[1].weights[0].0 != rows[1].weights[2].0);
            assert(rows[1].weights[1].0 != rows[1].weights[2].0);
        }
        assert(!repeats(rows, 1)) by {
            assert(rows[0].given[0] != rows[1].given[0]);
        }
    }
    assert(normalized(rows, 2)) by {
        reveal_with_fuel(total, 4);
        assert(rows[2].weights.drop_last() =~= seq![(StateModel::Named("alcalino"@), 900_000u32), (StateModel::Named("neutro"@), 50_000u32)]);
        assert(rows[2].weights.drop_last().drop_last() =~= seq![(StateModel::Named("alcalino"@), 900_000u32)]);
    }
    assert(!malformed(rows, domains, node.domain, 2)) by {
        assert(is_combination(domains, rows[2].given)) by {
            assert(domains[0][2] == rows[2].given[0]);
        }
        assert(!strays(rows[2].weights, node.domain)) by {
            assert(node.domain[2] == rows[2].weights[0].0);
            assert(node.domain[1] == rows[2].weights[1].0);
            assert(node.domain[0] == rows[2].weights[2].0);
        }
        assert(!doubles(rows[2].weights)) by {
            assert(rows[2].weights[0].0 != rows[2].weights[1].0);
            assert(rows[2].weights[0].0 != rows[2].weights[2].0);
            assert(rows[2].weights[1].0 != rows[2].weights[2].0);
        }
        assert(!repeats(rows, 2)) by {
            assert(rows[0].given[0] != rows[2].given[0]);
            assert(rows[1].given[0] != rows[2].given[0]);
        }
    }
    assert(covered(rows, domains)) by {
        assert forall|c: Seq<StateModel>| #[trigger] is_combination(domains, c) implies has_row_for(
            rows,
            c,
        ) by {
            assert(domains[0].contains(c[0]));
            if c[0] == domains[0][0] {
                assert(c =~= rows[1].given);
            } else if c[0] == domains[0][1] {
                assert(c =~= rows[0].given);
            } else {
                assert(c[0] == domains[0][2]);
                assert(c =~= rows[2].given);
            }
        }
    }
}

/// The name and the states of `Flow_sensor`.
pub(crate) proof fn lemma_flow_sensor_shape()
    ensures
        flow_sensor_entry().name == "Flow_sensor"@,
        flow_sensor_entry().domain == seq![StateModel::Named("bajo"@), StateModel::Named("normal"@), StateModel::Named("alto"@)],
{
    reveal(flow_sensor_entry);
    assert(flow_sensor_entry().domain =~= seq![StateModel::Named("bajo"@), StateModel::Named("normal"@), StateModel::Named("alto"@)]);
}

/// `Flow_sensor` may follow the nodes before it, with `CaudalReal` as its parent.
pub(crate) proof fn lemma_flow_sensor_fits(before: Seq<NodeDefinitionModel>)
    requires
        named_so_far(before, 9),
        before[4].domain == flow_entry().domain,
    ensures
        acceptable(before, flow_sensor_entry().placed(seq![4usize])),
        is_position(before, flow_sensor_entry().parent_names[0], 4),
{
    reveal(flow_sensor_entry);
    reveal_strlit("Alto");
    reveal_strlit("Bajo");
    reveal_strlit("CaudalReal");
    reveal_strlit("EstadoMicrobiano");
    reveal_strlit("EstadoOperativo");
    reveal_strlit("Flow_sensor");
    reveal_strlit("Normal");
    reveal_strlit("PresionReal");
    reveal_strlit("ProduccionGasReal");
    reveal_strlit("T_sensor");
    reveal_strlit("TemperaturaReal");
    reveal_strlit("alto");
    reveal_strlit("bajo");
    reveal_strlit("normal");
    reveal_strlit("pHReal");
    reveal_strlit("pH_sensor");
    lemma_flow_shape();
    let node = flow_sensor_entry().placed(seq![4usize]);
    let rows = node.rows;
    let domains = parent_domains(before, node.parents);
    assert(!name_taken(before, node.name)) by {
        assert("EstadoMicrobiano"@.len() != "Flow_sensor"@.len());
        assert(before[0].name == "EstadoMicrobiano"@);
        assert("EstadoOperativo"@.len() != "Flow_sensor"@.len());
        assert(before[1].name == "EstadoOperativo"@);
        assert("TemperaturaReal"@.len() != "Flow_sensor"@.len());
        assert(before[2].name == "TemperaturaReal"@);
        assert("pHReal"@.len() != "Flow_sensor"@.len());
        assert(before[3].name == "pHReal"@);
        assert("CaudalReal"@.len() != "Flow_sensor"@.len());
        assert(before[4].name == "CaudalReal"@);
        assert("PresionReal"@[0] != "Flow_sensor"@[0]);
        assert(before[5].name == "PresionReal"@);
        assert("ProduccionGasReal"@.len() != "Flow_sensor"@.len());
        assert(before[6].name == "ProduccionGasReal"@);
        assert("T_sensor"@.len() != "Flow_sensor"@.len());
        assert(before[7].name == "T_sensor"@);
        assert("pH_sensor"@.len() != "Flow_sensor"@.len());
        assert(before[8].name == "pH_sensor"@);
    }
    assert(is_position(before, node_names()[4], 4)) by {
        assert("EstadoMicrobiano"@.len() != "CaudalReal"@.len());
        assert(before[0].name == "EstadoMicrobiano"@);
        assert("EstadoOperativo"@.len() != "CaudalReal"@.len());
        assert(before[1].name == "EstadoOperativo"@);
        assert("TemperaturaReal"@.len() != "CaudalReal"@.len());
        assert(before[2].name == "TemperaturaReal"@);
        assert("pHReal"@.len() != "CaudalReal"@.len());
        assert(before[3].name == "pHReal"@);
        assert(before[4].name == "CaudalReal"@);
    }
    assert(flow_sensor_entry().parent_names[0] == node_names()[4]);
    assert(parents_precede(before, node));
    assert(domains =~= seq![before[4].domain]);
    assert(node.domain =~= seq![StateModel::Named("bajo"@), StateModel::Named("normal"@), StateModel::Named("alto"@)]);
    assert(rows.len() == 3);
    assert("bajo"@.len() != "normal"@.len());
    assert("bajo"@[0] != "alto"@[0]);
    assert("normal"@.len() != "alto"@.len());
    assert("Bajo"@.len() != "Normal"@.len());
    assert("Bajo"@[0] != "Alto"@[0]);
    assert("Normal"@.len() != "Alto"@.len());
    assert(rows[0].given =~= seq![StateModel::Named("Bajo"@)]);
    assert(rows[0].weights =~= seq![(StateModel::Named("bajo"@), 950_000u32), (StateModel::Named("normal"@), 40_000u32), (StateModel::Named("alto"@), 10_000u32)]);
    assert(rows[1].given =~= seq![StateModel::Named("Normal"@)]);
    assert(rows[1].weights =~= seq![(StateModel::Named("normal"@), 900_000u32), (StateModel::Named("bajo"@), 50_000u32), (StateModel::Named("alto"@), 50_000u32)]);
    assert(rows[2].given =~= seq![StateModel::Named("Alto"@)]);
    assert(rows[2].weights =~= seq![(StateModel::Named("alto"@), 920_000u32), (StateModel::Named("normal"@), 60_000u32), (StateModel::Named("bajo"@), 20_000u32)]);
    assert(normalized(rows, 0)) by {
        reveal_with_fuel(total, 4);
        assert(rows[0].weights.drop_last() =~= seq![(StateModel::Named("bajo"@), 950_000u32), (StateModel::Named("normal"@), 40_000u32)]);
        assert(rows[0].weights.drop_last().drop_last() =~= seq![(StateModel::Named("bajo"@), 950_000u32)]);
    }
    assert(!malformed(rows, domains, node.domain, 0)) by {
        assert(is_combination(domains, rows[0].given)) by {
            assert(domains[0][0] == rows[0].given[0]);
        }
        assert(!strays(rows[0].weights, node.domain)) by {
            assert(node.domain[0] == rows[0].weights[0].0);
            assert(node.domain[1] == rows[0].weights[1].0);
            assert(node.domain[2] == rows[0].weights[2].0);
        }
        assert(!doubles(rows[0].weights)) by {
            assert(rows[0].weights[0].0 != rows[0].weights[1].0);
            assert(rows[0].weights[0].0 != rows[0].weights[2].0);
            assert(rows[0].weights[1].0 != rows[0].weights[2].0);
        }
        assert(!repeats(rows, 0));
    }
    assert(normalized(rows, 1)) by {
        reveal_with_fuel(total, 4);
        assert(rows[1].weights.drop_last() =~= seq![(StateModel::Named("normal"@), 900_000u32), (StateModel::Named("bajo"@), 50_000u32)]);
        assert(rows[1].weights.drop_last().drop_last() =~= seq![(StateModel::Named("normal"@), 900_000u32)]);
    }
    assert(!malformed(rows, domains, node.domain, 1)) by {
        assert(is_combination(domains, rows[1].given)) by {
            assert(domains[0][1] == rows[1].given[0]);
        }
        assert(!strays(rows[1].weights, node.domain)) by {
            assert(node.domain[1] == rows[1].weights[0].0);
            assert(node.domain[0] == rows[1].weights[1].0);
            assert(node.domain[2] == rows[1].weights[2].0);
        }
        assert(!doubles(rows[1].weights)) by {
            assert(rows[1].weights[0].0 != rows[1].weights[1].0);
            assert(rows[1].weights[0].0 != rows[1].weights[2].0);
            assert(rows[1].weights[1].0 != rows[1].weights[2].0);
        }
        assert(!repeats(rows, 1)) by {
            assert(rows[0].given[0] != rows[1].given[0]);
        }
    }
    assert(normalized(rows, 2)) by {
        reveal_with_fuel(total, 4);
        assert(rows[2].weights.drop_last() =~= seq![(StateModel::Named("alto"@), 920_000u32), (StateModel::Named("normal"@), 60_000u32)]);
        assert(rows[2].weights.drop_last().drop_last() =~= seq![(StateModel::Named("alto"@), 920_000u32)]);
    }
    assert(!malformed(rows, domains, node.domain, 2)) by {
        assert(is_combination(domains, rows[2].given)) by {
            assert(domains[0][2] == rows[2].given[0]);
        }
        assert(!strays(rows[2].weights, node.domain)) by {
            assert(node.domain[2] == rows[2].weights[0].0);
            assert(node.domain[1] == rows[2].weights[1].0);
            assert(node.domain[0] == rows[2].weights[2].0);
        }
        assert(!doubles(rows[2].weights)) by {
            assert(rows[2].weights[0].0 != rows[2].weights[1].0);
            assert(rows[2].weights[0].0 != rows[2].weights[2].0);
            assert(rows[2].weights[1].0 != rows[2].weights[2].0);
        }
        assert(!repeats(rows, 2)) by {
            assert(rows[0].given[0] != rows[2].given[0]);
            assert(rows[1].given[0] != rows[2].given[0]);
        }
    }
    assert(covered(rows, domains)) by {
        assert forall|c: Seq<StateModel>| #[trigger] is_combination(domains, c) implies has_row_for(
            rows,
            c,
        ) by {
            assert(domains[0].contains(c[0]));
            if c[0] == domains[0][0] {
                assert(c =~= rows[0].given);
            } else if c[0] == domains[0][1] {
                assert(c =~= rows[1].given);
            } else {
                assert(c[0] == domains[0][2]);
                assert(c =~= rows[2].given);
            }
        }
    }
}

/// The name and the states of `Gas_sensor`.
pub(crate) proof fn lemma_gas_sensor_shape()
    ensures
        gas_sensor_entry().name == "Gas_sensor"@,
        gas_sensor_entry().domain == seq![StateModel::Named("bajo"@), StateModel::Named("normal"@), StateModel::Named("alto"@)],
{
    reveal(gas_sensor_entry);
    assert(gas_sensor_entry().domain =~= seq![StateModel::Named("bajo"@), StateModel::Named("normal"@), StateModel::Named("alto"@)]);
}

/// `Gas_sensor` may follow the nodes before it, with `ProduccionGasReal` as its parent.
pub(crate) proof fn lemma_gas_sensor_fits(before: Seq<NodeDefinitionModel>)
    requires
        named_so_far(before, 10),
        before[6].domain == gas_production_entry().domain,
    ensures
        acceptable(before, gas_sensor_entry().placed(seq![6usize])),
        is_position(before, gas_sensor_entry().parent_names[0], 6),
{
    reveal(gas_sensor_entry);
    reveal_strlit("Alta");
    reveal_strlit("Baja");
    reveal_strlit("CaudalReal");
    reveal_strlit("EstadoMicrobiano");
    reveal_strlit("EstadoOperativo");
    reveal_strlit("Flow_sensor");
    reveal_strlit("Gas_sensor");
    reveal_strlit("Normal");
    reveal_strlit("PresionReal");
    reveal_strlit("ProduccionGasReal");
    reveal_strlit("T_sensor");
    reveal_strlit("TemperaturaReal");
    reveal_strlit("alto");
    reveal_strlit("bajo");
    reveal_strlit("normal");
    reveal_strlit("pHReal");
    reveal_strlit("pH_sensor");
    lemma_gas_production_shape();
    let node = gas_sensor_entry().placed(seq![6usize]);
    let rows = node.rows;
    let domains = parent_domains(before, node.parents);
    assert(!name_taken(before, node.name)) by {
        assert("EstadoMicrobiano"@.len() != "Gas_sensor"@.len());
        assert(before[0].name == "EstadoMicrobiano"@);
        assert("EstadoOperativo"@.len() != "Gas_sensor"@.len());
        assert(before[1].name == "EstadoOperativo"@);
        assert("TemperaturaReal"@.len() != "Gas_sensor"@.len());
        assert(before[2].name == "TemperaturaReal"@);
        assert("pHReal"@.len() != "Gas_sensor"@.len());
        assert(before[3].name == "pHReal"@);
        assert("CaudalReal"@[0] != "Gas_sensor"@[0]);
        assert(before[4].name == "CaudalReal"@);
        assert("PresionReal"@.len() != "Gas_sensor"@.len());
        assert(before[5].name == "PresionReal"@);
        assert("ProduccionGasReal"@.len() != "Gas_sensor"@.len());
        assert(before[6].name == "ProduccionGasReal"@);
        assert("T_sensor"@.len() != "Gas_sensor"@.len());
        assert(before[7].name == "T_sensor"@);
        assert("pH_sensor"@.len() != "Gas_sensor"@.len());
        assert(before[8].name == "pH_sensor"@);
        assert("Flow_sensor"@.len() != "Gas_sensor"@.len());
        assert(before[9].name == "Flow_sensor"@);
    }
    assert(is_position(before, node_names()[6], 6)) by {
        assert("EstadoMicrobiano"@.len() != "ProduccionGasReal"@.len());
        assert(before[0].name == "EstadoMicrobiano"@);
        assert("EstadoOperativo"@.len() != "ProduccionGasReal"@.len());
        assert(before[1].name == "EstadoOperativo"@);
        assert("TemperaturaReal"@.len() != "ProduccionGasReal"@.len());
        assert(before[2].name == "TemperaturaReal"@);
        assert("pHReal"@.len() != "ProduccionGasReal"@.len());
        assert(before[3].name == "pHReal"@);
        assert("CaudalReal"@.len() != "ProduccionGasReal"@.len());
        assert(before[4].name == "CaudalReal"@);
        assert("PresionReal"@.len() != "ProduccionGasReal"@.len());
        assert(before[5].name == "PresionReal"@);
        assert(before[6].name == "ProduccionGasReal"@);
    }
    assert(gas_sensor_entry().parent_names[0] == node_names()[6]);
    assert(parents_precede(before, node));
    assert(domains =~= seq![before[6].domain]);
    assert(node.domain =~= seq![StateModel::Named("bajo"@), StateModel::Named("normal"@), StateModel::Named("alto"@)]);
    assert(rows.len() == 3);
    assert("bajo"@.len() != "normal"@.len());
    assert("bajo"@[0] != "alto"@[0]);
    assert("normal"@.len() != "alto"@.len());
    assert("Baja"@.len() != "Normal"@.len());
    assert("Baja"@[0] != "Alta"@[0]);
    assert("Normal"@.len() != "Alta"@.len());
    assert(rows[0].given =~= seq![StateModel::Named("Baja"@)]);
    assert(rows[0].weights =~= seq![(StateModel::Named("bajo"@), 950_000u32), (StateModel::Named("normal"@), 40_000u32), (StateModel::Named("alto"@), 10_000u32)]);
    assert(rows[1].given =~= seq![StateModel::Named("Normal"@)]);
    assert(rows[1].weights =~= seq![(StateModel::Named("normal"@), 900_000u32), (StateModel::Named("bajo"@), 50_000u32), (StateModel::Named("alto"@), 50_000u32)]);
    assert(rows[2].given =~= seq![StateModel::Named("Alta"@)]);
    assert(rows[2].weights =~= seq![(StateModel::Named("alto"@), 920_000u32), (StateModel::Named("normal"@), 60_000u32), (StateModel::Named("bajo"@), 20_000u32)]);
    assert(normalized(rows, 0)) by {
        reveal_with_fuel(total, 4);
        assert(rows[0].weights.drop_last() =~= seq![(StateModel::Named("bajo"@), 950_000u32), (StateModel::Named("normal"@), 40_000u32)]);
        assert(rows[0].weights.drop_last().drop_last() =~= seq![(StateModel::Named("bajo"@), 950_000u32)]);
    }
    assert(!malformed(rows, domains, node.domain, 0)) by {
        assert(is_combination(domains, rows[0].given)) by {
            assert(domains[0][0] == rows[0].given[0]);
        }
        assert(!strays(rows[0].weights, node.domain)) by {
            assert(node.domain[0] == rows[0].weights[0].0);
            assert(node.domain[1] == rows[0].weights[1].0);
            assert(node.domain[2] == rows[0].weights[2].0);
        }
        assert(!doubles(rows[0].weights)) by {
            assert(rows[0].weights[0].0 != rows[0].weights[1].0);
            assert(rows[0].weights[0].0 != rows[0].weights[2].0);
            assert(rows[0].weights[1].0 != rows[0].weights[2].0);
        }
        assert(!repeats(rows, 0));
    }
    assert(normalized(rows, 1)) by {
        reveal_with_fuel(total, 4);
        assert(rows[1].weights.drop_last() =~= seq![(StateModel::Named("normal"@), 900_000u32), (StateModel::Named("bajo"@), 50_000u32)]);
        assert(rows[1].weights.drop_last().drop_last() =~= seq![(StateModel::Named("normal"@), 900_000u32)]);
    }
    assert(!malformed(rows, domains, node.domain, 1)) by {
        assert(is_combination(domains, rows[1].given)) by {
            assert(domains[0][1] == rows[1].given[0]);
        }
        assert(!strays(rows[1].weights, node.domain)) by {
            assert(node.domain[1] == rows[1].weights[0].0);
            assert(node.domain[0] == rows[1].weights[1].0);
            assert(node.domain[2] == rows[1].weights[2].0);
        }
        assert(!doubles(rows[1].weights)) by {
            assert(rows[1].weights[0].0 != rows[1].weights[1].0);
            assert(rows[1].weights[0].0 != rows[1].weights[2].0);
            assert(rows[1].weights[1].0 != rows[1].weights[2].0);
        }
        assert(!repeats(rows, 1)) by {
            assert(rows[0].given[0] != rows[1].given[0]);
        }
    }
    assert(normalized(rows, 2)) by {
        reveal_with_fuel(total, 4);
        assert(rows[2].weights.drop_last() =~= seq![(StateModel::Named("alto"@), 920_000u32), (StateModel::Named("normal"@), 60_000u32)]);
        assert(rows[2].weights.drop_last().drop_last() =~= seq![(StateModel::Named("alto"@), 920_000u32)]);
    }
    assert(!malformed(rows, domains, node.domain, 2)) by {
        assert(is_combination(domains, rows[2].given)) by {
            assert(domains[0][2] == rows[2].given[0]);
        }
        assert(!strays(rows[2].weights, node.domain)) by {
            assert(node.domain[2] == rows[2].weights[0].0);
            assert(node.domain[1] == rows[2].weights[1].0);
            assert(node.domain[0] == rows[2].weights[2].0);
        }
        assert(!doubles(rows[2].weights)) by {
            assert(rows[2].weights[0].0 != rows[2].weights[1].0);
            assert(rows[2].weights[0].0 != rows[2].weights[2].0);
            assert(rows[2].weights[1].0 != rows[2].weights[2].0);
        }
        assert(!repeats(rows, 2)) by {
            assert(rows[0].given[0] != rows[2].given[0]);
            assert(rows[1].given[0] != rows[2].given[0]);
        }
    }
    assert(covered(rows, domains)) by {
        assert forall|c: Seq<StateModel>| #[trigger] is_combination(domains, c) implies has_row_for(
            rows,
            c,
        ) by {
            assert(domains[0].contains(c[0]));
            if c[0] == domains[0][0] {
                assert(c =~= rows[0].given);
            } else if c[0] == domains[0][1] {
                assert(c =~= rows[1].given);
            } else {
                assert(c[0] == domains[0][2]);
                assert(c =~= rows[2].given);
            }
        }
    }
}

/// The name and the states of `Presion_sensor`.
pub(crate) proof fn lemma_pressure_sensor_shape()
    ensures
        pressure_sensor_entry().name == "Presion_sensor"@,
        pressure_sensor_entry().domain == seq![StateModel::Named("baja"@), StateModel::Named("normal"@), StateModel::Named("alta"@)],
{
    reveal(pressure_sensor_entry);
    assert(pressure_sensor_entry().domain =~= seq![StateModel::Named("baja"@), StateModel::Named("normal"@), StateModel::Named("alta"@)]);
}

/// `Presion_sensor` may follow the nodes before it, with `PresionReal` as its parent.
pub(crate) proof fn lemma_pressure_sensor_fits(before: Seq<NodeDefinitionModel>)
    requires
        named_so_far(before, 11),
        before[5].domain == pressure_entry().domain,
    ensures
        acceptable(before, pressure_sensor_entry().placed(seq![5usize])),
        is_position(before, pressure_sensor_entry().parent_names[0], 5),
{
    reveal(pressure_sensor_entry);
    reveal_strlit("Alta");
    reveal_strlit("Baja");
    reveal_strlit("CaudalReal");
    reveal_strlit("EstadoMicrobiano");
    reveal_strlit("EstadoOperativo");
    reveal_strlit("Flow_sensor");
    reveal_strlit("Gas_sensor");
    reveal_strlit("Normal");
    reveal_strlit("PresionReal");
    reveal_strlit("Presion_sensor");
    reveal_strlit("ProduccionGasReal");
    reveal_strlit("T_sensor");
    reveal_strlit("TemperaturaReal");
    reveal_strlit("alta");
    reveal_strlit("baja");
    reveal_strlit("normal");
    reveal_strlit("pHReal");
    reveal_strlit("pH_sensor");
    lemma_pressure_shape();
    let node = pressure_sensor_entry().placed(seq![5usize]);
    let rows = node.rows;
    let domains = parent_domains(before, node.parents);
    assert(!name_taken(before, node.name)) by {
        assert("EstadoMicrobiano"@.len() != "Presion_sensor"@.len());
        assert(before[0].name == "EstadoMicrobiano"@);
        assert("EstadoOperativo"@.len() != "Presion_sensor"@.len());
        assert(before[1].name == "EstadoOperativo"@);
        assert("TemperaturaReal"@.len() != "Presion_sensor"@.len());
        assert(before[2].name == "TemperaturaReal"@);
        assert("pHReal"@.len() != "Presion_sensor"@.len());
        assert(before[3].name == "pHReal"@);
        assert("CaudalReal"@.len() != "Presion_sensor"@.len());
        assert(before[4].name == "CaudalReal"@);
        assert("PresionReal"@.len() != "Presion_sensor"@.len());
        assert(before[5].name == "PresionReal"@);
        assert("ProduccionGasReal"@.len() != "Presion_sensor"@.len());
        assert(before[6].name == "ProduccionGasReal"@);
        assert("T_sensor"@.len() != "Presion_sensor"@.len());
        assert(before[7].name == "T_sensor"@);
        assert("pH_sensor"@.len() != "Presion_sensor"@.len());
        assert(before[8].name == "pH_sensor"@);
        assert("Flow_sensor"@.len() != "Presion_sensor"@.len());
        assert(before[9].name == "Flow_sensor"@);
        assert("Gas_sensor"@.len() != "Presion_sensor"@.len());
        assert(before[10].name == "Gas_sensor"@);
    }
    assert(is_position(before, node_names()[5], 5)) by {
        assert("EstadoMicrobiano"@.len() != "PresionReal"@.len());
        assert(before[0].name == "EstadoMicrobiano"@);
        assert("EstadoOperativo"@.len() != "PresionReal"@.len());
        assert(before[1].name == "EstadoOperativo"@);
        assert("TemperaturaReal"@.len() != "PresionReal"@.len());
        assert(before[2].name == "TemperaturaReal"@);
        assert("pHReal"@.len() != "PresionReal"@.len());
        assert(before[3].name == "pHReal"@);
        assert("CaudalReal"@.len() != "PresionReal"@.len());
        assert(before[4].name == "CaudalReal"@);
        assert(before[5].name == "PresionReal"@);
    }
    assert(pressure_sensor_entry().parent_names[0] == node_names()[5]);
    assert(parents_precede(before, node));
    assert(domains =~= seq![before[5].domain]);
    assert(node.domain =~= seq![StateModel::Named("baja"@), StateModel::Named("normal"@), StateModel::Named("alta"@)]);
    assert(rows.len() == 3);
    assert("baja"@.len() != "normal"@.len());
    assert("baja"@[0] != "alta"@[0]);
    assert("normal"@.len() != "alta"@.len());
    assert("Baja"@.len() != "Normal"@.len());
    assert("Baja"@[0] != "Alta"@[0]);
    assert("Normal"@.len() != "Alta"@.len());
    assert(rows[0].given =~= seq![StateModel::Named("Alta"@)]);
    assert(rows[0].weights =~= seq![(StateModel::Named("alta"@), 920_000u32), (StateModel::Named("normal"@), 60_000u32), (StateModel::Named("baja"@), 20_000u32)]);
    assert(rows[1].given =~= seq![StateModel::Named("Normal"@)]);
    assert(rows[1].weights =~= seq![(StateModel::Named("normal"@), 900_000u32), (StateModel::Named("baja"@), 50_000u32), (StateModel::Named("alta"@), 50_000u32)]);
    assert(rows[2].given =~= seq![StateModel::Named("Baja"@)]);
    assert(rows[2].weights =~= seq![(StateModel::Named("baja"@), 950_000u32), (StateModel::Named("normal"@), 40_000u32), (StateModel::Named("alta"@), 10_000u32)]);
    assert(normalized(rows, 0)) by {
        reveal_with_fuel(total, 4);
        assert(rows[0].weights.drop_last() =~= seq![(StateModel::Named("alta"@), 920_000u32), (StateModel::Named("normal"@), 60_000u32)]);
        assert(rows[0].weights.drop_last().drop_last() =~= seq![(StateModel::Named("alta"@), 920_000u32)]);
    }
    assert(!malformed(rows, domains, node.domain, 0)) by {
        assert(is_combination(domains, rows[0].given)) by {
            assert(domains[0][2] == rows[0].given[0]);
        }
        assert(!strays(rows[0].weights, node.domain)) by {
            assert(node.domain[2] == rows[0].weights[0].0);
            assert(node.domain[1] == rows[0].weights[1].0);
            assert(node.domain[0] == rows[0].weights[2].0);
        }
        assert(!doubles(rows[0].weights)) by {
            assert(rows[0].weights[0].0 != rows[0].weights[1].0);
            assert(rows[0].weights[0].0 != rows[0].weights[2].0);
            assert(rows[0].weights[1].0 != rows[0].weights[2].0);
        }
        assert(!repeats(rows, 0));
    }
    assert(normalized(rows, 1)) by {
        reveal_with_fuel(total, 4);
        assert(rows[1].weights.drop_last() =~= seq![(StateModel::Named("normal"@), 900_000u32), (StateModel::Named("baja"@), 50_000u32)]);
        assert(rows[1].weights.drop_last().drop_last() =~= seq![(StateModel::Named("normal"@), 900_000u32)]);
    }
    assert(!malformed(rows, domains, node.domain, 1)) by {
        assert(is_combination(domains, rows[1].given)) by {
            assert(domains[0][1] == rows[1].given[0]);
        }
        assert(!strays(rows[1].weights, node.domain)) by {
            assert(node.domain[1] == rows[1].weights[0].0);
            assert(node.domain[0] == rows[1].weights[1].0);
            assert(node.domain[2] == rows[1].weights[2].0);
        }
        assert(!doubles(rows[1].weights)) by {
            assert(rows[1].weights[0].0 != rows[1].weights[1].0);
            assert(rows[1].weights[0].0 != rows[1].weights[2].0);
            assert(rows[1].weights[1].0 != rows[1].weights[2].0);
        }
        assert(!repeats(rows, 1)) by {
            assert(rows[0].given[0] != rows[1].given[0]);
        }
    }
    assert(normalized(rows, 2)) by {
        reveal_with_fuel(total, 4);
        assert(rows[2].weights.drop_last() =~= seq![(StateModel::Named("baja"@), 950_000u32), (StateModel::Named("normal"@), 40_000u32)]);
        assert(rows[2].weights.drop_last().drop_last() =~= seq![(StateModel::Named("baja"@), 950_000u32)]);
    }
    assert(!malformed(rows, domains, node.domain, 2)) by {
        assert(is_combination(domains, rows[2].given)) by {
            assert(domains[0][0] == rows[2].given[0]);
        }
        assert(!strays(rows[2].weights, node.domain)) by {
            assert(node.domain[0] == rows[2].weights[0].0);
            assert(node.domain[1] == rows[2].weights[1].0);
            assert(node.domain[2] == rows[2].weights[2].0);
        }
        assert(!doubles(rows[2].weights)) by {
            assert(rows[2].weights[0].0 != rows[2].weights[1].0);
            assert(rows[2].weights[0].0 != rows[2].weights[2].0);
            assert(rows[2].weights[1].0 != rows[2].weights[2].0);
        }
        assert(!repeats(rows, 2)) by {
            assert(rows[0].given[0] != rows[2].given[0]);
            assert(rows[1].given[0] != rows[2].given[0]);
        }
    }
    assert(covered(rows, domains)) by {
        assert forall|c: Seq<StateModel>| #[trigger] is_combination(domains, c) implies has_row_for(
            rows,
            c,
        ) by {
            assert(domains[0].contains(c[0]));
            if c[0] == domains[0][0] {
                assert(c =~= rows[2].given);
            } else if c[0] == domains[0][1] {
                assert(c =~= rows[1].given);
            } else {
                assert(c[0] == domains[0][2]);
                assert(c =~= rows[0].given);
            }
        }
    }
}

/// Whether the first `count` registrations of the run are accepted and yield
/// the first `count` nodes.
pub open spec fn run_holds(count: int) -> bool {
    &&& all_accepted(biodigester_run(), count)
    &&& registered(biodigester_run().take(count)) == biodigester_nodes().take(count)
}

/// The nodes of the network bear the names of [`node_names`].
pub(crate) proof fn lemma_nodes_are_named(count: int)
    requires
        0 <= count <= 12,
    ensures
        named_so_far(biodigester_nodes().take(count), count),
{
    lemma_microbial_state_shape();
    lemma_operating_state_shape();
    lemma_temperature_shape();
    lemma_acidity_shape();
    lemma_flow_shape();
    lemma_pressure_shape();
    lemma_gas_production_shape();
    lemma_temperature_sensor_shape();
    lemma_acidity_sensor_shape();
    lemma_flow_sensor_shape();
    lemma_gas_sensor_shape();
    lemma_pressure_sensor_shape();
}

pub(crate) proof fn lemma_run_holds_1()
    ensures
        run_holds(1),
{
    assert(biodigester_run().take(0) =~= Seq::<RegistrationModel>::empty());
    assert(biodigester_nodes().take(0) =~= Seq::<NodeDefinitionModel>::empty());
    lemma_nodes_are_named(0);
    let before = biodigester_nodes().take(0);
    let parents: Seq<usize> = seq![];
    lemma_microbial_state_fits(before);
    assert(biodigester_run()[0].parent_names.len() == 0) by {
        reveal(microbial_state_entry);
    }
    assert(biodigester_nodes()[0] == biodigester_run()[0].placed(parents));
    lemma_run_goes_on(biodigester_run(), biodigester_nodes(), 0, parents);
}

pub(crate) proof fn lemma_run_holds_2()
    ensures
        run_holds(2),
{
    lemma_run_holds_1();
    lemma_nodes_are_named(1);
    let before = biodigester_nodes().take(1);
    let parents: Seq<usize> = seq![];
    lemma_operating_state_fits(before);
    assert(biodigester_run()[1].parent_names.len() == 0) by {
        reveal(operating_state_entry);
    }
    assert(biodigester_nodes()[1] == biodigester_run()[1].placed(parents));
    lemma_run_goes_on(biodigester_run(), biodigester_nodes(), 1, parents);
}

pub(crate) proof fn lemma_run_holds_3()
    ensures
        run_holds(3),
{
    lemma_run_holds_2();
    lemma_nodes_are_named(2);
    let before = biodigester_nodes().take(2);
    let parents: Seq<usize> = seq![0usize];
    assert(before[0].domain == microbial_state_entry().domain);
    lemma_temperature_fits(before);
    assert(biodigester_run()[2].parent_names.len() == 1) by {
        reveal(temperature_entry);
    }
    assert(biodigester_nodes()[2] == biodigester_run()[2].placed(parents));
    lemma_run_goes_on(biodigester_run(), biodigester_nodes(), 2, parents);
}

pub(crate) proof fn lemma_run_holds_4()
    ensures
        run_holds(4),
{
    lemma_run_holds_3();
    lemma_nodes_are_named(3);
    let before = biodigester_nodes().take(3);
    let parents: Seq<usize> = seq![0usize];
    assert(before[0].domain == microbial_state_entry().domain);
    lemma_acidity_fits(before);
    assert(biodigester_run()[3].parent_names.len() == 1) by {
        reveal(acidity_entry);
    }
    assert(biodigester_nodes()[3] == biodigester_run()[3].placed(parents));
    lemma_run_goes_on(biodigester_run(), biodigester_nodes(), 3, parents);
}

pub(crate) proof fn lemma_run_holds_5()
    ensures
        run_holds(5),
{
    lemma_run_holds_4();
    lemma_nodes_are_named(4);
    let before = biodigester_nodes().take(4);
    let parents: Seq<usize> = seq![1usize];
    assert(before[1].domain == operating_state_entry().domain);
    lemma_flow_fits(before);
    assert(biodigester_run()[4].parent_names.len() == 1) by {
        reveal(flow_entry);
    }
    assert(biodigester_nodes()[4] == biodigester_run()[4].placed(parents));
    lemma_run_goes_on(biodigester_run(), biodigester_nodes(), 4, parents);
}

pub(crate) proof fn lemma_run_holds_6()
    ensures
        run_holds(6),
{
    lemma_run_holds_5();
    lemma_nodes_are_named(5);
    let before = biodigester_nodes().take(5);
    let parents: Seq<usize> = seq![1usize];
    assert(before[1].domain == operating_state_entry().domain);
    lemma_pressure_fits(before);
    assert(biodigester_run()[5].parent_names.len() == 1) by {
        reveal(pressure_entry);
    }
    assert(biodigester_nodes()[5] == biodigester_run()[5].placed(parents));
    lemma_run_goes_on(biodigester_run(), biodigester_nodes(), 5, parents);
}

pub(crate) proof fn lemma_run_holds_7()
    ensures
        run_holds(7),
{
    lemma_run_holds_6();
    lemma_nodes_are_named(6);
    let before = biodigester_nodes().take(6);
    let parents: Seq<usize> = seq![0usize, 4usize];
    assert(before[0].domain == microbial_state_entry().domain);
    assert(before[4].domain == flow_entry().domain);
    lemma_gas_production_fits(before);
    assert(biodigester_run()[6].parent_names.len() == 2) by {
        reveal(gas_production_entry);
    }
    assert(biodigester_nodes()[6] == biodigester_run()[6].placed(parents));
    lemma_run_goes_on(biodigester_run(), biodigester_nodes(), 6, parents);
}

pub(crate) proof fn lemma_run_holds_8()
    ensures
        run_holds(8),
{
    lemma_run_holds_7();
    lemma_nodes_are_named(7);
    let before = biodigester_nodes().take(7);
    let parents: Seq<usize> = seq![2usize];
    assert(before[2].domain == temperature_entry().domain);
    lemma_temperature_sensor_fits(before);
    assert(biodigester_run()[7].parent_names.len() == 1) by {
        reveal(temperature_sensor_entry);
    }
    assert(biodigester_nodes()[7] == biodigester_run()[7].placed(parents));
    lemma_run_goes_on(biodigester_run(), biodigester_nodes(), 7, parents);
}

pub(crate) proof fn lemma_run_holds_9()
    ensures
        run_holds(9),
{
    lemma_run_holds_8();
    lemma_nodes_are_named(8);
    let before = biodigester_nodes().take(8);
    let parents: Seq<usize> = seq![3usize];
    assert(before[3].domain == acidity_entry().domain);
    lemma_acidity_sensor_fits(before);
    assert(biodigester_run()[8].parent_names.len() == 1) by {
        reveal(acidity_sensor_entry);
    }
    assert(biodigester_nodes()[8] == biodigester_run()[8].placed(parents));
    lemma_run_goes_on(biodigester_run(), biodigester_nodes(), 8, parents);
}

pub(crate) proof fn lemma_run_holds_10()
    ensures
        run_holds(10),
{
    lemma_run_holds_9();
    lemma_nodes_are_named(9);
    let before = biodigester_nodes().take(9);
    let parents: Seq<usize> = seq![4usize];
    assert(before[4].domain == flow_entry().domain);
    lemma_flow_sensor_fits(before);
    assert(biodigester_run()[9].parent_names.len() == 1) by {
        reveal(flow_sensor_entry);
    }
    assert(biodigester_nodes()[9] == biodigester_run()[9].placed(parents));
    lemma_run_goes_on(biodigester_run(), biodigester_nodes(), 9, parents);
}

pub(crate) proof fn lemma_run_holds_11()
    ensures
        run_holds(11),
{
    lemma_run_holds_10();
    lemma_nodes_are_named(10);
    let before = biodigester_nodes().take(10);
    let parents: Seq<usize> = seq![6usize];
    assert(before[6].domain == gas_production_entry().domain);
    lemma_gas_sensor_fits(before);
    assert(biodigester_run()[10].parent_names.len() == 1) by {
        reveal(gas_sensor_entry);
    }
    assert(biodigester_nodes()[10] == biodigester_run()[10].placed(parents));
    lemma_run_goes_on(biodigester_run(), biodigester_nodes(), 10, parents);
}

pub(crate) proof fn lemma_run_holds_12()
    ensures
        run_holds(12),
{
    lemma_run_holds_11();
    lemma_nodes_are_named(11);
    let before = biodigester_nodes().take(11);
    let parents: Seq<usize> = seq![5usize];
    assert(before[5].domain == pressure_entry().domain);
    lemma_pressure_sensor_fits(before);
    assert(biodigester_run()[11].parent_names.len() == 1) by {
        reveal(pressure_sensor_entry);
    }
    assert(biodigester_nodes()[11] == biodigester_run()[11].placed(parents));
    lemma_run_goes_on(biodigester_run(), biodigester_nodes(), 11, parents);
}

} // verus!
