//! The registration of nodes: a network definition grows one node at a time,
//! and each node is validated against those registered before it.

use crate::definition::{
    acceptable, copy_rows, copy_states, covered, covers_from, find_name, first_malformed, first_unnormalized,
    has_row_for, is_combination, lemma_covered_from_start, malformed, name_taken, normalized,
    parent_domains, same_states, total, valid, CptRow, NodeDefinition, NodeDefinitionModel, RowModel, UNIT,
};
use crate::state::{lowercase_of, State, StateModel};
use vstd::prelude::*;
use vstd::string::StringExecFns;

verus! {

/// Why a node was not registered.
#[derive(Clone, Copy, Debug, PartialEq, Eq)]
pub enum ValidationError {
    /// A node of that name is registered already.
    DuplicateName,
    /// The parent at this position of the list of parents is not registered.
    UnknownParent(usize),
    /// The row at this position of the table is malformed.
    MalformedEntry(usize),
    /// Some combination of parent states has no row in the table.
    MissingEntry,
    /// The weights of the row at this position do not sum to one.
    NotNormalized(usize),
}

/// Whether `i` is the position of the first node called `name`.
pub open spec fn is_position(nodes: Seq<NodeDefinitionModel>, name: Seq<char>, i: int) -> bool {
    &&& 0 <= i < nodes.len()
    &&& nodes[i].name == name
    &&& forall|j: int| 0 <= j < i ==> (#[trigger] nodes[j]).name != name
}

/// The position of the first node called `name`.
pub open spec fn position_of(nodes: Seq<NodeDefinitionModel>, name: Seq<char>) -> int {
    choose|i: int| is_position(nodes, name, i)
}

/// Whether each of the first `count` names is that of a node.
pub open spec fn parents_known(
    nodes: Seq<NodeDefinitionModel>,
    parent_names: Seq<Seq<char>>,
    count: int,
) -> bool {
    forall|k: int| 0 <= k < count ==> name_taken(nodes, #[trigger] parent_names[k])
}

/// The node that a registration describes: its parents are the nodes that
/// the parent names stand for.
pub open spec fn candidate(
    nodes: Seq<NodeDefinitionModel>,
    name: Seq<char>,
    parent_names: Seq<Seq<char>>,
    domain: Seq<StateModel>,
    rows: Seq<RowModel>,
) -> NodeDefinitionModel {
    NodeDefinitionModel {
        name,
        parents: Seq::new(parent_names.len(), |k: int| position_of(nodes, parent_names[k]) as usize),
        domain,
        rows,
    }
}

/// Whether a registration is accepted: every parent is registered and the
/// node it describes may follow the registered ones.
#[verifier::opaque]
pub open spec fn accepted(
    nodes: Seq<NodeDefinitionModel>,
    name: Seq<char>,
    parent_names: Seq<Seq<char>>,
    domain: Seq<StateModel>,
    rows: Seq<RowModel>,
) -> bool {
    &&& parents_known(nodes, parent_names, parent_names.len() as int)
    &&& acceptable(nodes, candidate(nodes, name, parent_names, domain, rows))
}

/// Whether `error` is the refusal that a registration meets. The defects are
/// looked for in a fixed order: the name, the parents from the first on, the
/// rows' form from the first on, the missing rows, the rows' sums from the
/// first on; the first defect found is reported.
#[verifier::opaque]
pub open spec fn refused_with(
    nodes: Seq<NodeDefinitionModel>,
    name: Seq<char>,
    parent_names: Seq<Seq<char>>,
    domain: Seq<StateModel>,
    rows: Seq<RowModel>,
    error: ValidationError,
) -> bool {
    let node = candidate(nodes, name, parent_names, domain, rows);
    let domains = parent_domains(nodes, node.parents);
    let named = !name_taken(nodes, name);
    let rooted = named && parents_known(nodes, parent_names, parent_names.len() as int);
    let formed = rooted && forall|q: int| 0 <= q < rows.len() ==> !malformed(rows, domains, domain, q);
    match error {
        ValidationError::DuplicateName => !named,
        ValidationError::UnknownParent(k) => {
            &&& named
            &&& k < parent_names.len()
            &&& !name_taken(nodes, parent_names[k as int])
            &&& parents_known(nodes, parent_names, k as int)
        },
        ValidationError::MalformedEntry(r) => {
            &&& rooted
            &&& r < rows.len()
            &&& malformed(rows, domains, domain, r as int)
            &&& forall|q: int| 0 <= q < r ==> !malformed(rows, domains, domain, q)
        },
        ValidationError::MissingEntry => formed && !covered(rows, domains),
        ValidationError::NotNormalized(r) => {
            &&& formed
            &&& covered(rows, domains)
            &&& r < rows.len()
            &&& !normalized(rows, r as int)
            &&& forall|q: int| 0 <= q < r ==> normalized(rows, q)
        },
    }
}

/// The first node called `name` stands at one position only.
proof fn lemma_position_is_unique(nodes: Seq<NodeDefinitionModel>, name: Seq<char>, i: int)
    requires
        is_position(nodes, name, i),
    ensures
        position_of(nodes, name) == i,
{
    let chosen = position_of(nodes, name);
    assert(is_position(nodes, name, chosen));
    if chosen < i {
        assert(nodes[chosen].name != name);
    } else if i < chosen {
        assert(nodes[i].name != name);
    }
}

/// The ids of the nodes that `parent_names` stand for, or the position of
/// the first name that stands for none.
pub(crate) fn resolve_parents(nodes: &Vec<NodeDefinition>, parent_names: &Vec<String>) -> (result: Result<
    Vec<usize>,
    usize,
>)
    ensures
        match result {
            Ok(ids) => {
                &&& parents_known(
                    nodes.deep_view(),
                    parent_names.deep_view(),
                    parent_names@.len() as int,
                )
                &&& ids@ == Seq::new(
                    parent_names@.len(),
                    |k: int| position_of(nodes.deep_view(), parent_names.deep_view()[k]) as usize,
                )
                &&& forall|k: int| 0 <= k < ids@.len() ==> ids@[k] < nodes@.len()
            },
            Err(k) => {
                &&& k < parent_names@.len()
                &&& !name_taken(nodes.deep_view(), parent_names.deep_view()[k as int])
                &&& parents_known(nodes.deep_view(), parent_names.deep_view(), k as int)
            },
        },
{
    let ghost registered = nodes.deep_view();
    let ghost names = parent_names.deep_view();
    let mut ids: Vec<usize> = Vec::new();
    let mut k: usize = 0;
    while k < parent_names.len()
        invariant
            registered == nodes.deep_view(),
            names == parent_names.deep_view(),
            k <= parent_names@.len(),
            ids@.len() == k,
            parents_known(registered, names, k as int),
            forall|j: int| 0 <= j < k ==> ids@[j] == position_of(registered, names[j]),
            forall|j: int| 0 <= j < k ==> ids@[j] < nodes@.len(),
        decreases parent_names@.len() - k,
    {
        assert(names[k as int] == parent_names@[k as int]@);
        match find_name(nodes, parent_names[k].as_str()) {
            Some(i) => {
                proof {
                    lemma_position_is_unique(registered, names[k as int], i as int);
                }
                ids.push(i);
            },
            None => {
                return Err(k);
            },
        }
        k += 1;
    }
    assert(ids@ =~= Seq::new(
        parent_names@.len(),
        |k: int| position_of(registered, names[k]) as usize,
    ));
    Ok(ids)
}

/// What a builder says of one node: the arguments of one registration.
#[derive(Clone, Debug, PartialEq, Eq)]
pub struct Registration {
    pub name: String,
    pub parent_names: Vec<String>,
    pub domain: Vec<State>,
    pub rows: Vec<CptRow>,
}

/// The mathematical value of a [`Registration`].
pub struct RegistrationModel {
    pub name: Seq<char>,
    pub parent_names: Seq<Seq<char>>,
    pub domain: Seq<StateModel>,
    pub rows: Seq<RowModel>,
}

impl DeepView for Registration {
    type V = RegistrationModel;

    open spec fn deep_view(&self) -> RegistrationModel {
        RegistrationModel {
            name: self.name@,
            parent_names: self.parent_names.deep_view(),
            domain: self.domain.deep_view(),
            rows: self.rows.deep_view(),
        }
    }
}

/// The states that the texts of `labels` stand for, one for one.
pub open spec fn parsed_states(labels: Seq<Seq<char>>) -> Seq<StateModel> {
    Seq::new(labels.len(), |i: int| StateModel::parsed(labels[i], lowercase_of(labels[i])))
}

/// The distribution that `weights` describes, its states read from text.
pub open spec fn parsed_weights(weights: Seq<(Seq<char>, u32)>) -> Seq<(StateModel, u32)> {
    Seq::new(
        weights.len(),
        |i: int| (StateModel::parsed(weights[i].0, lowercase_of(weights[i].0)), weights[i].1),
    )
}

/// The table that `table` describes, its states read from text.
pub open spec fn parsed_rows(table: Seq<(Seq<Seq<char>>, Seq<(Seq<char>, u32)>)>) -> Seq<RowModel> {
    Seq::new(
        table.len(),
        |r: int| RowModel { given: parsed_states(table[r].0), weights: parsed_weights(table[r].1) },
    )
}

/// The named states that `labels` call by name, one for one.
pub open spec fn named_states(labels: Seq<Seq<char>>) -> Seq<StateModel> {
    Seq::new(labels.len(), |i: int| StateModel::Named(labels[i]))
}

/// The distribution that `weights` describes over named states.
pub open spec fn named_weights(weights: Seq<(Seq<char>, u32)>) -> Seq<(StateModel, u32)> {
    Seq::new(weights.len(), |i: int| (StateModel::Named(weights[i].0), weights[i].1))
}

/// The table that `table` describes over named states.
pub open spec fn named_rows(table: Seq<(Seq<Seq<char>>, Seq<(Seq<char>, u32)>)>) -> Seq<RowModel> {
    Seq::new(
        table.len(),
        |r: int| RowModel { given: named_states(table[r].0), weights: named_weights(table[r].1) },
    )
}

/// The named state of each of `labels`.
pub(crate) fn name_states(labels: &Vec<&str>) -> (states: Vec<State>)
    ensures
        states.deep_view() == named_states(labels.deep_view()),
{
    let mut states: Vec<State> = Vec::new();
    let mut i: usize = 0;
    while i < labels.len()
        invariant
            i <= labels@.len(),
            states@.len() == i,
            forall|j: int| 0 <= j < i ==> states@[j]@ == StateModel::Named(labels@[j]@),
        decreases labels@.len() - i,
    {
        states.push(State::Named(String::from_str(labels[i])));
        i += 1;
    }
    assert(states.deep_view() =~= named_states(labels.deep_view()));
    states
}

/// The named state of each weight.
pub(crate) fn name_weights(weights: &Vec<(&str, u32)>) -> (named: Vec<(State, u32)>)
    ensures
        named.deep_view() == named_weights(weights.deep_view()),
{
    let mut named: Vec<(State, u32)> = Vec::new();
    let mut i: usize = 0;
    while i < weights.len()
        invariant
            i <= weights@.len(),
            named@.len() == i,
            forall|j: int|
                0 <= j < i ==> named@[j].0@ == StateModel::Named(weights@[j].0@) && named@[j].1
                    == weights@[j].1,
        decreases weights@.len() - i,
    {
        named.push((State::Named(String::from_str(weights[i].0)), weights[i].1));
        i += 1;
    }
    assert(named.deep_view() =~= named_weights(weights.deep_view()));
    named
}

/// Reads each text of `labels` as a state.
pub(crate) fn read_states(labels: &Vec<&str>) -> (states: Vec<State>)
    ensures
        states.deep_view() == parsed_states(labels.deep_view()),
{
    let mut states: Vec<State> = Vec::new();
    let mut i: usize = 0;
    while i < labels.len()
        invariant
            i <= labels@.len(),
            states@.len() == i,
            forall|j: int|
                0 <= j < i ==> states@[j]@ == StateModel::parsed(
                    labels@[j]@,
                    lowercase_of(labels@[j]@),
                ),
        decreases labels@.len() - i,
    {
        states.push(State::from_str(labels[i]));
        i += 1;
    }
    assert(states.deep_view() =~= parsed_states(labels.deep_view()));
    states
}

/// Reads the state of each weight from its text.
pub(crate) fn read_weights(weights: &Vec<(&str, u32)>) -> (read: Vec<(State, u32)>)
    ensures
        read.deep_view() == parsed_weights(weights.deep_view()),
{
    let mut read: Vec<(State, u32)> = Vec::new();
    let mut i: usize = 0;
    while i < weights.len()
        invariant
            i <= weights@.len(),
            read@.len() == i,
            forall|j: int|
                0 <= j < i ==> read@[j].0@ == StateModel::parsed(
                    weights@[j].0@,
                    lowercase_of(weights@[j].0@),
                ) && read@[j].1 == weights@[j].1,
        decreases weights@.len() - i,
    {
        read.push((State::from_str(weights[i].0), weights[i].1));
        i += 1;
    }
    assert(read.deep_view() =~= parsed_weights(weights.deep_view()));
    read
}

impl Registration {
    /// The registration of a node whose states are given as text: the parent
    /// names and the node's possible values in order, and the table as one
    /// entry for each combination of parent states, with the weight of each
    /// of the node's states in parts of [`UNIT`].
    pub fn discrete(
        name: &str,
        parent_names: Vec<&str>,
        possible_values: Vec<&str>,
        table: Vec<(Vec<&str>, Vec<(&str, u32)>)>,
    ) -> (step: Registration)
        ensures
            step.deep_view() == (RegistrationModel {
                name: name@,
                parent_names: parent_names.deep_view(),
                domain: parsed_states(possible_values.deep_view()),
                rows: parsed_rows(table.deep_view()),
            }),
    {
        let mut parents: Vec<String> = Vec::new();
        let mut k: usize = 0;
        while k < parent_names.len()
            invariant
                k <= parent_names@.len(),
                parents@.len() == k,
                forall|j: int| 0 <= j < k ==> parents@[j]@ == parent_names@[j]@,
            decreases parent_names@.len() - k,
        {
            parents.push(String::from_str(parent_names[k]));
            k += 1;
        }
        assert(parents.deep_view() =~= parent_names.deep_view());
        let mut rows: Vec<CptRow> = Vec::new();
        let mut r: usize = 0;
        while r < table.len()
            invariant
                r <= table@.len(),
                rows@.len() == r,
                forall|q: int|
                    0 <= q < r ==> rows@[q].deep_view() == (RowModel {
                        given: parsed_states(table@[q].0.deep_view()),
                        weights: parsed_weights(table@[q].1.deep_view()),
                    }),
            decreases table@.len() - r,
        {
            rows.push(
                CptRow { given: read_states(&table[r].0), weights: read_weights(&table[r].1) },
            );
            r += 1;
        }
        assert(rows.deep_view() =~= parsed_rows(table.deep_view()));
        Registration {
            name: String::from_str(name),
            parent_names: parents,
            domain: read_states(&possible_values),
            rows,
        }
    }
}

impl Registration {
    /// The registration of a node all of whose states are named categories:
    /// every label, also `true` or `false`, is the name of a state. The
    /// arguments are those of [`Registration::discrete`].
    pub fn categorical(
        name: &str,
        parent_names: Vec<&str>,
        possible_values: Vec<&str>,
        table: Vec<(Vec<&str>, Vec<(&str, u32)>)>,
    ) -> (step: Registration)
        ensures
            step.deep_view() == (RegistrationModel {
                name: name@,
                parent_names: parent_names.deep_view(),
                domain: named_states(possible_values.deep_view()),
                rows: named_rows(table.deep_view()),
            }),
    {
        let mut parents: Vec<String> = Vec::new();
        let mut k: usize = 0;
        while k < parent_names.len()
            invariant
                k <= parent_names@.len(),
                parents@.len() == k,
                forall|j: int| 0 <= j < k ==> parents@[j]@ == parent_names@[j]@,
            decreases parent_names@.len() - k,
        {
            parents.push(String::from_str(parent_names[k]));
            k += 1;
        }
        assert(parents.deep_view() =~= parent_names.deep_view());
        let mut rows: Vec<CptRow> = Vec::new();
        let mut r: usize = 0;
        while r < table.len()
            invariant
                r <= table@.len(),
                rows@.len() == r,
                forall|q: int|
                    0 <= q < r ==> rows@[q].deep_view() == (RowModel {
                        given: named_states(table@[q].0.deep_view()),
                        weights: named_weights(table@[q].1.deep_view()),
                    }),
            decreases table@.len() - r,
        {
            rows.push(
                CptRow { given: name_states(&table[r].0), weights: name_weights(&table[r].1) },
            );
            r += 1;
        }
        assert(rows.deep_view() =~= named_rows(table.deep_view()));
        Registration {
            name: String::from_str(name),
            parent_names: parents,
            domain: name_states(&possible_values),
            rows,
        }
    }
}

impl RegistrationModel {
    /// The node of this registration with its parents at the ids `parents`.
    pub open spec fn placed(self, parents: Seq<usize>) -> NodeDefinitionModel {
        NodeDefinitionModel { name: self.name, parents, domain: self.domain, rows: self.rows }
    }

    /// The node that this registration adds to `nodes`.
    pub open spec fn node_after(self, nodes: Seq<NodeDefinitionModel>) -> NodeDefinitionModel {
        candidate(nodes, self.name, self.parent_names, self.domain, self.rows)
    }

    /// Whether this registration is accepted after `nodes`.
    pub open spec fn accepted_after(self, nodes: Seq<NodeDefinitionModel>) -> bool {
        accepted(nodes, self.name, self.parent_names, self.domain, self.rows)
    }

    /// Whether this registration is refused with `error` after `nodes`.
    pub open spec fn refused_after(
        self,
        nodes: Seq<NodeDefinitionModel>,
        error: ValidationError,
    ) -> bool {
        refused_with(nodes, self.name, self.parent_names, self.domain, self.rows, error)
    }
}

/// The nodes that a run of registrations yields, one node each.
pub open spec fn registered(steps: Seq<RegistrationModel>) -> Seq<NodeDefinitionModel>
    decreases steps.len(),
{
    if steps.len() == 0 {
        Seq::empty()
    } else {
        let before = registered(steps.drop_last());
        before.push(steps.last().node_after(before))
    }
}

/// Whether each of the first `count` registrations is accepted after those
/// before it.
pub open spec fn all_accepted(steps: Seq<RegistrationModel>, count: int) -> bool {
    forall|i: int|
        0 <= i < count ==> (#[trigger] steps[i]).accepted_after(registered(steps.take(i)))
}

/// A registration is accepted after `nodes` where each of its parents is found
/// at a position of its own and the node so placed may follow `nodes`; that
/// node is then the one it adds.
pub proof fn lemma_accepted_where_placed(
    nodes: Seq<NodeDefinitionModel>,
    step: RegistrationModel,
    parents: Seq<usize>,
)
    requires
        parents.len() == step.parent_names.len(),
        forall|k: int|
            0 <= k < parents.len() ==> is_position(
                nodes,
                #[trigger] step.parent_names[k],
                parents[k] as int,
            ),
        acceptable(nodes, step.placed(parents)),
    ensures
        step.accepted_after(nodes),
        step.node_after(nodes) == step.placed(parents),
{
    reveal(accepted);
    assert forall|k: int| 0 <= k < parents.len() implies position_of(
        nodes,
        #[trigger] step.parent_names[k],
    ) == parents[k] by {
        lemma_position_is_unique(nodes, step.parent_names[k], parents[k] as int);
    }
    assert(step.node_after(nodes).parents =~= parents);
}

/// Where the first `k` registrations of a run are accepted and yield the
/// first `k` of `nodes`, and registration `k` is accepted with its parents
/// at `parents`, the first `k + 1` registrations are accepted and yield the
/// first `k + 1` of `nodes`.
pub proof fn lemma_run_goes_on(
    run: Seq<RegistrationModel>,
    nodes: Seq<NodeDefinitionModel>,
    k: int,
    parents: Seq<usize>,
)
    requires
        0 <= k < run.len(),
        nodes.len() == run.len(),
        all_accepted(run, k),
        registered(run.take(k)) == nodes.take(k),
        nodes[k] == run[k].placed(parents),
        parents.len() == run[k].parent_names.len(),
        forall|j: int|
            0 <= j < parents.len() ==> is_position(
                nodes.take(k),
                #[trigger] run[k].parent_names[j],
                parents[j] as int,
            ),
        acceptable(nodes.take(k), run[k].placed(parents)),
    ensures
        all_accepted(run, k + 1),
        registered(run.take(k + 1)) == nodes.take(k + 1),
{
    let before = nodes.take(k);
    lemma_accepted_where_placed(before, run[k], parents);
    assert(run.take(k + 1).drop_last() =~= run.take(k));
    assert(run.take(k + 1).last() == run[k]);
    assert(registered(run.take(k + 1)) == before.push(run[k].node_after(before)));
    assert(before.push(nodes[k]) =~= nodes.take(k + 1));
    assert forall|i: int| 0 <= i < k + 1 implies (#[trigger] run[i]).accepted_after(
        registered(run.take(i)),
    ) by {
        if i < k {
            assert(all_accepted(run, k));
        }
    }
}

/// The nodes that a run of accepted registrations yields are valid: each may
/// follow those before it.
pub proof fn lemma_accepted_run_is_valid(run: Seq<RegistrationModel>)
    requires
        all_accepted(run, run.len() as int),
    ensures
        valid(registered(run)),
    decreases run.len(),
{
    if run.len() > 0 {
        let shorter = run.drop_last();
        let before = registered(shorter);
        let nodes = registered(run);
        assert forall|i: int| 0 <= i < shorter.len() implies (#[trigger] shorter[i]).accepted_after(
            registered(shorter.take(i)),
        ) by {
            assert(shorter.take(i) =~= run.take(i));
            assert(run[i].accepted_after(registered(run.take(i))));
        }
        lemma_accepted_run_is_valid(shorter);
        lemma_registered_holds_the_run(shorter);
        assert(run.take(run.len() - 1) =~= shorter);
        assert(run[run.len() - 1].accepted_after(before));
        reveal(accepted);
        assert forall|i: int| 0 <= i < nodes.len() implies acceptable(
            nodes.take(i),
            #[trigger] nodes[i],
        ) by {
            if i < before.len() {
                assert(nodes.take(i) =~= before.take(i));
                assert(nodes[i] == before[i]);
            } else {
                assert(nodes.take(i) =~= before);
            }
        }
    }
}

/// A run of registrations yields one node for each of them, under the name
/// that it gives and with its domain and its table.
pub proof fn lemma_registered_holds_the_run(steps: Seq<RegistrationModel>)
    ensures
        registered(steps).len() == steps.len(),
        forall|i: int|
            0 <= i < steps.len() ==> {
                &&& (#[trigger] registered(steps)[i]).name == steps[i].name
                &&& registered(steps)[i].domain == steps[i].domain
                &&& registered(steps)[i].rows == steps[i].rows
            },
    decreases steps.len(),
{
    if steps.len() > 0 {
        lemma_registered_holds_the_run(steps.drop_last());
    }
}

/// A network definition: nodes in the order of their registration, each of
/// which was accepted when it came.
#[derive(Debug, PartialEq, Eq)]
pub struct NetworkDefinition {
    nodes: Vec<NodeDefinition>,
}

impl NetworkDefinition {
    /// The nodes, in the order of their registration; a node's id is its
    /// position.
    pub closed spec fn nodes(&self) -> Seq<NodeDefinitionModel> {
        self.nodes.deep_view()
    }

    /// Each node was acceptable after those before it.
    #[verifier::type_invariant]
    pub closed spec fn well_formed(&self) -> bool {
        valid(self.nodes.deep_view())
    }

    /// The definition without nodes.
    pub fn new() -> (definition: NetworkDefinition)
        ensures
            definition.nodes() == Seq::<NodeDefinitionModel>::empty(),
            definition.well_formed(),
    {
        let definition = NetworkDefinition { nodes: Vec::new() };
        assert(definition.nodes.deep_view() =~= Seq::<NodeDefinitionModel>::empty());
        definition
    }

    /// Registers a node under the next id, which is returned. `parent_names`
    /// lists the node's parents, `domain` its states, and `rows` its table:
    /// one distribution for each combination of parent states. A registration
    /// with a defect is refused and leaves the definition as it was.
    pub fn add_discrete_node(
        &mut self,
        name: &str,
        parent_names: &Vec<String>,
        domain: Vec<State>,
        rows: Vec<CptRow>,
    ) -> (result: Result<usize, ValidationError>)
        ensures
            result.is_ok() == accepted(
                old(self).nodes(),
                name@,
                parent_names.deep_view(),
                domain.deep_view(),
                rows.deep_view(),
            ),
            match result {
                Ok(id) => {
                    &&& id == old(self).nodes().len()
                    &&& final(self).nodes() == old(self).nodes().push(
                        candidate(
                            old(self).nodes(),
                            name@,
                            parent_names.deep_view(),
                            domain.deep_view(),
                            rows.deep_view(),
                        ),
                    )
                },
                Err(error) => {
                    &&& final(self).nodes() == old(self).nodes()
                    &&& refused_with(
                        old(self).nodes(),
                        name@,
                        parent_names.deep_view(),
                        domain.deep_view(),
                        rows.deep_view(),
                        error,
                    )
                },
            },
    {
        proof {
            use_type_invariant(&*self);
            reveal(accepted);
            reveal(refused_with);
        }
        let ghost registered = self.nodes.deep_view();
        let ghost node = candidate(
            registered,
            name@,
            parent_names.deep_view(),
            domain.deep_view(),
            rows.deep_view(),
        );
        if find_name(&self.nodes, name).is_some() {
            return Err(ValidationError::DuplicateName);
        }
        let parents = match resolve_parents(&self.nodes, parent_names) {
            Ok(ids) => ids,
            Err(k) => {
                assert(!parents_known(
                    registered,
                    parent_names.deep_view(),
                    parent_names@.len() as int,
                ));
                return Err(ValidationError::UnknownParent(k));
            },
        };
        assert(parents@ == node.parents);
        let ghost domains = parent_domains(registered, parents@);
        if let Some(r) = first_malformed(&rows, &self.nodes, &parents, &domain) {
            assert(malformed(node.rows, domains, node.domain, r as int));
            assert(!acceptable(registered, node));
            return Err(ValidationError::MalformedEntry(r));
        }
        let mut prefix: Vec<State> = Vec::new();
        assert(prefix.deep_view() =~= Seq::<StateModel>::empty());
        let complete = covers_from(&rows, &self.nodes, &parents, &mut prefix);
        proof {
            lemma_covered_from_start(rows.deep_view(), domains);
        }
        if !complete {
            return Err(ValidationError::MissingEntry);
        }
        if let Some(r) = first_unnormalized(&rows) {
            return Err(ValidationError::NotNormalized(r));
        }
        let id = self.nodes.len();
        let entry = NodeDefinition { name: String::from_str(name), parents, domain, rows };
        assert(entry.deep_view() == node);
        assert(acceptable(registered, node));
        let mut emptied = NetworkDefinition::new();
        core::mem::swap(self, &mut emptied);
        let mut nodes = emptied.nodes;
        nodes.push(entry);
        proof {
            let extended = nodes.deep_view();
            assert(extended =~= registered.push(node));
            assert forall|i: int| 0 <= i < extended.len() implies acceptable(
                extended.take(i),
                #[trigger] extended[i],
            ) by {
                if i < registered.len() {
                    assert(extended.take(i) =~= registered.take(i));
                    assert(extended[i] == registered[i]);
                } else {
                    assert(extended.take(i) =~= registered);
                }
            }
        }
        *self = NetworkDefinition { nodes };
        Ok(id)
    }

    /// Makes one registration from a copy of what `step` holds.
    pub fn register(&mut self, step: &Registration) -> (result: Result<usize, ValidationError>)
        ensures
            result.is_ok() == step.deep_view().accepted_after(old(self).nodes()),
            match result {
                Ok(id) => {
                    &&& id == old(self).nodes().len()
                    &&& final(self).nodes() == old(self).nodes().push(
                        step.deep_view().node_after(old(self).nodes()),
                    )
                },
                Err(error) => {
                    &&& final(self).nodes() == old(self).nodes()
                    &&& step.deep_view().refused_after(old(self).nodes(), error)
                },
            },
    {
        let domain = copy_states(&step.domain);
        let rows = copy_rows(&step.rows);
        self.add_discrete_node(step.name.as_str(), &step.parent_names, domain, rows)
    }

    /// Builds a definition from a run of registrations, made in order. The
    /// result is a function of the registrations alone: the same run gives
    /// the same nodes with the same tables. The first registration that is
    /// refused ends the run; its position and its defect are returned.
    pub fn build(steps: &Vec<Registration>) -> (result: Result<
        NetworkDefinition,
        (usize, ValidationError),
    >)
        ensures
            result.is_ok() == all_accepted(steps.deep_view(), steps@.len() as int),
            match result {
                Ok(definition) => {
                    &&& all_accepted(steps.deep_view(), steps@.len() as int)
                    &&& definition.nodes() == registered(steps.deep_view())
                },
                Err((i, error)) => {
                    &&& i < steps@.len()
                    &&& all_accepted(steps.deep_view(), i as int)
                    &&& steps.deep_view()[i as int].refused_after(
                        registered(steps.deep_view().take(i as int)),
                        error,
                    )
                },
            },
    {
        let ghost run = steps.deep_view();
        let mut definition = NetworkDefinition::new();
        let mut i: usize = 0;
        assert(run.take(0) =~= Seq::<RegistrationModel>::empty());
        while i < steps.len()
            invariant
                run == steps.deep_view(),
                i <= steps@.len(),
                all_accepted(run, i as int),
                definition.nodes() == registered(run.take(i as int)),
            decreases steps@.len() - i,
        {
            assert(run[i as int] == steps@[i as int].deep_view());
            assert(run.take(i + 1).drop_last() =~= run.take(i as int));
            match definition.register(&steps[i]) {
                Ok(_) => {},
                Err(error) => {
                    assert(!run[i as int].accepted_after(registered(run.take(i as int))));
                    return Err((i, error));
                },
            }
            i += 1;
        }
        assert(run.take(i as int) =~= run);
        Ok(definition)
    }

    /// In every table, every combination of states of the node's parents has
    /// a row, and the weights of that row sum to [`UNIT`]: each row is a
    /// probability distribution over the node's states.
    pub proof fn lemma_tables_are_distributions(self, id: int, combination: Seq<StateModel>)
        requires
            self.well_formed(),
            0 <= id < self.nodes().len(),
            is_combination(
                parent_domains(self.nodes(), self.nodes()[id].parents),
                combination,
            ),
        ensures
            exists|r: int|
                {
                    &&& 0 <= r < self.nodes()[id].rows.len()
                    &&& (#[trigger] self.nodes()[id].rows[r]).given == combination
                    &&& total(self.nodes()[id].rows[r].weights) == UNIT
                },
    {
        let nodes = self.nodes();
        let node = nodes[id];
        assert(acceptable(nodes.take(id), node));
        assert(parent_domains(nodes.take(id), node.parents) =~= parent_domains(
            nodes,
            node.parents,
        )) by {
            assert forall|k: int| 0 <= k < node.parents.len() implies nodes.take(id)[node.parents[k] as int]
                == nodes[node.parents[k] as int] by {
                assert(node.parents[k] < id);
            }
        }
        assert(has_row_for(node.rows, combination));
        let r = choose|r: int| 0 <= r < node.rows.len() && #[trigger] node.rows[r].given == combination;
        assert(normalized(node.rows, r));
    }

    /// Every parent of a node was registered before the node: the order of
    /// registration puts each node after all of its parents, so the parent
    /// relation has no cycle.
    pub proof fn lemma_parents_come_first(self, id: int, k: int)
        requires
            self.well_formed(),
            0 <= id < self.nodes().len(),
            0 <= k < self.nodes()[id].parents.len(),
        ensures
            self.nodes()[id].parents[k] < id,
    {
        assert(acceptable(self.nodes().take(id), self.nodes()[id]));
    }

    /// No two nodes have the same name.
    pub proof fn lemma_names_are_distinct(self, a: int, b: int)
        requires
            self.well_formed(),
            0 <= a < b < self.nodes().len(),
        ensures
            self.nodes()[a].name != self.nodes()[b].name,
    {
        let nodes = self.nodes();
        assert(acceptable(nodes.take(b), nodes[b]));
        assert(nodes.take(b)[a] == nodes[a]);
    }

    /// Looks up the distribution of node `id` given the states of its
    /// parents, in the order of its parents: the row of its table whose
    /// `given` is exactly `given`. For every combination of parent states
    /// there is such a row, and its weights sum to [`UNIT`]; for an id that
    /// is not registered, or states that are no such combination and have no
    /// row, nothing is found.
    pub fn row_for(&self, id: usize, given: &Vec<State>) -> (found: Option<&CptRow>)
        ensures
            match found {
                Some(row) => {
                    &&& id < self.nodes().len()
                    &&& row.deep_view().given == given.deep_view()
                    &&& self.nodes()[id as int].rows.contains(row.deep_view())
                },
                None => id >= self.nodes().len() || !has_row_for(
                    self.nodes()[id as int].rows,
                    given.deep_view(),
                ),
            },
            id < self.nodes().len() && is_combination(
                parent_domains(self.nodes(), self.nodes()[id as int].parents),
                given.deep_view(),
            ) ==> found.is_some() && total(found.unwrap().deep_view().weights) == UNIT,
    {
        if id >= self.nodes.len() {
            return None;
        }
        let rows = &self.nodes[id].rows;
        let ghost table = self.nodes()[id as int].rows;
        let ghost owed = is_combination(
            parent_domains(self.nodes(), self.nodes()[id as int].parents),
            given.deep_view(),
        );
        assert(table == rows.deep_view());
        proof {
            use_type_invariant(self);
            assert(acceptable(self.nodes().take(id as int), self.nodes()[id as int]));
        }
        let mut r: usize = 0;
        while r < rows.len()
            invariant
                r <= rows@.len(),
                id < self.nodes().len(),
                table == self.nodes()[id as int].rows,
                table == rows.deep_view(),
                forall|q: int| 0 <= q < table.len() ==> normalized(table, q),
                forall|q: int| 0 <= q < r ==> (#[trigger] table[q]).given != given.deep_view(),
            decreases rows@.len() - r,
        {
            if same_states(&rows[r].given, given) {
                let row = &rows[r];
                proof {
                    assert(table[r as int] == row.deep_view());
                    assert(row.deep_view().given == given.deep_view());
                    assert(table.contains(row.deep_view()));
                    assert(normalized(table, r as int));
                }
                return Some(row);
            }
            r += 1;
        }
        proof {
            if owed {
                self.lemma_tables_are_distributions(id as int, given.deep_view());
            }
        }
        None
    }

    /// The number of nodes.
    pub fn len(&self) -> (count: usize)
        ensures
            count == self.nodes().len(),
    {
        self.nodes.len()
    }

    /// The nodes, in the order of their registration.
    pub fn as_nodes(&self) -> (nodes: &Vec<NodeDefinition>)
        ensures
            nodes.deep_view() == self.nodes(),
            valid(nodes.deep_view()),
    {
        proof {
            use_type_invariant(self);
        }
        &self.nodes
    }
}

} // verus!
