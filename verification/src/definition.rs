//! The definition of a network before any sampling: its nodes in the order
//! of registration, each with its parents, its domain and its conditional
//! probability table. Probabilities are whole parts of [`UNIT`], so that a
//! distribution sums to one exactly, without rounding.

use crate::state::{State, StateModel};
use crate::text::same_text;
use vstd::prelude::*;

verus! {

/// The weight that stands for probability one.
pub const UNIT: u32 = 1_000_000;

/// One entry of a conditional probability table: the distribution of a node
/// given one combination of states of its parents.
#[derive(Clone, Debug, PartialEq, Eq)]
pub struct CptRow {
    /// The state of each parent, in the order in which the node lists them.
    pub given: Vec<State>,
    /// The weight of each of the node's own states, in parts of [`UNIT`].
    pub weights: Vec<(State, u32)>,
}

/// One random variable of a network.
#[derive(Clone, Debug, PartialEq, Eq)]
pub struct NodeDefinition {
    pub name: String,
    /// The ids of the parents; their order is the order of a row's `given`.
    pub parents: Vec<usize>,
    /// The states the node can take, in the order in which they are drawn.
    pub domain: Vec<State>,
    pub rows: Vec<CptRow>,
}

/// The mathematical value of a [`CptRow`].
pub struct RowModel {
    pub given: Seq<StateModel>,
    pub weights: Seq<(StateModel, u32)>,
}

/// The mathematical value of a [`NodeDefinition`].
pub struct NodeDefinitionModel {
    pub name: Seq<char>,
    pub parents: Seq<usize>,
    pub domain: Seq<StateModel>,
    pub rows: Seq<RowModel>,
}

impl DeepView for CptRow {
    type V = RowModel;

    open spec fn deep_view(&self) -> RowModel {
        RowModel { given: self.given.deep_view(), weights: self.weights.deep_view() }
    }
}

impl DeepView for NodeDefinition {
    type V = NodeDefinitionModel;

    open spec fn deep_view(&self) -> NodeDefinitionModel {
        NodeDefinitionModel {
            name: self.name@,
            parents: self.parents@,
            domain: self.domain.deep_view(),
            rows: self.rows.deep_view(),
        }
    }
}

/// The sum of the weights of a distribution.
pub open spec fn total(weights: Seq<(StateModel, u32)>) -> int
    decreases weights.len(),
{
    if weights.len() == 0 {
        0
    } else {
        total(weights.drop_last()) + weights.last().1
    }
}

/// Whether some node of `nodes` is called `name`.
pub open spec fn name_taken(nodes: Seq<NodeDefinitionModel>, name: Seq<char>) -> bool {
    exists|i: int| 0 <= i < nodes.len() && #[trigger] nodes[i].name == name
}

/// Whether the parent relation only leads back to nodes registered earlier.
pub open spec fn parents_precede(nodes: Seq<NodeDefinitionModel>, node: NodeDefinitionModel) -> bool {
    forall|k: int| 0 <= k < node.parents.len() ==> #[trigger] node.parents[k] < nodes.len()
}

/// The domains of the parents of `node`, in the order of its parents.
pub open spec fn parent_domains(nodes: Seq<NodeDefinitionModel>, parents: Seq<usize>) -> Seq<
    Seq<StateModel>,
> {
    Seq::new(parents.len(), |k: int| nodes[parents[k] as int].domain)
}

/// Whether `combination` gives each parent one state of its domain.
pub open spec fn is_combination(domains: Seq<Seq<StateModel>>, combination: Seq<StateModel>) -> bool {
    &&& combination.len() == domains.len()
    &&& forall|k: int| 0 <= k < domains.len() ==> #[trigger] domains[k].contains(combination[k])
}

/// Whether a table has a row for `combination`.
pub open spec fn has_row_for(rows: Seq<RowModel>, combination: Seq<StateModel>) -> bool {
    exists|r: int| 0 <= r < rows.len() && #[trigger] rows[r].given == combination
}

/// Whether a table has a row for every combination of parent states.
pub open spec fn covered(rows: Seq<RowModel>, domains: Seq<Seq<StateModel>>) -> bool {
    forall|combination: Seq<StateModel>| #[trigger]
        is_combination(domains, combination) ==> has_row_for(rows, combination)
}

/// Whether a table has a row for every combination of parent states that
/// begins with `prefix`.
pub open spec fn covered_from(
    rows: Seq<RowModel>,
    domains: Seq<Seq<StateModel>>,
    prefix: Seq<StateModel>,
) -> bool {
    forall|combination: Seq<StateModel>| #[trigger]
        is_combination(domains, combination) && combination.take(prefix.len() as int) == prefix
            ==> has_row_for(rows, combination)
}

/// Whether row `r` of a table has the same `given` as a row before it.
pub open spec fn repeats(rows: Seq<RowModel>, r: int) -> bool {
    exists|q: int| 0 <= q < r && #[trigger] rows[q].given == rows[r].given
}

/// Whether some weight is given to a state outside `domain`.
pub open spec fn strays(weights: Seq<(StateModel, u32)>, domain: Seq<StateModel>) -> bool {
    exists|w: int| 0 <= w < weights.len() && !domain.contains(#[trigger] weights[w].0)
}

/// Whether two weights are given to the same state.
pub open spec fn doubles(weights: Seq<(StateModel, u32)>) -> bool {
    exists|v: int, w: int|
        0 <= v < w < weights.len() && #[trigger] weights[v].0 == #[trigger] weights[w].0
}

/// Whether row `r` of a table is malformed: its `given` is no combination of
/// parent states or repeats that of an earlier row, or its weights name a
/// state outside the node's domain or name one state twice.
pub open spec fn malformed(
    rows: Seq<RowModel>,
    domains: Seq<Seq<StateModel>>,
    domain: Seq<StateModel>,
    r: int,
) -> bool {
    ||| !is_combination(domains, rows[r].given)
    ||| repeats(rows, r)
    ||| strays(rows[r].weights, domain)
    ||| doubles(rows[r].weights)
}

/// Whether the weights of row `r` sum to [`UNIT`].
pub open spec fn normalized(rows: Seq<RowModel>, r: int) -> bool {
    total(rows[r].weights) == UNIT
}

/// Whether `node` may follow `nodes`: its name is new, its parents are among
/// `nodes`, no row of its table is malformed, the table has a row for every
/// combination of parent states, and every row sums to [`UNIT`].
pub open spec fn acceptable(nodes: Seq<NodeDefinitionModel>, node: NodeDefinitionModel) -> bool {
    let domains = parent_domains(nodes, node.parents);
    &&& !name_taken(nodes, node.name)
    &&& parents_precede(nodes, node)
    &&& forall|r: int| 0 <= r < node.rows.len() ==> !malformed(node.rows, domains, node.domain, r)
    &&& covered(node.rows, domains)
    &&& forall|r: int| 0 <= r < node.rows.len() ==> normalized(node.rows, r)
}

/// Whether each node of `nodes` may follow those before it.
pub open spec fn valid(nodes: Seq<NodeDefinitionModel>) -> bool {
    forall|i: int| 0 <= i < nodes.len() ==> acceptable(nodes.take(i), #[trigger] nodes[i])
}

/// A copy of a sequence of states.
pub(crate) fn copy_states(states: &Vec<State>) -> (copy: Vec<State>)
    ensures
        copy.deep_view() == states.deep_view(),
{
    let mut copy: Vec<State> = Vec::new();
    let mut k: usize = 0;
    while k < states.len()
        invariant
            k <= states@.len(),
            copy@.len() == k,
            forall|j: int| 0 <= j < k ==> copy@[j]@ == states@[j]@,
        decreases states@.len() - k,
    {
        copy.push(states[k].duplicate());
        k += 1;
    }
    assert(copy.deep_view() =~= states.deep_view());
    copy
}

/// A copy of a distribution.
pub(crate) fn copy_weights(weights: &Vec<(State, u32)>) -> (copy: Vec<(State, u32)>)
    ensures
        copy.deep_view() == weights.deep_view(),
{
    let mut copy: Vec<(State, u32)> = Vec::new();
    let mut k: usize = 0;
    while k < weights.len()
        invariant
            k <= weights@.len(),
            copy@.len() == k,
            forall|j: int| 0 <= j < k ==> copy@[j].0@ == weights@[j].0@ && copy@[j].1 == weights@[j].1,
        decreases weights@.len() - k,
    {
        copy.push((weights[k].0.duplicate(), weights[k].1));
        k += 1;
    }
    assert(copy.deep_view() =~= weights.deep_view());
    copy
}

/// A copy of a table.
pub(crate) fn copy_rows(rows: &Vec<CptRow>) -> (copy: Vec<CptRow>)
    ensures
        copy.deep_view() == rows.deep_view(),
{
    let mut copy: Vec<CptRow> = Vec::new();
    let mut r: usize = 0;
    while r < rows.len()
        invariant
            r <= rows@.len(),
            copy@.len() == r,
            forall|q: int| 0 <= q < r ==> copy@[q].deep_view() == rows@[q].deep_view(),
        decreases rows@.len() - r,
    {
        copy.push(
            CptRow { given: copy_states(&rows[r].given), weights: copy_weights(&rows[r].weights) },
        );
        r += 1;
    }
    assert(copy.deep_view() =~= rows.deep_view());
    copy
}

/// Whether two sequences of states are the same.
pub(crate) fn same_states(a: &Vec<State>, b: &Vec<State>) -> (same: bool)
    ensures
        same == (a.deep_view() == b.deep_view()),
{
    if a.len() != b.len() {
        assert(a.deep_view().len() != b.deep_view().len());
        return false;
    }
    let mut k: usize = 0;
    while k < a.len()
        invariant
            a@.len() == b@.len(),
            k <= a@.len(),
            forall|j: int| 0 <= j < k ==> a@[j]@ == b@[j]@,
        decreases a@.len() - k,
    {
        if !a[k].same_as(&b[k]) {
            assert(a.deep_view()[k as int] != b.deep_view()[k as int]);
            return false;
        }
        k += 1;
    }
    assert(a.deep_view() =~= b.deep_view());
    true
}

/// Whether `state` is one of `domain`.
pub(crate) fn holds(domain: &Vec<State>, state: &State) -> (found: bool)
    ensures
        found == domain.deep_view().contains(state@),
{
    let mut k: usize = 0;
    while k < domain.len()
        invariant
            k <= domain@.len(),
            forall|j: int| 0 <= j < k ==> domain@[j]@ != state@,
        decreases domain@.len() - k,
    {
        if domain[k].same_as(state) {
            assert(domain.deep_view()[k as int] == state@);
            return true;
        }
        k += 1;
    }
    assert forall|j: int| 0 <= j < domain.deep_view().len() implies domain.deep_view()[j]
        != state@ by {
        assert(domain.deep_view()[j] == domain@[j]@);
    }
    false
}

/// The position of the first node called `name`, if there is one.
pub(crate) fn find_name(nodes: &Vec<NodeDefinition>, name: &str) -> (found: Option<usize>)
    ensures
        match found {
            Some(i) => {
                &&& i < nodes@.len()
                &&& nodes.deep_view()[i as int].name == name@
                &&& forall|j: int| 0 <= j < i ==> nodes.deep_view()[j].name != name@
            },
            None => !name_taken(nodes.deep_view(), name@),
        },
{
    let mut i: usize = 0;
    while i < nodes.len()
        invariant
            i <= nodes@.len(),
            forall|j: int| 0 <= j < i ==> nodes.deep_view()[j].name != name@,
        decreases nodes@.len() - i,
    {
        if same_text(nodes[i].name.as_str(), name) {
            return Some(i);
        }
        i += 1;
    }
    None
}

/// Whether the weights of a distribution sum to [`UNIT`].
pub(crate) fn sums_to_unit(weights: &Vec<(State, u32)>) -> (exact: bool)
    ensures
        exact == (total(weights.deep_view()) == UNIT),
{
    let mut sum: u64 = 0;
    let mut k: usize = 0;
    while k < weights.len()
        invariant
            k <= weights@.len(),
            sum == total(weights.deep_view().take(k as int)),
            sum <= UNIT,
        decreases weights@.len() - k,
    {
        assert(weights.deep_view().take(k + 1).drop_last() =~= weights.deep_view().take(k as int));
        sum = sum + weights[k].1 as u64;
        k += 1;
        if sum > UNIT as u64 {
            proof {
                lemma_total_grows(weights.deep_view(), k as int);
            }
            return false;
        }
    }
    assert(weights.deep_view().take(k as int) =~= weights.deep_view());
    sum == UNIT as u64
}

/// Whether `given` gives each parent one state of its domain.
pub(crate) fn is_parent_combination(
    nodes: &Vec<NodeDefinition>,
    parents: &Vec<usize>,
    given: &Vec<State>,
) -> (ok: bool)
    requires
        forall|k: int| 0 <= k < parents@.len() ==> parents@[k] < nodes@.len(),
    ensures
        ok == is_combination(parent_domains(nodes.deep_view(), parents@), given.deep_view()),
{
    let ghost domains = parent_domains(nodes.deep_view(), parents@);
    if given.len() != parents.len() {
        return false;
    }
    let mut k: usize = 0;
    while k < parents.len()
        invariant
            given@.len() == parents@.len(),
            k <= parents@.len(),
            domains == parent_domains(nodes.deep_view(), parents@),
            forall|k: int| 0 <= k < parents@.len() ==> parents@[k] < nodes@.len(),
            forall|j: int| 0 <= j < k ==> (#[trigger] domains[j]).contains(given.deep_view()[j]),
        decreases parents@.len() - k,
    {
        if !holds(&nodes[parents[k]].domain, &given[k]) {
            assert(!domains[k as int].contains(given.deep_view()[k as int]));
            return false;
        }
        k += 1;
    }
    true
}

/// Whether row `r` has the same `given` as a row before it.
pub(crate) fn repeats_earlier(rows: &Vec<CptRow>, r: usize) -> (repeated: bool)
    requires
        r < rows@.len(),
    ensures
        repeated == repeats(rows.deep_view(), r as int),
{
    let mut q: usize = 0;
    while q < r
        invariant
            q <= r < rows@.len(),
            forall|p: int|
                0 <= p < q ==> #[trigger] rows.deep_view()[p].given != rows.deep_view()[r as int].given,
        decreases r - q,
    {
        if same_states(&rows[q].given, &rows[r].given) {
            assert(rows.deep_view()[q as int].given == rows.deep_view()[r as int].given);
            return true;
        }
        q += 1;
    }
    false
}

/// Whether some weight is given to a state outside `domain`.
pub(crate) fn names_outside(weights: &Vec<(State, u32)>, domain: &Vec<State>) -> (outside: bool)
    ensures
        outside == strays(weights.deep_view(), domain.deep_view()),
{
    let mut w: usize = 0;
    while w < weights.len()
        invariant
            w <= weights@.len(),
            forall|v: int|
                0 <= v < w ==> domain.deep_view().contains(#[trigger] weights.deep_view()[v].0),
        decreases weights@.len() - w,
    {
        if !holds(domain, &weights[w].0) {
            assert(!domain.deep_view().contains(weights.deep_view()[w as int].0));
            return true;
        }
        w += 1;
    }
    false
}

/// Whether two weights are given to the same state.
pub(crate) fn names_twice(weights: &Vec<(State, u32)>) -> (twice: bool)
    ensures
        twice == doubles(weights.deep_view()),
{
    let mut w: usize = 0;
    while w < weights.len()
        invariant
            w <= weights@.len(),
            forall|a: int, b: int|
                0 <= a < b < w ==> #[trigger] weights.deep_view()[a].0
                    != #[trigger] weights.deep_view()[b].0,
        decreases weights@.len() - w,
    {
        let mut v: usize = 0;
        while v < w
            invariant
                v <= w < weights@.len(),
                forall|a: int|
                    0 <= a < v ==> #[trigger] weights.deep_view()[a].0
                        != weights.deep_view()[w as int].0,
            decreases w - v,
        {
            if weights[v].0.same_as(&weights[w].0) {
                assert(weights.deep_view()[v as int].0 == weights.deep_view()[w as int].0);
                return true;
            }
            v += 1;
        }
        w += 1;
    }
    false
}

/// Whether row `r` of a table is malformed.
pub(crate) fn is_malformed(
    rows: &Vec<CptRow>,
    nodes: &Vec<NodeDefinition>,
    parents: &Vec<usize>,
    domain: &Vec<State>,
    r: usize,
) -> (bad: bool)
    requires
        r < rows@.len(),
        forall|k: int| 0 <= k < parents@.len() ==> parents@[k] < nodes@.len(),
    ensures
        bad == malformed(
            rows.deep_view(),
            parent_domains(nodes.deep_view(), parents@),
            domain.deep_view(),
            r as int,
        ),
{
    assert(rows.deep_view()[r as int] == rows@[r as int].deep_view());
    !is_parent_combination(nodes, parents, &rows[r].given) || repeats_earlier(rows, r)
        || names_outside(&rows[r].weights, domain) || names_twice(&rows[r].weights)
}

/// The first malformed row of a table, if there is one.
pub(crate) fn first_malformed(
    rows: &Vec<CptRow>,
    nodes: &Vec<NodeDefinition>,
    parents: &Vec<usize>,
    domain: &Vec<State>,
) -> (found: Option<usize>)
    requires
        forall|k: int| 0 <= k < parents@.len() ==> parents@[k] < nodes@.len(),
    ensures
        match found {
            Some(r) => {
                &&& r < rows@.len()
                &&& malformed(
                    rows.deep_view(),
                    parent_domains(nodes.deep_view(), parents@),
                    domain.deep_view(),
                    r as int,
                )
                &&& forall|q: int|
                    0 <= q < r ==> !malformed(
                        rows.deep_view(),
                        parent_domains(nodes.deep_view(), parents@),
                        domain.deep_view(),
                        q,
                    )
            },
            None => forall|q: int|
                0 <= q < rows@.len() ==> !malformed(
                    rows.deep_view(),
                    parent_domains(nodes.deep_view(), parents@),
                    domain.deep_view(),
                    q,
                ),
        },
{
    let mut r: usize = 0;
    while r < rows.len()
        invariant
            r <= rows@.len(),
            forall|k: int| 0 <= k < parents@.len() ==> parents@[k] < nodes@.len(),
            forall|q: int|
                0 <= q < r ==> !malformed(
                    rows.deep_view(),
                    parent_domains(nodes.deep_view(), parents@),
                    domain.deep_view(),
                    q,
                ),
        decreases rows@.len() - r,
    {
        if is_malformed(rows, nodes, parents, domain, r) {
            return Some(r);
        }
        r += 1;
    }
    None
}

/// The first row of a table whose weights do not sum to [`UNIT`], if there
/// is one.
pub(crate) fn first_unnormalized(rows: &Vec<CptRow>) -> (found: Option<usize>)
    ensures
        match found {
            Some(r) => {
                &&& r < rows@.len()
                &&& !normalized(rows.deep_view(), r as int)
                &&& forall|q: int| 0 <= q < r ==> normalized(rows.deep_view(), q)
            },
            None => forall|q: int| 0 <= q < rows@.len() ==> normalized(rows.deep_view(), q),
        },
{
    let mut r: usize = 0;
    while r < rows.len()
        invariant
            r <= rows@.len(),
            forall|q: int| 0 <= q < r ==> normalized(rows.deep_view(), q),
        decreases rows@.len() - r,
    {
        assert(rows.deep_view()[r as int] == rows@[r as int].deep_view());
        if !sums_to_unit(&rows[r].weights) {
            return Some(r);
        }
        r += 1;
    }
    None
}

/// Whether a table has a row for `combination`.
pub(crate) fn has_row(rows: &Vec<CptRow>, combination: &Vec<State>) -> (found: bool)
    ensures
        found == has_row_for(rows.deep_view(), combination.deep_view()),
{
    let mut r: usize = 0;
    while r < rows.len()
        invariant
            r <= rows@.len(),
            forall|q: int|
                0 <= q < r ==> #[trigger] rows.deep_view()[q].given != combination.deep_view(),
        decreases rows@.len() - r,
    {
        if same_states(&rows[r].given, combination) {
            assert(rows.deep_view()[r as int].given == combination.deep_view());
            return true;
        }
        r += 1;
    }
    false
}

/// Whether a table has a row for every combination of parent states that
/// begins with `prefix`; `prefix` is left as it was found.
pub(crate) fn covers_from(
    rows: &Vec<CptRow>,
    nodes: &Vec<NodeDefinition>,
    parents: &Vec<usize>,
    prefix: &mut Vec<State>,
) -> (complete: bool)
    requires
        forall|k: int| 0 <= k < parents@.len() ==> parents@[k] < nodes@.len(),
        old(prefix)@.len() <= parents@.len(),
        forall|k: int|
            0 <= k < old(prefix)@.len() ==> (#[trigger] parent_domains(
                nodes.deep_view(),
                parents@,
            )[k]).contains(old(prefix).deep_view()[k]),
    ensures
        final(prefix)@ == old(prefix)@,
        complete == covered_from(
            rows.deep_view(),
            parent_domains(nodes.deep_view(), parents@),
            old(prefix).deep_view(),
        ),
    decreases parents@.len() - old(prefix)@.len(),
{
    let ghost table = rows.deep_view();
    let ghost domains = parent_domains(nodes.deep_view(), parents@);
    let ghost start = prefix.deep_view();
    let depth: usize = prefix.len();
    if depth == parents.len() {
        let found = has_row(rows, prefix);
        proof {
            assert(is_combination(domains, start));
            assert(start.take(start.len() as int) =~= start);
            if found {
                assert forall|c: Seq<StateModel>| #[trigger]
                    is_combination(domains, c) && c.take(start.len() as int)
                        == start implies has_row_for(table, c) by {
                    assert(c.take(start.len() as int) =~= c);
                }
            }
        }
        return found;
    }
    let domain = &nodes[parents[depth]].domain;
    assert(domain.deep_view() == domains[depth as int]);
    let mut j: usize = 0;
    while j < domain.len()
        invariant
            forall|k: int| 0 <= k < parents@.len() ==> parents@[k] < nodes@.len(),
            table == rows.deep_view(),
            domains == parent_domains(nodes.deep_view(), parents@),
            domain.deep_view() == domains[depth as int],
            prefix@ == old(prefix)@,
            start == prefix.deep_view(),
            depth == prefix@.len(),
            depth < parents@.len(),
            forall|k: int| 0 <= k < depth ==> (#[trigger] domains[k]).contains(start[k]),
            j <= domain@.len(),
            forall|i: int|
                0 <= i < j ==> covered_from(table, domains, start.push(#[trigger] domain.deep_view()[i])),
        decreases domain@.len() - j,
    {
        let ghost next = start.push(domain.deep_view()[j as int]);
        prefix.push(domain[j].duplicate());
        assert(prefix.deep_view() =~= next);
        assert(domains[depth as int].contains(next[depth as int]));
        let below = covers_from(rows, nodes, parents, prefix);
        let _ = prefix.pop();
        assert(prefix@ =~= old(prefix)@);
        if !below {
            proof {
                let c = choose|c: Seq<StateModel>| #[trigger]
                    is_combination(domains, c) && c.take(next.len() as int) == next
                        && !has_row_for(table, c);
                assert(c.take(start.len() as int) =~= next.take(start.len() as int));
                assert(next.take(start.len() as int) =~= start);
            }
            return false;
        }
        j += 1;
    }
    proof {
        assert forall|c: Seq<StateModel>| #[trigger]
            is_combination(domains, c) && c.take(start.len() as int) == start implies has_row_for(
            table,
            c,
        ) by {
            assert(domains[depth as int].contains(c[depth as int]));
            let i = choose|i: int|
                0 <= i < domains[depth as int].len() && domains[depth as int][i] == c[depth as int];
            assert(c.take(depth + 1) =~= start.push(domain.deep_view()[i]));
            assert(covered_from(table, domains, start.push(domain.deep_view()[i])));
        }
    }
    true
}

/// A table that is covered from the empty prefix on is covered.
pub(crate) proof fn lemma_covered_from_start(rows: Seq<RowModel>, domains: Seq<Seq<StateModel>>)
    ensures
        covered_from(rows, domains, Seq::empty()) == covered(rows, domains),
{
    assert forall|c: Seq<StateModel>| c.take(0) == Seq::<StateModel>::empty() by {
        assert(c.take(0) =~= Seq::<StateModel>::empty());
    }
}

/// The sum of the first `k` weights is no more than the sum of all.
proof fn lemma_total_grows(weights: Seq<(StateModel, u32)>, k: int)
    requires
        0 <= k <= weights.len(),
    ensures
        total(weights.take(k)) <= total(weights),
    decreases weights.len() - k,
{
    if k < weights.len() {
        assert(weights.take(k + 1).drop_last() =~= weights.take(k));
        lemma_total_grows(weights, k + 1);
    } else {
        assert(weights.take(k) =~= weights);
    }
}

} // verus!
