//! The value a random variable can take, and the rule that reads one from text.

use vstd::prelude::*;
use vstd::string::StringExecFns;

verus! {

/// One outcome of a random variable: a boolean, or a named category.
#[derive(Clone, Debug, PartialEq, Eq, Hash)]
pub enum State {
    True,
    False,
    Named(String),
}

/// The mathematical value of a [`State`].
pub enum StateModel {
    True,
    False,
    Named(Seq<char>),
}

impl View for State {
    type V = StateModel;

    open spec fn view(&self) -> StateModel {
        match self {
            State::True => StateModel::True,
            State::False => StateModel::False,
            State::Named(name) => StateModel::Named(name@),
        }
    }
}

impl DeepView for State {
    type V = StateModel;

    open spec fn deep_view(&self) -> StateModel {
        self@
    }
}

/// The lowercase form of a text, as `str::to_lowercase` computes it.
pub uninterp spec fn lowercase_of(text: Seq<char>) -> Seq<char>;

/// `str::to_lowercase`: the result is the lowercase form of the argument, a
/// function of the text alone.
#[verifier::external_body]
fn lowercase(text: &str) -> (lowered: String)
    ensures
        lowered@ == lowercase_of(text@),
{
    text.to_lowercase()
}

impl StateModel {
    /// The state that a text stands for, given the text's lowercase form:
    /// `true` and `false` are the booleans, anything else names a category.
    pub open spec fn parsed(text: Seq<char>, lowered: Seq<char>) -> StateModel {
        if lowered == seq!['t', 'r', 'u', 'e'] {
            StateModel::True
        } else if lowered == seq!['f', 'a', 'l', 's', 'e'] {
            StateModel::False
        } else {
            StateModel::Named(text)
        }
    }

    /// The text under which a state is reported.
    pub open spec fn label(self) -> Seq<char> {
        match self {
            StateModel::True => seq!['T', 'r', 'u', 'e'],
            StateModel::False => seq!['F', 'a', 'l', 's', 'e'],
            StateModel::Named(name) => name,
        }
    }
}

impl State {
    /// Reads a state from free-form text: `true` and `false` in any letter
    /// case are the booleans, every other text is a category of that name.
    pub fn from_str(text: &str) -> (state: State)
        ensures
            state@ == StateModel::parsed(text@, lowercase_of(text@)),
    {
        let lowered = lowercase(text);
        State::classify(text, lowered.as_str())
    }

    /// Decides which state `text` stands for once its lowercase form is known.
    pub fn classify(text: &str, lowered: &str) -> (state: State)
        ensures
            state@ == StateModel::parsed(text@, lowered@),
    {
        let lowered = String::from_str(lowered);
        proof {
            reveal_strlit("true");
            reveal_strlit("false");
        }
        if lowered == String::from_str("true") {
            assert(lowered@ =~= seq!['t', 'r', 'u', 'e']);
            State::True
        } else if lowered == String::from_str("false") {
            assert(lowered@ =~= seq!['f', 'a', 'l', 's', 'e']);
            State::False
        } else {
            assert("true"@ =~= seq!['t', 'r', 'u', 'e']);
            assert("false"@ =~= seq!['f', 'a', 'l', 's', 'e']);
            State::Named(String::from_str(text))
        }
    }

    /// Whether two states are the same value.
    pub fn same_as(&self, other: &State) -> (same: bool)
        ensures
            same == (self@ == other@),
    {
        match (self, other) {
            (State::True, State::True) => true,
            (State::False, State::False) => true,
            (State::Named(a), State::Named(b)) => *a == *b,
            _ => false,
        }
    }

    /// A copy of this state.
    pub fn duplicate(&self) -> (copy: State)
        ensures
            copy@ == self@,
    {
        match self {
            State::True => State::True,
            State::False => State::False,
            State::Named(name) => State::Named(name.clone()),
        }
    }

    /// The text under which this state is reported.
    pub fn label(&self) -> (text: String)
        ensures
            text@ == self@.label(),
    {
        proof {
            reveal_strlit("True");
            reveal_strlit("False");
        }
        match self {
            State::True => {
                assert("True"@ =~= seq!['T', 'r', 'u', 'e']);
                String::from_str("True")
            },
            State::False => {
                assert("False"@ =~= seq!['F', 'a', 'l', 's', 'e']);
                String::from_str("False")
            },
            State::Named(name) => name.clone(),
        }
    }
}

} // verus!
