//! The status of a task: a closed set of five states, each with a display
//! label and a stable ordinal under which it is persisted.

use vstd::prelude::*;
use vstd::string::*;

verus! {

/// The state of a task.
///
/// `Unknown` is never assigned to a task by the store: as a filter it selects
/// nothing.
#[derive(Clone, Copy, Debug, PartialEq, Eq, Structural)]
pub enum TodoState {
    Active,
    InProgress,
    Holding,
    Complete,
    Unknown,
}

/// The error of [`TodoState::from_str`]: the text is none of the five labels.
#[derive(Clone, Copy, Debug, PartialEq, Eq, Structural)]
pub struct UnrecognizedStatus;

impl TodoState {
    /// The display label of a state.
    pub open spec fn label_spec(self) -> Seq<char> {
        match self {
            TodoState::Active => "Active"@,
            TodoState::InProgress => "In-Progress"@,
            TodoState::Holding => "Holding"@,
            TodoState::Complete => "Complete"@,
            TodoState::Unknown => "Unknown"@,
        }
    }

    /// The state that a text names, if it is one of the five labels, letter
    /// for letter.
    pub open spec fn parse_spec(text: Seq<char>) -> Option<TodoState> {
        if text == "Active"@ {
            Some(TodoState::Active)
        } else if text == "In-Progress"@ {
            Some(TodoState::InProgress)
        } else if text == "Holding"@ {
            Some(TodoState::Holding)
        } else if text == "Complete"@ {
            Some(TodoState::Complete)
        } else if text == "Unknown"@ {
            Some(TodoState::Unknown)
        } else {
            None
        }
    }

    /// The ordinal under which a state is persisted.
    pub open spec fn ordinal_spec(self) -> u8 {
        match self {
            TodoState::Active => 0,
            TodoState::InProgress => 1,
            TodoState::Holding => 2,
            TodoState::Complete => 3,
            TodoState::Unknown => 4,
        }
    }

    /// The state with a given ordinal, if there is one.
    pub open spec fn from_ordinal_spec(ordinal: u8) -> Option<TodoState> {
        if ordinal == 0 {
            Some(TodoState::Active)
        } else if ordinal == 1 {
            Some(TodoState::InProgress)
        } else if ordinal == 2 {
            Some(TodoState::Holding)
        } else if ordinal == 3 {
            Some(TodoState::Complete)
        } else if ordinal == 4 {
            Some(TodoState::Unknown)
        } else {
            None
        }
    }

    /// Renders a state as its display label.
    pub fn label(&self) -> (text: &'static str)
        ensures
            text@ == self.label_spec(),
    {
        match self {
            TodoState::Active => "Active",
            TodoState::InProgress => "In-Progress",
            TodoState::Holding => "Holding",
            TodoState::Complete => "Complete",
            TodoState::Unknown => "Unknown",
        }
    }

    /// Parses a display label. The match is exact and case-sensitive; any
    /// other text is refused.
    pub fn from_str(text: &str) -> (parsed: Result<TodoState, UnrecognizedStatus>)
        ensures
            parsed == match TodoState::parse_spec(text@) {
                Some(state) => Ok::<TodoState, UnrecognizedStatus>(state),
                None => Err(UnrecognizedStatus),
            },
    {
        let owned = text.to_owned();
        if owned == "Active".to_owned() {
            Ok(TodoState::Active)
        } else if owned == "In-Progress".to_owned() {
            Ok(TodoState::InProgress)
        } else if owned == "Holding".to_owned() {
            Ok(TodoState::Holding)
        } else if owned == "Complete".to_owned() {
            Ok(TodoState::Complete)
        } else if owned == "Unknown".to_owned() {
            Ok(TodoState::Unknown)
        } else {
            Err(UnrecognizedStatus)
        }
    }

    /// The ordinal under which this state is persisted.
    pub fn ordinal(&self) -> (n: u8)
        ensures
            n == self.ordinal_spec(),
            n <= 4,
    {
        match self {
            TodoState::Active => 0,
            TodoState::InProgress => 1,
            TodoState::Holding => 2,
            TodoState::Complete => 3,
            TodoState::Unknown => 4,
        }
    }

    /// The state that an ordinal stands for; `None` for an ordinal above 4.
    pub fn from_ordinal(ordinal: u8) -> (state: Option<TodoState>)
        ensures
            state == TodoState::from_ordinal_spec(ordinal),
            state is Some <==> ordinal <= 4,
    {
        match ordinal {
            0 => Some(TodoState::Active),
            1 => Some(TodoState::InProgress),
            2 => Some(TodoState::Holding),
            3 => Some(TodoState::Complete),
            4 => Some(TodoState::Unknown),
            _ => None,
        }
    }

    /// Parsing is the inverse of rendering: the label of a state parses back
    /// to that state.
    pub proof fn lemma_parse_label(state: TodoState)
        ensures
            TodoState::parse_spec(state.label_spec()) == Some(state),
    {
        reveal_strlit("Active");
        reveal_strlit("In-Progress");
        reveal_strlit("Holding");
        reveal_strlit("Complete");
        reveal_strlit("Unknown");
        assert("Active"@.len() == 6);
        assert("In-Progress"@.len() == 11);
        assert("Holding"@.len() == 7);
        assert("Complete"@.len() == 8);
        assert("Unknown"@.len() == 7);
        assert("Holding"@[0] == 'H');
        assert("Unknown"@[0] == 'U');
    }

    /// Only a state's own label parses to it: a text that parses is the
    /// label of the state it parses to.
    pub proof fn lemma_label_parse(text: Seq<char>, state: TodoState)
        requires
            TodoState::parse_spec(text) == Some(state),
        ensures
            state.label_spec() == text,
    {
    }

    /// The ordinals are a stable encoding: each state is found again from
    /// its ordinal, and each ordinal up to 4 from its state.
    pub proof fn lemma_ordinal_round_trip(state: TodoState, ordinal: u8)
        ensures
            TodoState::from_ordinal_spec(state.ordinal_spec()) == Some(state),
            state.ordinal_spec() <= 4,
            TodoState::from_ordinal_spec(ordinal) is Some <==> ordinal <= 4,
            TodoState::from_ordinal_spec(ordinal) matches Some(found) ==> found.ordinal_spec()
                == ordinal,
    {
    }
}

} // verus!
