//! The command layer: what each command does to the store, what it prints,
//! and whether the store has to be written back afterwards.
//!
//! `dispatch` decides; reading arguments, printing and writing the file are
//! left to the caller.

use crate::status::TodoState;
use crate::store::{completed, inserted_all, listing, Todo};
use vstd::prelude::*;
use vstd::string::*;

verus! {

/// One invocation of the tool.
#[derive(Debug, PartialEq, Eq)]
pub enum Command {
    /// Add each title as an `Active` task.
    Add { titles: Vec<String> },
    /// Mark a task `Complete`.
    Complete { title: String },
    /// List the tasks in the state that the label names.
    List { by_state: Option<String> },
    /// Edit a task. Nothing is edited yet: the title is acknowledged.
    Edit { title: String },
}

/// A command that cannot be carried out as it was given.
#[derive(Clone, Copy, Debug, PartialEq, Eq, Structural)]
pub enum UsageError {
    /// `Add` without a title.
    NoTitles,
    /// `List` without a status label.
    MissingStatus,
    /// `List` with a text that is no status label.
    UnrecognizedStatus,
}

/// What the caller has to do after a command.
#[derive(Debug, PartialEq, Eq)]
pub struct Reply {
    /// The lines to print, in order.
    pub lines: Vec<String>,
    /// Whether the store was changed and has to be written back.
    pub save: bool,
}

/// The line that lists a task.
pub open spec fn list_line(state: TodoState, title: Seq<char>) -> Seq<char> {
    state.label_spec() + ": \""@ + title + "\""@
}

/// The lines that list the given titles, in their order.
pub open spec fn list_lines(state: TodoState, titles: Seq<Seq<char>>) -> Seq<Seq<char>> {
    Seq::new(titles.len(), |i: int| list_line(state, titles[i]))
}

/// The line that reports a title that the store does not hold.
pub open spec fn absent_line(title: Seq<char>) -> Seq<char> {
    "'"@ + title + "' is not present in the list"@
}

/// The line that acknowledges an edit.
pub open spec fn edit_line(title: Seq<char>) -> Seq<char> {
    "Edit todo: "@ + title
}

/// The line that reports how writing the store went: the confirmation, or
/// the failure with its reason.
pub open spec fn save_line(failure: Option<Seq<char>>) -> Seq<char> {
    match failure {
        None => "todo saved"@,
        Some(reason) => "An error occured: "@ + reason,
    }
}

/// The tasks after a command.
pub open spec fn tasks_after(tasks: Map<Seq<char>, TodoState>, command: Command) -> Map<
    Seq<char>,
    TodoState,
> {
    match command {
        Command::Add { titles } => inserted_all(tasks, titles.deep_view()),
        Command::Complete { title } => completed(tasks, title@),
        Command::List { by_state } => tasks,
        Command::Edit { title } => tasks,
    }
}

/// The reply that a command is owed on the given tasks.
///
/// `Add` and a `Complete` that found its task print nothing and ask for the
/// store to be written back. A `Complete` that found nothing, `List` and
/// `Edit` leave the store alone. `List` prints one line for each task in the
/// named state, in some order and each once.
pub open spec fn replies(
    tasks: Map<Seq<char>, TodoState>,
    command: Command,
    reply: Result<Reply, UsageError>,
) -> bool {
    match command {
        Command::Add { titles } => if titles@.len() == 0 {
            reply == Err::<Reply, UsageError>(UsageError::NoTitles)
        } else {
            reply matches Ok(r) && r.save && r.lines@.len() == 0
        },
        Command::Complete { title } => if tasks.contains_key(title@) {
            reply matches Ok(r) && r.save && r.lines@.len() == 0
        } else {
            reply matches Ok(r) && !r.save && r.lines.deep_view() == seq![absent_line(title@)]
        },
        Command::List { by_state } => match by_state {
            None => reply == Err::<Reply, UsageError>(UsageError::MissingStatus),
            Some(label) => match TodoState::parse_spec(label@) {
                None => reply == Err::<Reply, UsageError>(UsageError::UnrecognizedStatus),
                Some(state) => reply matches Ok(r) && !r.save && exists|titles: Seq<Seq<char>>|
                    #![trigger list_lines(state, titles)]
                    {
                        &&& titles.no_duplicates()
                        &&& titles.to_set() == listing(tasks, state)
                        &&& r.lines.deep_view() == list_lines(state, titles)
                    },
            },
        },
        Command::Edit { title } => reply matches Ok(r) && !r.save && r.lines.deep_view()
            == seq![edit_line(title@)],
    }
}

/// Renders the line that lists a task: its state's label, a colon, and the
/// title in double quotes.
pub fn render_task(state: TodoState, title: &str) -> (line: String)
    ensures
        line@ == list_line(state, title@),
{
    let mut line = String::from_str(state.label());
    line.append(": \"");
    line.append(title);
    line.append("\"");
    line
}

/// Renders one line for each title, in the order of the titles.
pub fn render_listing(state: TodoState, titles: &Vec<String>) -> (lines: Vec<String>)
    ensures
        lines.deep_view() == list_lines(state, titles.deep_view()),
{
    let mut lines: Vec<String> = Vec::new();
    let mut i: usize = 0;
    while i < titles.len()
        invariant
            i <= titles.len(),
            lines@.len() == i,
            forall|j: int| 0 <= j < i ==> (#[trigger] lines@[j])@ == list_line(state, titles@[j]@),
        decreases titles.len() - i,
    {
        lines.push(render_task(state, titles[i].as_str()));
        i += 1;
    }
    assert(lines.deep_view() =~= list_lines(state, titles.deep_view()));
    lines
}

/// Renders the report of a title that the store does not hold.
pub fn render_absent(title: &str) -> (line: String)
    ensures
        line@ == absent_line(title@),
{
    let mut line = String::from_str("'");
    line.append(title);
    line.append("' is not present in the list");
    line
}

/// Renders the acknowledgement of an edit.
pub fn render_edit(title: &str) -> (line: String)
    ensures
        line@ == edit_line(title@),
{
    let mut line = String::from_str("Edit todo: ");
    line.append(title);
    line
}

/// Renders the report of writing the store: `None` where it was written,
/// the reason where it was not.
pub fn render_saved(failure: Option<&str>) -> (line: String)
    ensures
        line@ == save_line(
            match failure {
                Some(reason) => Some(reason@),
                None => None,
            },
        ),
{
    match failure {
        None => String::from_str("todo saved"),
        Some(reason) => {
            let mut line = String::from_str("An error occured: ");
            line.append(reason);
            line
        },
    }
}

/// Carries out one command on the store.
pub fn dispatch(store: &mut Todo, command: &Command) -> (reply: Result<Reply, UsageError>)
    ensures
        final(store)@ == (if reply is Ok {
            tasks_after(old(store)@, *command)
        } else {
            old(store)@
        }),
        replies(old(store)@, *command, reply),
{
    match command {
        Command::Add { titles } => {
            if titles.len() == 0 {
                return Err(UsageError::NoTitles);
            }
            store.insert(titles);
            Ok(Reply { lines: Vec::new(), save: true })
        },
        Command::Complete { title } => {
            match store.complete(title) {
                Some(_) => Ok(Reply { lines: Vec::new(), save: true }),
                None => {
                    let mut lines: Vec<String> = Vec::new();
                    lines.push(render_absent(title.as_str()));
                    assert(lines.deep_view() =~= seq![absent_line(title@)]);
                    Ok(Reply { lines, save: false })
                },
            }
        },
        Command::List { by_state } => {
            match by_state {
                None => Err(UsageError::MissingStatus),
                Some(label) => match TodoState::from_str(label.as_str()) {
                    Err(_) => Err(UsageError::UnrecognizedStatus),
                    Ok(state) => {
                        let titles = store.list(state);
                        let lines = render_listing(state, &titles);
                        Ok(Reply { lines, save: false })
                    },
                },
            }
        },
        Command::Edit { title } => {
            let mut lines: Vec<String> = Vec::new();
            lines.push(render_edit(title.as_str()));
            assert(lines.deep_view() =~= seq![edit_line(title@)]);
            Ok(Reply { lines, save: false })
        },
    }
}

} // verus!
