//! One run of a command, from the lines of the file to the list it leaves.

use vstd::prelude::*;

use crate::command::{accepted, applied, apply_command, needs_operands, refused_with, Command};
use crate::error::{CommandError, ParseTodosError};
use crate::item::TodoItem;
use crate::store::{all_read, failed_with, items_read, parse_todos};

verus! {

/// What a run leaves: the list, and whether it has to be written back to the
/// file.
#[derive(Debug, PartialEq, Eq)]
pub struct Outcome {
    pub todos: Vec<TodoItem>,
    pub changed: bool,
}

/// Why a run left nothing.
#[derive(Debug)]
pub enum RunError {
    /// The lines of the file gave no list.
    Parse(ParseTodosError),
    /// The command was not run on the list.
    Command(CommandError),
}

/// Reads the list from the lines of the file and runs the command on it.
///
/// The lines are read first, whatever the command: where they give no list,
/// that is the error, and the operands are not looked at. Then the command is
/// run. After an error there is no list to write or to show; after `list` and
/// `help` there is nothing to write.
pub fn run_command(
    command: Command,
    operands: &[String],
    lines: Vec<Result<String, std::io::Error>>,
) -> (r: Result<Outcome, RunError>)
    ensures
        r is Ok <==> all_read(lines@) && accepted(command, operands@, lines.len()),
        match r {
            Ok(outcome) => {
                &&& outcome.changed == needs_operands(command)
                &&& outcome.todos.deep_view() == applied(command, operands@, items_read(lines@))
            },
            Err(RunError::Parse(e)) => !all_read(lines@) && failed_with(lines@, e),
            Err(RunError::Command(e)) => {
                &&& all_read(lines@)
                &&& refused_with(command, operands@, lines.len(), e)
            },
        },
{
    let ghost reads = lines@;
    let mut todos = match parse_todos(lines) {
        Ok(todos) => todos,
        Err(e) => {
            return Err(RunError::Parse(e));
        },
    };
    assert(todos.len() == todos.deep_view().len() == items_read(reads).len() == reads.len());
    match apply_command(command, operands, &mut todos) {
        Ok(changed) => Ok(Outcome { todos, changed }),
        Err(e) => Err(RunError::Command(e)),
    }
}

} // verus!
