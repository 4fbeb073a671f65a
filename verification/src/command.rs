//! The command words, and what each command does to the list.

use vstd::prelude::*;

use crate::edit::{add_items, appended, mark_items, marked, remove_items, without};
use crate::error::CommandError;
use crate::ids::{all_named, ids_named, parse_ids, rejected_with};
use crate::item::{ItemView, TodoItem};

verus! {

/// What the user asks for.
#[derive(Debug, Clone, Copy, PartialEq, Eq)]
pub enum Command {
    /// Show the list.
    List,
    /// Add an open item for each operand.
    Add,
    /// Mark the items that the operands name as completed.
    Done,
    /// Mark the items that the operands name as open.
    Undo,
    /// Remove the items that the operands name.
    Remove,
    /// Show how the program is used.
    Help,
}

/// The lowercase form of a text, as `str::to_lowercase` of the standard
/// library gives it.
pub uninterp spec fn lowercase(text: Seq<char>) -> Seq<char>;

/// `str::to_lowercase`. The result follows the lowercase mappings of Unicode
/// and is named, not described.
#[verifier::external_body]
fn to_lowercase(text: &str) -> (lower: String)
    ensures
        lower@ == lowercase(text@),
{
    text.to_lowercase()
}

/// The command that a word in lower case names. `help` has three names.
pub open spec fn command_named(word: Seq<char>) -> Option<Command> {
    if word == "add"@ {
        Some(Command::Add)
    } else if word == "list"@ {
        Some(Command::List)
    } else if word == "done"@ {
        Some(Command::Done)
    } else if word == "undo"@ {
        Some(Command::Undo)
    } else if word == "remove"@ {
        Some(Command::Remove)
    } else if word == "help"@ || word == "-h"@ || word == "--help"@ {
        Some(Command::Help)
    } else {
        None
    }
}

/// Whether the command works on operands: names for `add`, ids for `done`,
/// `undo` and `remove`.
pub open spec fn needs_operands(command: Command) -> bool {
    command is Add || command is Done || command is Undo || command is Remove
}

fn same_text(a: &str, b: &str) -> (same: bool)
    ensures
        same == (a@ == b@),
{
    String::from_str(a) == String::from_str(b)
}

impl Command {
    /// The command that `word` names. The word is compared as it stands: the
    /// caller puts it in lower case first.
    pub fn from_word(word: &str) -> (r: Option<Command>)
        ensures
            r == command_named(word@),
    {
        if same_text(word, "add") {
            Some(Command::Add)
        } else if same_text(word, "list") {
            Some(Command::List)
        } else if same_text(word, "done") {
            Some(Command::Done)
        } else if same_text(word, "undo") {
            Some(Command::Undo)
        } else if same_text(word, "remove") {
            Some(Command::Remove)
        } else if same_text(word, "help") || same_text(word, "-h") || same_text(word, "--help") {
            Some(Command::Help)
        } else {
            None
        }
    }

    /// Whether the command works on operands.
    pub fn takes_operands(&self) -> (r: bool)
        ensures
            r == needs_operands(*self),
    {
        match self {
            Command::Add | Command::Done | Command::Undo | Command::Remove => true,
            Command::List | Command::Help => false,
        }
    }
}

/// Finds the command in the arguments of the program, of which the first is
/// the name of the program, the second the command word and the rest the
/// operands.
///
/// Without a command word the command is `list`. The word is taken in any
/// mix of upper and lower case. A word that names no command is an error that
/// holds the word as given, and so is a command that needs operands and has
/// none. Neither error depends on the list, so both are known before the file
/// is opened.
pub fn resolve_command(args: &[String]) -> (r: Result<Command, CommandError>)
    ensures
        match r {
            Ok(command) => {
                &&& args.len() <= 1 ==> command == Command::List
                &&& args.len() > 1 ==> command_named(lowercase(args@[1]@)) == Some(command)
                &&& needs_operands(command) ==> args.len() > 2
            },
            Err(CommandError::InvalidCommand(word)) => {
                &&& args.len() > 1
                &&& command_named(lowercase(args@[1]@)) is None
                &&& word@ == args@[1]@
            },
            Err(CommandError::MissingOperands(command)) => {
                &&& args.len() == 2
                &&& command_named(lowercase(args@[1]@)) == Some(command)
                &&& needs_operands(command)
            },
            Err(CommandError::InvalidIds(_)) => false,
        },
{
    if args.len() <= 1 {
        return Ok(Command::List);
    }
    let lower = to_lowercase(args[1].as_str());
    match Command::from_word(lower.as_str()) {
        None => Err(CommandError::InvalidCommand(args[1].clone())),
        Some(command) => {
            if command.takes_operands() && args.len() < 3 {
                Err(CommandError::MissingOperands(command))
            } else {
                Ok(command)
            }
        },
    }
}

/// The list that a command leaves, given the list it found and its operands.
/// `list` and `help` leave the list as it is.
pub open spec fn applied(command: Command, operands: Seq<String>, items: Seq<ItemView>) -> Seq<
    ItemView,
> {
    let ids = ids_named(operands, items.len() as usize);
    match command {
        Command::List | Command::Help => items,
        Command::Add => appended(items, Seq::new(operands.len(), |k: int| operands[k]@)),
        Command::Done => marked(items, ids, true),
        Command::Undo => marked(items, ids, false),
        Command::Remove => without(items, ids),
    }
}

/// Whether the command reads its operands as ids.
pub open spec fn takes_ids(command: Command) -> bool {
    command is Done || command is Undo || command is Remove
}

/// Whether the command can be run with these operands on a list of `len`
/// items: it has operands where it needs them, and where it reads them as ids,
/// each of them names an item.
pub open spec fn accepted(command: Command, operands: Seq<String>, len: usize) -> bool {
    &&& needs_operands(command) ==> operands.len() > 0
    &&& takes_ids(command) ==> all_named(operands, len)
}

/// Whether `e` says why the command cannot be run with these operands on a
/// list of `len` items: the operands are missing, or else the first operand
/// that names no item is refused.
pub open spec fn refused_with(
    command: Command,
    operands: Seq<String>,
    len: usize,
    e: CommandError,
) -> bool {
    match e {
        CommandError::InvalidCommand(_) => false,
        CommandError::MissingOperands(c) => {
            &&& c == command
            &&& needs_operands(command)
            &&& operands.len() == 0
        },
        CommandError::InvalidIds(id_error) => {
            &&& takes_ids(command)
            &&& operands.len() > 0
            &&& rejected_with(operands, len, id_error)
        },
    }
}

/// Runs a command on the list. The result says whether the list has to be
/// written back to the file: it has after `add`, `done`, `undo` and `remove`,
/// and it has not after `list` and `help`, which change nothing and never
/// fail.
///
/// A command that needs operands and has none is an error. The operands of
/// `done`, `undo` and `remove` are all read before anything is changed; where
/// one of them names no item, the first such operand gives the error. After
/// an error the list is as it was, and nothing is to be written.
pub fn apply_command(command: Command, operands: &[String], todos: &mut Vec<TodoItem>) -> (r:
    Result<bool, CommandError>)
    ensures
        r is Ok <==> accepted(command, operands@, old(todos).len()),
        match r {
            Ok(changed) => {
                &&& changed == needs_operands(command)
                &&& !changed ==> *final(todos) == *old(todos)
                &&& final(todos).deep_view() == applied(command, operands@, old(todos).deep_view())
            },
            Err(e) => {
                &&& *final(todos) == *old(todos)
                &&& refused_with(command, operands@, old(todos).len(), e)
            },
        },
{
    match command {
        Command::List | Command::Help => Ok(false),
        Command::Add => {
            if operands.len() == 0 {
                return Err(CommandError::MissingOperands(command));
            }
            add_items(todos, operands);
            Ok(true)
        },
        Command::Done | Command::Undo | Command::Remove => {
            if operands.len() == 0 {
                return Err(CommandError::MissingOperands(command));
            }
            let ids = match parse_ids(operands, todos.len()) {
                Ok(ids) => ids,
                Err(e) => {
                    return Err(CommandError::InvalidIds(e));
                },
            };
            match command {
                Command::Done => mark_items(todos, ids.as_slice(), true),
                Command::Undo => mark_items(todos, ids.as_slice(), false),
                _ => remove_items(todos, ids.as_slice()),
            }
            Ok(true)
        },
    }
}

} // verus!
