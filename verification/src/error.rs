//! The ways in which reading the checklist or running a command fails, and
//! the error types of other libraries that are carried along.

use vstd::prelude::*;

use crate::command::Command;

verus! {

/// `regex::Error`, which `Regex::new` returns for a pattern that it cannot
/// compile. Nothing is known of a value of it.
#[verifier::external_type_specification]
#[verifier::external_body]
pub struct ExRegexError(regex::Error);

/// `std::io::Error`, with which reading a line of the file fails. Nothing is
/// known of a value of it.
#[verifier::external_type_specification]
#[verifier::external_body]
pub struct ExIoError(std::io::Error);

/// `std::num::ParseIntError`, with which `str::parse` fails. Nothing is known
/// of a value of it.
#[verifier::external_type_specification]
#[verifier::external_body]
pub struct ExParseIntError(std::num::ParseIntError);

/// Why the lines of the file gave no list.
#[derive(Debug)]
pub enum ParseTodosError {
    /// The pattern for the lines was not accepted as a regular expression.
    /// The pattern of this library is one that is accepted, so that reading a
    /// line never ends in this error.
    RegexError(regex::Error),
    /// A line could not be read.
    IoError(std::io::Error),
    /// A line holds no item. The line is kept as it was read.
    InvalidSyntax(String),
}

impl From<regex::Error> for ParseTodosError {
    fn from(err: regex::Error) -> (e: ParseTodosError) {
        ParseTodosError::RegexError(err)
    }
}

impl vstd::std_specs::convert::FromSpecImpl<regex::Error> for ParseTodosError {
    open spec fn obeys_from_spec() -> bool {
        true
    }

    open spec fn from_spec(err: regex::Error) -> ParseTodosError {
        ParseTodosError::RegexError(err)
    }
}

impl From<std::io::Error> for ParseTodosError {
    fn from(err: std::io::Error) -> (e: ParseTodosError) {
        ParseTodosError::IoError(err)
    }
}

impl vstd::std_specs::convert::FromSpecImpl<std::io::Error> for ParseTodosError {
    open spec fn obeys_from_spec() -> bool {
        true
    }

    open spec fn from_spec(err: std::io::Error) -> ParseTodosError {
        ParseTodosError::IoError(err)
    }
}

/// Why the id operands of a command were not accepted.
#[derive(Debug, PartialEq, Eq)]
pub enum ParseIdsError {
    /// An operand is a number, but no item has that position.
    InvalidId(usize),
    /// An operand is not a number that fits the machine word.
    ParseError(std::num::ParseIntError),
}

impl From<std::num::ParseIntError> for ParseIdsError {
    fn from(err: std::num::ParseIntError) -> (e: ParseIdsError) {
        ParseIdsError::ParseError(err)
    }
}

impl vstd::std_specs::convert::FromSpecImpl<std::num::ParseIntError> for ParseIdsError {
    open spec fn obeys_from_spec() -> bool {
        true
    }

    open spec fn from_spec(err: std::num::ParseIntError) -> ParseIdsError {
        ParseIdsError::ParseError(err)
    }
}

/// Why a command was not run.
#[derive(Debug, PartialEq, Eq)]
pub enum CommandError {
    /// The first argument is no command word. It is kept as it was given.
    InvalidCommand(String),
    /// The command needs operands and has none.
    MissingOperands(Command),
    /// An operand does not name an item of the list.
    InvalidIds(ParseIdsError),
}

} // verus!
