use std::io;

use todo_list::{
    run_command, Command, CommandError, Outcome, ParseIdsError, ParseTodosError, RunError,
    TodoItem,
};

fn operands(words: &[&str]) -> Vec<String> {
    words.iter().map(|word| word.to_string()).collect()
}

fn file(lines: &[&str]) -> Vec<io::Result<String>> {
    lines.iter().map(|line| Ok(line.to_string())).collect()
}

fn chore(name: &str, done: bool) -> TodoItem {
    TodoItem { name: name.to_string(), done }
}

const ALL: [Command; 6] =
    [Command::List, Command::Add, Command::Done, Command::Undo, Command::Remove, Command::Help];

#[test]
fn list_shows_the_file_and_asks_for_no_write() {
    let outcome = run_command(Command::List, &[], file(&["- [ ] task1", "- [X] task2"])).unwrap();
    assert_eq!(
        outcome,
        Outcome { todos: vec![chore("task1", false), chore("task2", true)], changed: false }
    );
}

#[test]
fn list_of_an_empty_file_is_empty() {
    let outcome = run_command(Command::List, &[], Vec::new()).unwrap();
    assert_eq!(outcome, Outcome { todos: Vec::new(), changed: false });
}

#[test]
fn add_to_an_empty_file_asks_for_a_write() {
    let outcome = run_command(Command::Add, &operands(&["first"]), Vec::new()).unwrap();
    assert_eq!(outcome, Outcome { todos: vec![chore("first", false)], changed: true });
}

#[test]
fn done_asks_for_a_write_even_where_the_item_was_completed() {
    let outcome = run_command(Command::Done, &operands(&["1"]), file(&["- [X] a"])).unwrap();
    assert_eq!(outcome, Outcome { todos: vec![chore("a", true)], changed: true });
}

#[test]
fn remove_counts_positions_in_the_file() {
    let lines = file(&["- [ ] a", "- [X] b", "- [ ] c"]);
    let outcome = run_command(Command::Remove, &operands(&["3", "1"]), lines).unwrap();
    assert_eq!(outcome, Outcome { todos: vec![chore("b", true)], changed: true });
}

#[test]
fn bad_line_fails_every_command() {
    for command in ALL {
        let lines = file(&["- [ ] fine", "not a todo line"]);
        match run_command(command, &operands(&["1"]), lines) {
            Err(RunError::Parse(ParseTodosError::InvalidSyntax(text))) => {
                assert_eq!(text, "not a todo line")
            }
            other => panic!("{:?}: expected a syntax error, got {:?}", command, other),
        }
    }
}

#[test]
fn failed_read_fails_every_command() {
    for command in ALL {
        let lines = vec![Err(io::Error::new(io::ErrorKind::Other, "broken"))];
        match run_command(command, &operands(&["1"]), lines) {
            Err(RunError::Parse(ParseTodosError::IoError(e))) => {
                assert_eq!(e.to_string(), "broken")
            }
            other => panic!("{:?}: expected an i/o error, got {:?}", command, other),
        }
    }
}

#[test]
fn bad_line_is_reported_before_bad_operands() {
    let lines = file(&["bad"]);
    assert!(matches!(
        run_command(Command::Done, &operands(&["0", "x"]), lines),
        Err(RunError::Parse(ParseTodosError::InvalidSyntax(_)))
    ));
    let lines = file(&["bad"]);
    assert!(matches!(
        run_command(Command::Add, &[], lines),
        Err(RunError::Parse(ParseTodosError::InvalidSyntax(_)))
    ));
}

#[test]
fn invalid_id_leaves_nothing_to_write() {
    for id in ["0", "3", "99"] {
        let lines = file(&["- [ ] a", "- [ ] b"]);
        match run_command(Command::Remove, &operands(&["1", id]), lines) {
            Err(RunError::Command(CommandError::InvalidIds(ParseIdsError::InvalidId(n)))) => {
                assert_eq!(n.to_string(), id)
            }
            other => panic!("expected an invalid id, got {:?}", other),
        }
    }
}

#[test]
fn missing_operands_leave_nothing_to_write() {
    for command in [Command::Add, Command::Done, Command::Undo, Command::Remove] {
        match run_command(command, &[], file(&["- [ ] a"])) {
            Err(RunError::Command(CommandError::MissingOperands(c))) => assert_eq!(c, command),
            other => panic!("expected missing operands, got {:?}", other),
        }
    }
}

#[test]
fn text_before_the_marker_fails_every_command() {
    for command in ALL {
        match run_command(command, &operands(&["1"]), file(&["x- [ ] a"])) {
            Err(RunError::Parse(ParseTodosError::InvalidSyntax(text))) => {
                assert_eq!(text, "x- [ ] a")
            }
            other => panic!("{:?}: expected a syntax error, got {:?}", command, other),
        }
    }
}
