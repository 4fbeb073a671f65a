use std::io;

use todo_list::{
    apply_command, parse_todos, resolve_command, serialize_todos, Command, CommandError,
    ParseIdsError, TodoItem,
};

fn argv(args: &[&str]) -> Vec<String> {
    args.iter().map(|arg| arg.to_string()).collect()
}

fn job(name: &str, done: bool) -> TodoItem {
    TodoItem { name: name.to_string(), done }
}

fn list_of_three() -> Vec<TodoItem> {
    vec![job("one", false), job("two", false), job("three", true)]
}

#[test]
fn words_name_their_commands() {
    assert_eq!(Command::from_word("add"), Some(Command::Add));
    assert_eq!(Command::from_word("list"), Some(Command::List));
    assert_eq!(Command::from_word("done"), Some(Command::Done));
    assert_eq!(Command::from_word("undo"), Some(Command::Undo));
    assert_eq!(Command::from_word("remove"), Some(Command::Remove));
    assert_eq!(Command::from_word("help"), Some(Command::Help));
    assert_eq!(Command::from_word("-h"), Some(Command::Help));
    assert_eq!(Command::from_word("--help"), Some(Command::Help));
}

#[test]
fn other_words_name_no_command() {
    for word in ["", "ADD", "Add", "ad", "adds", " add", "delete", "-help", "--h", "rm", "1"] {
        assert_eq!(Command::from_word(word), None, "word {:?}", word);
    }
}

#[test]
fn commands_with_operands_are_the_four_that_change_the_list() {
    assert!(Command::Add.takes_operands());
    assert!(Command::Done.takes_operands());
    assert!(Command::Undo.takes_operands());
    assert!(Command::Remove.takes_operands());
    assert!(!Command::List.takes_operands());
    assert!(!Command::Help.takes_operands());
}

#[test]
fn no_command_word_means_list() {
    assert_eq!(resolve_command(&argv(&["todo"])), Ok(Command::List));
    assert_eq!(resolve_command(&[]), Ok(Command::List));
}

#[test]
fn command_word_is_found_in_any_case() {
    assert_eq!(resolve_command(&argv(&["todo", "list"])), Ok(Command::List));
    assert_eq!(resolve_command(&argv(&["todo", "LIST"])), Ok(Command::List));
    assert_eq!(resolve_command(&argv(&["todo", "Add", "x"])), Ok(Command::Add));
    assert_eq!(resolve_command(&argv(&["todo", "dOnE", "1"])), Ok(Command::Done));
    assert_eq!(resolve_command(&argv(&["todo", "UNDO", "1"])), Ok(Command::Undo));
    assert_eq!(resolve_command(&argv(&["todo", "Remove", "1", "2"])), Ok(Command::Remove));
    assert_eq!(resolve_command(&argv(&["todo", "HELP"])), Ok(Command::Help));
    assert_eq!(resolve_command(&argv(&["todo", "-H"])), Ok(Command::Help));
    assert_eq!(resolve_command(&argv(&["todo", "--Help"])), Ok(Command::Help));
}

#[test]
fn list_and_help_take_no_notice_of_operands() {
    assert_eq!(resolve_command(&argv(&["todo", "list", "extra"])), Ok(Command::List));
    assert_eq!(resolve_command(&argv(&["todo", "help", "extra"])), Ok(Command::Help));
}

#[test]
fn unknown_word_is_kept_as_given() {
    assert_eq!(
        resolve_command(&argv(&["todo", "Frobnicate", "1"])),
        Err(CommandError::InvalidCommand("Frobnicate".to_string()))
    );
    assert_eq!(
        resolve_command(&argv(&["todo", ""])),
        Err(CommandError::InvalidCommand(String::new()))
    );
}

#[test]
fn command_without_its_operands_is_refused() {
    assert_eq!(
        resolve_command(&argv(&["todo", "add"])),
        Err(CommandError::MissingOperands(Command::Add))
    );
    assert_eq!(
        resolve_command(&argv(&["todo", "DONE"])),
        Err(CommandError::MissingOperands(Command::Done))
    );
    assert_eq!(
        resolve_command(&argv(&["todo", "undo"])),
        Err(CommandError::MissingOperands(Command::Undo))
    );
    assert_eq!(
        resolve_command(&argv(&["todo", "remove"])),
        Err(CommandError::MissingOperands(Command::Remove))
    );
}

#[test]
fn list_changes_nothing_and_asks_for_no_write() {
    let mut todos = list_of_three();
    assert_eq!(apply_command(Command::List, &[], &mut todos), Ok(false));
    assert_eq!(todos, list_of_three());
    assert_eq!(apply_command(Command::List, &argv(&["9", "x"]), &mut todos), Ok(false));
    assert_eq!(todos, list_of_three());
}

#[test]
fn help_changes_nothing_and_asks_for_no_write() {
    let mut todos = list_of_three();
    assert_eq!(apply_command(Command::Help, &[], &mut todos), Ok(false));
    assert_eq!(todos, list_of_three());
}

#[test]
fn add_appends_and_asks_for_a_write() {
    let mut todos = list_of_three();
    assert_eq!(apply_command(Command::Add, &argv(&["buy milk"]), &mut todos), Ok(true));
    assert_eq!(todos.len(), 4);
    assert_eq!(todos[3], job("buy milk", false));
    assert_eq!(todos[..3], list_of_three()[..]);
}

#[test]
fn add_takes_several_names() {
    let mut todos = Vec::new();
    assert_eq!(apply_command(Command::Add, &argv(&["a", "1", "a"]), &mut todos), Ok(true));
    assert_eq!(todos, vec![job("a", false), job("1", false), job("a", false)]);
}

#[test]
fn done_marks_the_item_named() {
    let mut todos = list_of_three();
    assert_eq!(apply_command(Command::Done, &argv(&["2"]), &mut todos), Ok(true));
    assert_eq!(todos, vec![job("one", false), job("two", true), job("three", true)]);
}

#[test]
fn undo_unmarks_the_item_named() {
    let mut todos = list_of_three();
    assert_eq!(apply_command(Command::Undo, &argv(&["3", "1"]), &mut todos), Ok(true));
    assert_eq!(todos, vec![job("one", false), job("two", false), job("three", false)]);
}

#[test]
fn remove_drops_the_items_named_in_either_order() {
    let mut todos = list_of_three();
    assert_eq!(apply_command(Command::Remove, &argv(&["1", "3"]), &mut todos), Ok(true));
    assert_eq!(todos, vec![job("two", false)]);
    let mut todos = list_of_three();
    assert_eq!(apply_command(Command::Remove, &argv(&["3", "1"]), &mut todos), Ok(true));
    assert_eq!(todos, vec![job("two", false)]);
}

#[test]
fn ids_are_positions_after_earlier_removals() {
    let mut todos = list_of_three();
    assert_eq!(apply_command(Command::Remove, &argv(&["1"]), &mut todos), Ok(true));
    assert_eq!(apply_command(Command::Remove, &argv(&["1"]), &mut todos), Ok(true));
    assert_eq!(todos, vec![job("three", true)]);
    assert_eq!(
        apply_command(Command::Remove, &argv(&["2"]), &mut todos),
        Err(CommandError::InvalidIds(ParseIdsError::InvalidId(2)))
    );
}

#[test]
fn missing_operands_leave_the_list_alone() {
    for command in [Command::Add, Command::Done, Command::Undo, Command::Remove] {
        let mut todos = list_of_three();
        assert_eq!(
            apply_command(command, &[], &mut todos),
            Err(CommandError::MissingOperands(command))
        );
        assert_eq!(todos, list_of_three());
    }
}

#[test]
fn id_zero_fails_and_leaves_the_list_alone() {
    for command in [Command::Done, Command::Undo, Command::Remove] {
        let mut todos = list_of_three();
        assert_eq!(
            apply_command(command, &argv(&["1", "0"]), &mut todos),
            Err(CommandError::InvalidIds(ParseIdsError::InvalidId(0)))
        );
        assert_eq!(todos, list_of_three());
    }
}

#[test]
fn id_above_the_length_fails_and_leaves_the_list_alone() {
    for command in [Command::Done, Command::Undo, Command::Remove] {
        let mut todos = list_of_three();
        assert_eq!(
            apply_command(command, &argv(&["2", "4", "1"]), &mut todos),
            Err(CommandError::InvalidIds(ParseIdsError::InvalidId(4)))
        );
        assert_eq!(todos, list_of_three());
    }
    let mut todos = Vec::new();
    assert_eq!(
        apply_command(Command::Remove, &argv(&["1"]), &mut todos),
        Err(CommandError::InvalidIds(ParseIdsError::InvalidId(1)))
    );
}

#[test]
fn id_that_is_no_number_fails_and_leaves_the_list_alone() {
    for command in [Command::Done, Command::Undo, Command::Remove] {
        let mut todos = list_of_three();
        assert_eq!(
            apply_command(command, &argv(&["1", "two"]), &mut todos),
            Err(CommandError::InvalidIds(ParseIdsError::ParseError(
                "two".parse::<usize>().unwrap_err()
            )))
        );
        assert_eq!(todos, list_of_three());
    }
}

fn read_text(text: &str) -> Vec<io::Result<String>> {
    text.split_terminator('\n').map(|line| Ok(line.to_string())).collect()
}

#[test]
fn file_holds_the_added_item_after_add() {
    let mut todos = parse_todos(read_text("- [ ] task1\n- [X] task2\n")).unwrap();
    assert_eq!(apply_command(Command::Add, &argv(&["buy milk"]), &mut todos), Ok(true));
    assert_eq!(serialize_todos(&todos), "- [ ] task1\n- [X] task2\n- [ ] buy milk\n");
}

#[test]
fn file_holds_the_changes_after_done_undo_and_remove() {
    let mut todos = parse_todos(read_text("- [ ] a\n- [ ] b\n- [X] c\n")).unwrap();
    assert_eq!(apply_command(Command::Done, &argv(&["2"]), &mut todos), Ok(true));
    assert_eq!(serialize_todos(&todos), "- [ ] a\n- [X] b\n- [X] c\n");
    assert_eq!(apply_command(Command::Undo, &argv(&["3", "2"]), &mut todos), Ok(true));
    assert_eq!(serialize_todos(&todos), "- [ ] a\n- [ ] b\n- [ ] c\n");
    assert_eq!(apply_command(Command::Remove, &argv(&["3", "1"]), &mut todos), Ok(true));
    assert_eq!(serialize_todos(&todos), "- [ ] b\n");
    assert_eq!(apply_command(Command::Remove, &argv(&["1"]), &mut todos), Ok(true));
    assert_eq!(serialize_todos(&todos), "");
}

#[test]
fn whole_run_from_arguments_to_the_list() {
    let args = argv(&["todo", "REMOVE", "1", "3", "1"]);
    let command = resolve_command(&args).unwrap();
    let mut todos = parse_todos(read_text("- [ ] a\n- [X] b\n- [ ] c\n")).unwrap();
    assert_eq!(apply_command(command, &args[2..], &mut todos), Ok(true));
    assert_eq!(todos, vec![job("b", true)]);
}
