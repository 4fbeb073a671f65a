use todo_list::{decimal_text, render_line, render_todos, TodoItem};

fn shown(name: &str, done: bool) -> TodoItem {
    TodoItem { name: name.to_string(), done }
}

#[test]
fn numbers_are_written_in_decimal() {
    assert_eq!(decimal_text(0), "0");
    assert_eq!(decimal_text(7), "7");
    assert_eq!(decimal_text(9), "9");
    assert_eq!(decimal_text(10), "10");
    assert_eq!(decimal_text(120), "120");
    assert_eq!(decimal_text(1234567890), "1234567890");
    assert_eq!(decimal_text(usize::MAX), usize::MAX.to_string());
}

#[test]
fn open_item_is_shown_plain() {
    assert_eq!(render_line(1, &shown("task1", false)), "1.\ttask1");
    assert_eq!(render_line(12, &shown("", false)), "12.\t");
}

#[test]
fn completed_item_is_shown_struck_through() {
    assert_eq!(render_line(2, &shown("task2", true)), "2.\t\x1b[9mtask2\x1b[m");
    assert_eq!(render_line(100, &shown("", true)), "100.\t\x1b[9m\x1b[m");
}

#[test]
fn list_is_shown_numbered_from_one() {
    let todos: Vec<TodoItem> = (0..11).map(|k| shown("x", k % 2 == 1)).collect();
    let lines = render_todos(&todos);
    assert_eq!(lines.len(), 11);
    assert_eq!(lines[0], "1.\tx");
    assert_eq!(lines[1], "2.\t\x1b[9mx\x1b[m");
    assert_eq!(lines[8], "9.\tx");
    assert_eq!(lines[9], "10.\t\x1b[9mx\x1b[m");
    assert_eq!(lines[10], "11.\tx");
}

#[test]
fn empty_list_is_shown_as_no_lines() {
    assert_eq!(render_todos(&Vec::new()), Vec::<String>::new());
}
