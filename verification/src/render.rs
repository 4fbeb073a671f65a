//! The lines that show the list to the user.
//!
//! Each item is shown with its position, counted from one. The name of a
//! completed item is struck through with the terminal's escape sequences.

use vstd::prelude::*;

use crate::item::{ItemView, TodoItem};

verus! {

/// The character of a decimal digit.
pub open spec fn digit_char(digit: nat) -> char {
    if digit == 0 {
        '0'
    } else if digit == 1 {
        '1'
    } else if digit == 2 {
        '2'
    } else if digit == 3 {
        '3'
    } else if digit == 4 {
        '4'
    } else if digit == 5 {
        '5'
    } else if digit == 6 {
        '6'
    } else if digit == 7 {
        '7'
    } else if digit == 8 {
        '8'
    } else {
        '9'
    }
}

/// A number in decimal digits, without leading zeros.
pub open spec fn decimal(n: nat) -> Seq<char>
    decreases n,
{
    if n < 10 {
        seq![digit_char(n)]
    } else {
        decimal(n / 10).push(digit_char(n % 10))
    }
}

/// The escape sequence that starts struck-through text.
pub open spec fn strike_on() -> Seq<char> {
    seq!['\x1b', '[', '9', 'm']
}

/// The escape sequence that ends all styles.
pub open spec fn style_off() -> Seq<char> {
    seq!['\x1b', '[', 'm']
}

/// The line that shows `item` at `position`: the position, a full stop, a
/// tab and the name, which is struck through where the item is completed.
pub open spec fn rendered(position: nat, item: ItemView) -> Seq<char> {
    decimal(position) + seq!['.', '\t'] + if item.done {
        strike_on() + item.name + style_off()
    } else {
        item.name
    }
}

/// The lines that show the list, one for each item, in the order of the list.
pub open spec fn rendered_list(items: Seq<ItemView>) -> Seq<Seq<char>> {
    Seq::new(items.len(), |k: int| rendered((k + 1) as nat, items[k]))
}

fn digit_text(digit: usize) -> (text: &'static str)
    requires
        digit < 10,
    ensures
        text@ == seq![digit_char(digit as nat)],
{
    proof {
        reveal_strlit("0");
        reveal_strlit("1");
        reveal_strlit("2");
        reveal_strlit("3");
        reveal_strlit("4");
        reveal_strlit("5");
        reveal_strlit("6");
        reveal_strlit("7");
        reveal_strlit("8");
        reveal_strlit("9");
    }
    if digit == 0 {
        "0"
    } else if digit == 1 {
        "1"
    } else if digit == 2 {
        "2"
    } else if digit == 3 {
        "3"
    } else if digit == 4 {
        "4"
    } else if digit == 5 {
        "5"
    } else if digit == 6 {
        "6"
    } else if digit == 7 {
        "7"
    } else if digit == 8 {
        "8"
    } else {
        "9"
    }
}

/// Writes a number in decimal digits.
pub fn decimal_text(n: usize) -> (text: String)
    ensures
        text@ == decimal(n as nat),
    decreases n,
{
    if n < 10 {
        String::from_str(digit_text(n))
    } else {
        let mut text = decimal_text(n / 10);
        text.append(digit_text(n % 10));
        text
    }
}

/// Shows one item at its position.
pub fn render_line(position: usize, item: &TodoItem) -> (line: String)
    ensures
        line@ == rendered(position as nat, item@),
{
    let mut line = decimal_text(position);
    proof {
        reveal_strlit(".\t");
        reveal_strlit("\x1b[9m");
        reveal_strlit("\x1b[m");
    }
    line.append(".\t");
    if item.done {
        line.append("\x1b[9m");
        line.append(item.name.as_str());
        line.append("\x1b[m");
    } else {
        line.append(item.name.as_str());
    }
    line
}

/// Shows the list: one line for each item, numbered from one, in the order
/// of the list.
pub fn render_todos(todos: &Vec<TodoItem>) -> (lines: Vec<String>)
    ensures
        lines.deep_view() == rendered_list(todos.deep_view()),
{
    let mut lines: Vec<String> = Vec::new();
    let mut k: usize = 0;
    while k < todos.len()
        invariant
            k <= todos.len(),
            lines.len() == k,
            forall|j: int|
                0 <= j < k ==> (#[trigger] lines@[j])@ == rendered((j + 1) as nat, todos@[j]@),
        decreases todos.len() - k,
    {
        lines.push(render_line(k + 1, &todos[k]));
        k += 1;
    }
    lines
}

} // verus!
