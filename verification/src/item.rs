//! The checklist item and its mathematical model.

use vstd::prelude::*;

verus! {

/// One entry of the checklist: a task and whether it is completed.
///
/// An item has no identity of its own. It is addressed by its position in the
/// list, counted from one, and that position changes when an item before it is
/// removed.
#[derive(Debug, Clone, PartialEq, Eq)]
pub struct TodoItem {
    pub name: String,
    pub done: bool,
}

/// What an item is in contracts: the characters of its name and its flag.
pub struct ItemView {
    pub name: Seq<char>,
    pub done: bool,
}

impl View for TodoItem {
    type V = ItemView;

    open spec fn view(&self) -> ItemView {
        ItemView { name: self.name@, done: self.done }
    }
}

impl DeepView for TodoItem {
    type V = ItemView;

    open spec fn deep_view(&self) -> ItemView {
        self@
    }
}

impl TodoItem {
    /// A new item that is not completed yet.
    pub fn new(name: String) -> (item: TodoItem)
        ensures
            item@ == (ItemView { name: name@, done: false }),
    {
        TodoItem { name, done: false }
    }
}

} // verus!
