//! One line of a markdown task list.

use vstd::prelude::*;

verus! {

/// A checklist item: its text, whether it is ticked, and the number of the
/// issue that tracks it, if one does.
#[derive(Debug, PartialEq)]
pub struct TodoItem {
    pub text: String,
    pub is_checked: bool,
    pub issue_number: Option<u64>,
}

/// The mathematical content of a [`TodoItem`].
pub struct TodoItemView {
    pub text: Seq<char>,
    pub is_checked: bool,
    pub issue_number: Option<u64>,
}

impl View for TodoItem {
    type V = TodoItemView;

    open spec fn view(&self) -> TodoItemView {
        TodoItemView {
            text: self.text@,
            is_checked: self.is_checked,
            issue_number: self.issue_number,
        }
    }
}

impl DeepView for TodoItem {
    type V = TodoItemView;

    open spec fn deep_view(&self) -> TodoItemView {
        self@
    }
}

impl Clone for TodoItem {
    fn clone(&self) -> (r: Self)
        ensures
            r == *self,
    {
        TodoItem {
            text: self.text.clone(),
            is_checked: self.is_checked,
            issue_number: self.issue_number,
        }
    }
}

} // verus!
