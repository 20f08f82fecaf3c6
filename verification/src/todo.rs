//! A single task.

use vstd::prelude::*;
use vstd::std_specs::cmp::PartialEqSpecImpl;
use vstd::string::StringExecFns;
use crate::storage::text::decimal;
use crate::storage::text::push_decimal;

verus! {

/// One task of the list.
#[derive(Debug)]
pub struct Todo {
    /// The identifier, given by the store that created the task.
    pub id: u32,
    /// What is to be done.
    pub message: String,
    /// Whether it has been done.
    pub done: bool,
}

/// The mathematical value of a [`Todo`]: its fields, the message as a
/// sequence of characters.
pub struct TodoView {
    pub id: u32,
    pub message: Seq<char>,
    pub done: bool,
}

impl View for Todo {
    type V = TodoView;

    open spec fn view(&self) -> TodoView {
        TodoView { id: self.id, message: self.message@, done: self.done }
    }
}

/// How a task is shown: identifier and message in brackets, then whether it
/// is done.
pub open spec fn description(task: TodoView) -> Seq<char> {
    "("@ + decimal(task.id as nat) + "-"@ + task.message + ", status: "@ + (if task.done {
        "feito"@
    } else {
        "pendente"@
    }) + ")"@
}

impl Todo {
    /// A task that is still to be done.
    pub fn new(id: u32, message: String) -> (todo: Self)
        ensures
            todo@ == (TodoView { id, message: message@, done: false }),
    {
        Self { id, message, done: false }
    }

    /// The task in words, as the front end shows it.
    pub fn describe(&self) -> (text: String)
        ensures
            text@ == description(self@),
    {
        let mut text = String::new();
        text.append("(");
        push_decimal(&mut text, self.id);
        text.append("-");
        text.append(self.message.as_str());
        text.append(", status: ");
        if self.done {
            text.append("feito");
        } else {
            text.append("pendente");
        }
        text.append(")");
        assert(text@ =~= description(self@));
        text
    }
}

impl PartialEq for Todo {
    /// Two tasks are equal when their three fields are.
    fn eq(&self, other: &Self) -> (equal: bool) {
        self.id == other.id && self.message == other.message && self.done == other.done
    }
}

impl PartialEqSpecImpl for Todo {
    open spec fn obeys_eq_spec() -> bool {
        true
    }

    open spec fn eq_spec(&self, other: &Self) -> bool {
        self@ == other@
    }
}

impl Clone for Todo {
    /// A second task with the same three fields.
    fn clone(&self) -> (copy: Self)
        ensures
            copy@ == self@,
    {
        Self { id: self.id, message: self.message.clone(), done: self.done }
    }
}

} // verus!
