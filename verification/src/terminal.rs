//! What the front end decides from what the user typed.

use vstd::prelude::*;
use vstd::std_specs::cmp::PartialEqSpecImpl;
use crate::storage::scan::characters;
use crate::storage::scan::number_at;
use crate::storage::scan::read_number;

verus! {

/// What the user asks for.
#[derive(Debug)]
pub enum Action {
    /// To add a task.
    Add,
    /// To see all tasks.
    List,
    /// To pick a task and change it.
    Edit,
    /// To leave.
    Exit,
    /// To mark the task as done.
    Done(u32),
    /// To delete the task.
    Delete(u32),
    /// To give the task a new message.
    Update(u32, String),
}

/// The mathematical value of an [`Action`].
pub enum ActionView {
    Add,
    List,
    Edit,
    Exit,
    Done(u32),
    Delete(u32),
    Update(u32, Seq<char>),
}

impl View for Action {
    type V = ActionView;

    open spec fn view(&self) -> ActionView {
        match self {
            Action::Add => ActionView::Add,
            Action::List => ActionView::List,
            Action::Edit => ActionView::Edit,
            Action::Exit => ActionView::Exit,
            Action::Done(id) => ActionView::Done(*id),
            Action::Delete(id) => ActionView::Delete(*id),
            Action::Update(id, message) => ActionView::Update(*id, message@),
        }
    }
}

impl PartialEq for Action {
    /// Two actions are equal when they ask for the same.
    fn eq(&self, other: &Self) -> (equal: bool) {
        match (self, other) {
            (Action::Add, Action::Add) => true,
            (Action::List, Action::List) => true,
            (Action::Edit, Action::Edit) => true,
            (Action::Exit, Action::Exit) => true,
            (Action::Done(id), Action::Done(other_id)) => *id == *other_id,
            (Action::Delete(id), Action::Delete(other_id)) => *id == *other_id,
            (Action::Update(id, message), Action::Update(other_id, other_message)) => *id
                == *other_id && *message == *other_message,
            _ => false,
        }
    }
}

impl PartialEqSpecImpl for Action {
    open spec fn obeys_eq_spec() -> bool {
        true
    }

    open spec fn eq_spec(&self, other: &Self) -> bool {
        self@ == other@
    }
}

/// What a key means in the menu of a task.
#[derive(Debug)]
pub enum TodoAnswer {
    /// The user has chosen this.
    Chosen(Action),
    /// The user wants a new message for the task, and is to be asked for it.
    NewMessage,
    /// The key means nothing, and the user is to be asked again.
    Unknown,
}

/// What a key means in the main menu, where it means something.
pub fn menu_action(key: char) -> (action: Option<Action>)
    ensures
        action matches Some(chosen) ==> chosen@ == (match key {
            'a' => ActionView::Add,
            'l' => ActionView::List,
            'e' => ActionView::Edit,
            _ => ActionView::Exit,
        }),
        action is Some <==> key == 'a' || key == 'l' || key == 'e' || key == 'x',
{
    match key {
        'a' => Some(Action::Add),
        'l' => Some(Action::List),
        'e' => Some(Action::Edit),
        'x' => Some(Action::Exit),
        _ => None,
    }
}

/// What a key means in the menu of the task `id`.
pub fn todo_answer(key: char, id: u32) -> (answer: TodoAnswer)
    ensures
        match key {
            'f' => answer matches TodoAnswer::Chosen(action) && action@ == ActionView::Done(id),
            'e' => answer is NewMessage,
            'd' => answer matches TodoAnswer::Chosen(action) && action@ == ActionView::Delete(id),
            'x' => answer matches TodoAnswer::Chosen(action) && action@ == ActionView::Exit,
            _ => answer is Unknown,
        },
{
    match key {
        'f' => TodoAnswer::Chosen(Action::Done(id)),
        'e' => TodoAnswer::NewMessage,
        'd' => TodoAnswer::Chosen(Action::Delete(id)),
        'x' => TodoAnswer::Chosen(Action::Exit),
        _ => TodoAnswer::Unknown,
    }
}

/// The identifier that `input` stands for: digits, with or without a plus
/// sign in front, that make a number no larger than the largest identifier.
pub open spec fn identifier(input: Seq<char>) -> Option<u32> {
    let start: int = if input.len() > 0 && input[0] == '+' {
        1
    } else {
        0
    };
    match number_at(input, start) {
        Some((id, end)) => if end == input.len() {
            Some(id)
        } else {
            None
        },
        None => None,
    }
}

/// Reads the identifier that the user typed.
pub fn select_id(input: &str) -> (id: Option<u32>)
    ensures
        id == identifier(input@),
{
    let all = characters(input);
    let start: usize = if all.len() > 0 && all[0] == '+' {
        1
    } else {
        0
    };
    match read_number(&all, start) {
        Some((id, end)) => if end == all.len() {
            Some(id)
        } else {
            None
        },
        None => None,
    }
}

} // verus!
