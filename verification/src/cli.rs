//! The front end of the task list: what can go wrong, what the user is
//! told, and what is asked of the user next.

use vstd::prelude::*;
use vstd::string::StringExecFns;
use crate::storage::added;
use crate::storage::completed;
use crate::storage::created;
use crate::storage::listing;
use crate::storage::removed;
use crate::storage::updated;
use crate::storage::StoreView;
use crate::storage::TodoStorage;
use crate::terminal::Action;
use crate::terminal::ActionView;
use crate::todo::Todo;
use crate::todo::TodoView;

verus! {

/// `std::io::Error` of the standard library: the failure of a read or a
/// write. Nothing is known of its contents.
#[verifier::external_type_specification]
#[verifier::external_body]
pub struct ExIoError(std::io::Error);

/// `serde_json::Error`: the failure to write or to read a text with that
/// crate. Nothing is known of its contents.
#[verifier::external_type_specification]
#[verifier::external_body]
pub struct ExJsonError(serde_json::Error);

/// A failure of the terminal or of the file behind the task list.
#[derive(Debug)]
pub enum AppError {
    /// The terminal could not be written to.
    Stdout(std::io::Error),
    /// The terminal could not be read.
    Stdin(std::io::Error),
    /// The file could not be written.
    Write(std::io::Error),
    /// The file could not be read.
    Read(std::io::Error),
    /// The task list could not be put into text: the failure of a file that
    /// keeps its text with `serde_json`.
    Parse(serde_json::Error),
}

/// `Display` of `std::io::Error`: the error in the words of the standard
/// library. Nothing is claimed of them.
#[verifier::external_body]
fn io_cause(error: &std::io::Error) -> (words: String) {
    format!("{error}")
}

/// `Display` of `serde_json::Error`: the error in the words of that crate.
/// Nothing is claimed of them.
#[verifier::external_body]
fn json_cause(error: &serde_json::Error) -> (words: String) {
    format!("{error}")
}

/// What failed, in the words that stand before the cause.
pub open spec fn heading(error: AppError) -> Seq<char> {
    match error {
        AppError::Stdout(_) => "Erro ao escrever no terminal: "@,
        AppError::Stdin(_) => "Erro ao ler do terminal: "@,
        AppError::Write(_) => "Não foi possível escrever no arquivo: "@,
        AppError::Read(_) => "Não foi possível ler o arquivo: "@,
        AppError::Parse(_) => "Não foi possível parsear o arquivo: "@,
    }
}

impl AppError {
    /// The text shown to the user: what failed, then the cause as the
    /// underlying error words it.
    pub fn message(&self) -> (text: String)
        ensures
            exists|cause: Seq<char>| text@ == heading(*self) + cause,
    {
        let (mut text, cause) = match self {
            Self::Stdout(error) => ("Erro ao escrever no terminal: ".to_owned(), io_cause(error)),
            Self::Stdin(error) => ("Erro ao ler do terminal: ".to_owned(), io_cause(error)),
            Self::Write(error) => (
                "Não foi possível escrever no arquivo: ".to_owned(),
                io_cause(error),
            ),
            Self::Read(error) => ("Não foi possível ler o arquivo: ".to_owned(), io_cause(error)),
            Self::Parse(error) => (
                "Não foi possível parsear o arquivo: ".to_owned(),
                json_cause(error),
            ),
        };
        text.append(cause.as_str());
        assert(text@ == heading(*self) + cause@);
        text
    }
}

/// The four changes that the front end reports on.
#[derive(Debug, Clone, Copy, PartialEq, Eq, Structural)]
pub enum Change {
    Add,
    Done,
    Delete,
    Update,
}

/// What the front end tells the user after a change or a choice.
#[derive(Debug)]
pub enum Notice {
    /// The task that was changed, and what was done with it.
    Success(Todo, &'static str),
    /// What could not be done.
    Failure(&'static str),
}

/// The mathematical value of a [`Notice`].
pub enum NoticeView {
    Success(TodoView, Seq<char>),
    Failure(Seq<char>),
}

impl View for Notice {
    type V = NoticeView;

    open spec fn view(&self) -> NoticeView {
        match self {
            Notice::Success(task, words) => NoticeView::Success(task@, words@),
            Notice::Failure(words) => NoticeView::Failure(words@),
        }
    }
}

/// The words for a change that was made.
pub open spec fn praise(change: Change) -> Seq<char> {
    match change {
        Change::Add => "adicionado com sucesso"@,
        Change::Done => "marcado como feito"@,
        Change::Delete => "deletado com sucesso"@,
        Change::Update => "atualizado com sucesso!"@,
    }
}

/// The words for a change that could not be made.
pub open spec fn regret(change: Change) -> Seq<char> {
    match change {
        Change::Add => "Não foi possível adicionar o TODO"@,
        Change::Done => "Não foi possível marcar o TODO como feito"@,
        Change::Delete => "Não foi possível deletar o TODO"@,
        Change::Update => "Não foi possível atualizar o TODO"@,
    }
}

/// What is told after `change`, where the store answered with `found`.
pub open spec fn reported(change: Change, found: Option<TodoView>) -> NoticeView {
    match found {
        Some(task) => NoticeView::Success(task, praise(change)),
        None => NoticeView::Failure(regret(change)),
    }
}

/// What the front end tells the user after `change`: the task and the words
/// of success where the store answered with a task, the words of failure
/// where it answered with none.
pub fn report(change: Change, found: Option<&Todo>) -> (notice: Notice)
    ensures
        notice@ == reported(
            change,
            match found {
                Some(task) => Some(task@),
                None => None,
            },
        ),
{
    match found {
        Some(task) => Notice::Success(
            task.clone(),
            match change {
                Change::Add => "adicionado com sucesso",
                Change::Done => "marcado como feito",
                Change::Delete => "deletado com sucesso",
                Change::Update => "atualizado com sucesso!",
            },
        ),
        None => Notice::Failure(
            match change {
                Change::Add => "Não foi possível adicionar o TODO",
                Change::Done => "Não foi possível marcar o TODO como feito",
                Change::Delete => "Não foi possível deletar o TODO",
                Change::Update => "Não foi possível atualizar o TODO",
            },
        ),
    }
}

/// Adds a task with `message`, where an identifier is left for it, and says
/// what to tell the user. Where none is left, the store stays as it is and
/// the user is told that the task could not be added.
pub fn append<S: TodoStorage>(storage: &mut S, message: String) -> (told: Result<Notice, AppError>)
    ensures
        old(storage).state().sequence < u32::MAX ==> final(storage).state() == added(
            old(storage).state(),
            message@,
        ) && (told matches Ok(notice) ==> notice@ == reported(
            Change::Add,
            Some(created(old(storage).state(), message@)),
        )),
        old(storage).state().sequence == u32::MAX ==> final(storage).state() == old(
            storage,
        ).state() && (told matches Ok(notice) && notice@ == reported(Change::Add, None)),
{
    if !storage.can_add() {
        return Ok(report(Change::Add, None));
    }
    match storage.add(message) {
        Ok(found) => Ok(report(Change::Add, found)),
        Err(error) => Err(error),
    }
}

/// The store after `action`: a change of one task changes the store, every
/// other action leaves it as it is.
pub open spec fn performed(state: StoreView, action: ActionView) -> StoreView {
    match action {
        ActionView::Done(id) => completed(state, id),
        ActionView::Delete(id) => removed(state, id),
        ActionView::Update(id, message) => updated(state, id, message),
        _ => state,
    }
}

/// What is told after `action` on `state`, where the store did not fail:
/// for a change of one task, the task as it is afterwards (for a deletion,
/// as it was) or the words of failure where there is no such task; nothing
/// for every other action.
pub open spec fn told_after(state: StoreView, action: ActionView) -> Option<NoticeView> {
    match action {
        ActionView::Done(id) => Some(
            reported(
                Change::Done,
                if state.mapping.contains_key(id) {
                    Some(completed(state, id).mapping[id])
                } else {
                    None
                },
            ),
        ),
        ActionView::Delete(id) => Some(
            reported(
                Change::Delete,
                if state.mapping.contains_key(id) {
                    Some(state.mapping[id])
                } else {
                    None
                },
            ),
        ),
        ActionView::Update(id, message) => Some(
            reported(
                Change::Update,
                if state.mapping.contains_key(id) {
                    Some(updated(state, id, message).mapping[id])
                } else {
                    None
                },
            ),
        ),
        _ => None,
    }
}

/// Whether `action` changes a task that `state` holds: then, and only then,
/// the store hands itself to its file, and may fail.
pub open spec fn touches(state: StoreView, action: ActionView) -> bool {
    match action {
        ActionView::Done(id) => state.mapping.contains_key(id),
        ActionView::Delete(id) => state.mapping.contains_key(id),
        ActionView::Update(id, _) => state.mapping.contains_key(id),
        _ => false,
    }
}

/// Makes the change that `action` asks for, and says what to tell the user.
pub fn perform<S: TodoStorage>(storage: &mut S, action: Action) -> (told: Result<
    Option<Notice>,
    AppError,
>)
    ensures
        final(storage).state() == performed(old(storage).state(), action@),
        told matches Ok(notice) ==> match notice {
            Some(words) => told_after(old(storage).state(), action@) == Some(words@),
            None => told_after(old(storage).state(), action@) is None,
        },
        !touches(old(storage).state(), action@) ==> told is Ok,
{
    match action {
        Action::Done(id) => match storage.done(id) {
            Ok(found) => Ok(Some(report(Change::Done, found))),
            Err(error) => Err(error),
        },
        Action::Delete(id) => match storage.delete(id) {
            Ok(found) => Ok(Some(report(Change::Delete, found.as_ref()))),
            Err(error) => Err(error),
        },
        Action::Update(id, message) => match storage.update(id, message) {
            Ok(found) => Ok(Some(report(Change::Update, found))),
            Err(error) => Err(error),
        },
        _ => Ok(None),
    }
}

/// What was typed for an identifier, against the store: the identifier,
/// where it is one and a task has it; else what to tell the user.
pub fn pick<S: TodoStorage>(storage: &S, typed: Option<u32>) -> (chosen: Result<
    Result<u32, Notice>,
    AppError,
>)
    ensures
        match typed {
            Some(id) => if storage.state().mapping.contains_key(id) {
                chosen matches Ok(Ok(found)) && found == id
            } else {
                chosen matches Ok(Err(notice)) && notice@ == NoticeView::Failure(
                    "Não existe um TODO com esse ID"@,
                )
            },
            None => chosen matches Ok(Err(notice)) && notice@ == NoticeView::Failure(
                "O ID informado é inválido"@,
            ),
        },
{
    match typed {
        Some(id) => match storage.exist(id) {
            Ok(true) => Ok(Ok(id)),
            Ok(false) => Ok(Err(Notice::Failure("Não existe um TODO com esse ID"))),
            Err(error) => Err(error),
        },
        None => Ok(Err(Notice::Failure("O ID informado é inválido"))),
    }
}

/// What the front end is asked to do next.
#[derive(Debug)]
pub enum Request {
    /// To greet the user.
    Welcome,
    /// To show the main menu and hand back what the user chose.
    AskForAction,
    /// To ask for the message of a new task.
    AddTodo,
    /// To wait for a key.
    PressKey,
    /// To show these tasks.
    ListTodo(Vec<Todo>),
    /// To ask for the identifier of a task.
    SelectTodo,
    /// To show the menu of the task with the identifier given and hand back
    /// what the user chose.
    AskForTodoAction(u32),
    /// To show the task and what was done with it.
    ShowSuccess(Todo, &'static str),
    /// To show what went wrong.
    ShowError(&'static str),
    /// To say goodbye.
    Exit,
    /// Nothing more: the run is over.
    Stop,
}

/// The mathematical value of a [`Request`].
pub enum RequestView {
    Welcome,
    AskForAction,
    AddTodo,
    PressKey,
    ListTodo(Seq<TodoView>),
    SelectTodo,
    AskForTodoAction(u32),
    ShowSuccess(TodoView, Seq<char>),
    ShowError(Seq<char>),
    Exit,
    Stop,
}

impl View for Request {
    type V = RequestView;

    open spec fn view(&self) -> RequestView {
        match self {
            Request::Welcome => RequestView::Welcome,
            Request::AskForAction => RequestView::AskForAction,
            Request::AddTodo => RequestView::AddTodo,
            Request::PressKey => RequestView::PressKey,
            Request::ListTodo(tasks) => RequestView::ListTodo(
                tasks@.map_values(|task: Todo| task@),
            ),
            Request::SelectTodo => RequestView::SelectTodo,
            Request::AskForTodoAction(id) => RequestView::AskForTodoAction(*id),
            Request::ShowSuccess(task, words) => RequestView::ShowSuccess(task@, words@),
            Request::ShowError(words) => RequestView::ShowError(words@),
            Request::Exit => RequestView::Exit,
            Request::Stop => RequestView::Stop,
        }
    }
}

/// What the front end hands back after a request.
#[derive(Debug)]
pub enum Reply {
    /// The request was carried out; it gives nothing back.
    Done,
    /// What the user chose in a menu.
    Action(Action),
    /// The message that the user typed.
    Message(String),
    /// The identifier that the user typed, if it was one.
    Id(Option<u32>),
}

/// The mathematical value of a [`Reply`].
pub enum ReplyView {
    Done,
    Action(ActionView),
    Message(Seq<char>),
    Id(Option<u32>),
}

impl View for Reply {
    type V = ReplyView;

    open spec fn view(&self) -> ReplyView {
        match self {
            Reply::Done => ReplyView::Done,
            Reply::Action(action) => ReplyView::Action(action@),
            Reply::Message(message) => ReplyView::Message(message@),
            Reply::Id(id) => ReplyView::Id(*id),
        }
    }
}

/// Where a run stands: which request is with the front end.
#[derive(Debug, Clone, Copy, PartialEq, Eq, Structural)]
pub enum Stage {
    /// Nothing was asked yet.
    Start,
    /// The user is being greeted.
    Welcoming,
    /// The main menu is shown.
    Asking,
    /// The user is typing the message of a new task.
    Adding,
    /// The user is told how a change went.
    Telling,
    /// The front end waits for a key; the main menu is next.
    Pausing,
    /// The tasks are shown, because the user asked to see them.
    Listing,
    /// The tasks are shown, for the user to pick one.
    Showing,
    /// The user is typing an identifier.
    Selecting,
    /// The menu of a task is shown.
    Choosing,
    /// The user is told goodbye.
    Leaving,
    /// The run is over.
    Over,
}

/// The request for a notice: to show the task, or to show what went wrong.
pub open spec fn shown(notice: NoticeView) -> RequestView {
    match notice {
        NoticeView::Success(task, words) => RequestView::ShowSuccess(task, words),
        NoticeView::Failure(words) => RequestView::ShowError(words),
    }
}

/// The store after the reply at a stage: a message that was typed adds a
/// task, where an identifier is left for it; what the user chose in the
/// menu of a task is done; every other reply leaves the store as it is.
pub open spec fn changed(stage: Stage, reply: ReplyView, state: StoreView) -> StoreView {
    match (stage, reply) {
        (Stage::Adding, ReplyView::Message(message)) => if state.sequence < u32::MAX {
            added(state, message)
        } else {
            state
        },
        (Stage::Choosing, ReplyView::Action(action)) => performed(state, action),
        _ => state,
    }
}

/// Whether the reply at a stage makes the store hand itself to its file:
/// then, and only then, the step may fail.
pub open spec fn persists(stage: Stage, reply: ReplyView, state: StoreView) -> bool {
    match (stage, reply) {
        (Stage::Adding, ReplyView::Message(_)) => state.sequence < u32::MAX,
        (Stage::Choosing, ReplyView::Action(action)) => touches(state, action),
        _ => false,
    }
}

/// The next request, where the store did not fail.
pub open spec fn asked(stage: Stage, reply: ReplyView, state: StoreView) -> RequestView {
    match (stage, reply) {
        (Stage::Start, _) => RequestView::Welcome,
        (Stage::Welcoming, _) => RequestView::AskForAction,
        (Stage::Asking, ReplyView::Action(ActionView::Add)) => RequestView::AddTodo,
        (Stage::Asking, ReplyView::Action(ActionView::List)) => RequestView::ListTodo(
            listing(state.mapping),
        ),
        (Stage::Asking, ReplyView::Action(ActionView::Edit)) => RequestView::ListTodo(
            listing(state.mapping),
        ),
        (Stage::Asking, ReplyView::Action(ActionView::Exit)) => RequestView::Exit,
        (Stage::Asking, _) => RequestView::AskForAction,
        (Stage::Adding, ReplyView::Message(message)) => shown(
            reported(
                Change::Add,
                if state.sequence < u32::MAX {
                    Some(created(state, message))
                } else {
                    None
                },
            ),
        ),
        (Stage::Adding, _) => RequestView::AddTodo,
        (Stage::Telling, _) => RequestView::PressKey,
        (Stage::Pausing, _) => RequestView::AskForAction,
        (Stage::Listing, _) => RequestView::PressKey,
        (Stage::Showing, _) => RequestView::SelectTodo,
        (Stage::Selecting, ReplyView::Id(Some(id))) => if state.mapping.contains_key(id) {
            RequestView::AskForTodoAction(id)
        } else {
            RequestView::ShowError("Não existe um TODO com esse ID"@)
        },
        (Stage::Selecting, _) => RequestView::ShowError("O ID informado é inválido"@),
        (Stage::Choosing, ReplyView::Action(action)) => match told_after(state, action) {
            Some(notice) => shown(notice),
            None => RequestView::PressKey,
        },
        (Stage::Choosing, _) => RequestView::PressKey,
        (Stage::Leaving, _) => RequestView::Stop,
        (Stage::Over, _) => RequestView::Stop,
    }
}

/// The stage after the reply at a stage, where the store did not fail.
pub open spec fn after(stage: Stage, reply: ReplyView, state: StoreView) -> Stage {
    match (stage, reply) {
        (Stage::Start, _) => Stage::Welcoming,
        (Stage::Welcoming, _) => Stage::Asking,
        (Stage::Asking, ReplyView::Action(ActionView::Add)) => Stage::Adding,
        (Stage::Asking, ReplyView::Action(ActionView::List)) => Stage::Listing,
        (Stage::Asking, ReplyView::Action(ActionView::Edit)) => Stage::Showing,
        (Stage::Asking, ReplyView::Action(ActionView::Exit)) => Stage::Leaving,
        (Stage::Asking, _) => Stage::Asking,
        (Stage::Adding, ReplyView::Message(_)) => Stage::Telling,
        (Stage::Adding, _) => Stage::Adding,
        (Stage::Telling, _) => Stage::Pausing,
        (Stage::Pausing, _) => Stage::Asking,
        (Stage::Listing, _) => Stage::Pausing,
        (Stage::Showing, _) => Stage::Selecting,
        (Stage::Selecting, ReplyView::Id(Some(id))) => if state.mapping.contains_key(id) {
            Stage::Choosing
        } else {
            Stage::Telling
        },
        (Stage::Selecting, _) => Stage::Telling,
        (Stage::Choosing, ReplyView::Action(action)) => if told_after(state, action) is Some {
            Stage::Telling
        } else {
            Stage::Pausing
        },
        (Stage::Choosing, _) => Stage::Pausing,
        (Stage::Leaving, _) => Stage::Over,
        (Stage::Over, _) => Stage::Over,
    }
}

/// The request that shows a notice.
fn show(notice: Notice) -> (request: Request)
    ensures
        request@ == shown(notice@),
{
    match notice {
        Notice::Success(task, words) => Request::ShowSuccess(task, words),
        Notice::Failure(words) => Request::ShowError(words),
    }
}

/// The tasks of `storage`, each copied, in ascending order of their
/// identifiers.
fn copies<S: TodoStorage>(storage: &S) -> (all: Result<Vec<Todo>, AppError>)
    ensures
        all matches Ok(tasks) && tasks@.map_values(|task: Todo| task@) == listing(
            storage.state().mapping,
        ),
{
    match storage.list() {
        Ok(found) => {
            let mut tasks: Vec<Todo> = Vec::new();
            let mut i: usize = 0;
            while i < found.len()
                invariant
                    i <= found@.len(),
                    tasks@.len() == i,
                    forall|k: int| 0 <= k < i ==> (#[trigger] tasks@[k])@ == found@[k]@,
                decreases found@.len() - i,
            {
                tasks.push(found[i].clone());
                i += 1;
            }
            assert(tasks@.map_values(|task: Todo| task@) =~= listing(storage.state().mapping));
            Ok(tasks)
        },
        Err(error) => Err(error),
    }
}

/// The run of the front end over a store: what to ask of the user next,
/// given what the user answered last.
pub struct TodoCli<S: TodoStorage> {
    todo_storage: S,
    stage: Stage,
}

impl<S: TodoStorage> TodoCli<S> {
    /// A run over `todo_storage` in which nothing was asked yet.
    pub fn new(todo_storage: S) -> (cli: Self)
        ensures
            cli.stage() == Stage::Start,
            cli.storage() == todo_storage,
    {
        Self { todo_storage, stage: Stage::Start }
    }

    /// Where the run stands.
    pub closed spec fn stage(&self) -> Stage {
        self.stage
    }

    /// The store of the run.
    pub closed spec fn storage(&self) -> S {
        self.todo_storage
    }

    /// Whether the run is over.
    pub fn is_over(&self) -> (over: bool)
        ensures
            over == (self.stage() == Stage::Over),
    {
        match self.stage {
            Stage::Over => true,
            _ => false,
        }
    }

    /// Takes what the front end hands back and says what it is to do next.
    /// A failure of the store ends the run.
    pub fn step(&mut self, reply: Reply) -> (next: Result<Request, AppError>)
        ensures
            final(self).storage().state() == changed(
                old(self).stage(),
                reply@,
                old(self).storage().state(),
            ),
            match next {
                Ok(request) => request@ == asked(
                    old(self).stage(),
                    reply@,
                    old(self).storage().state(),
                ) && final(self).stage() == after(
                    old(self).stage(),
                    reply@,
                    old(self).storage().state(),
                ),
                Err(_) => final(self).stage() == Stage::Over && persists(
                    old(self).stage(),
                    reply@,
                    old(self).storage().state(),
                ),
            },
    {
        let answer = match (self.stage, reply) {
            (Stage::Start, _) => Ok((Stage::Welcoming, Request::Welcome)),
            (Stage::Welcoming, _) => Ok((Stage::Asking, Request::AskForAction)),
            (Stage::Asking, Reply::Action(Action::Add)) => Ok((Stage::Adding, Request::AddTodo)),
            (Stage::Asking, Reply::Action(Action::List)) => match copies(&self.todo_storage) {
                Ok(tasks) => Ok((Stage::Listing, Request::ListTodo(tasks))),
                Err(error) => Err(error),
            },
            (Stage::Asking, Reply::Action(Action::Edit)) => match copies(&self.todo_storage) {
                Ok(tasks) => Ok((Stage::Showing, Request::ListTodo(tasks))),
                Err(error) => Err(error),
            },
            (Stage::Asking, Reply::Action(Action::Exit)) => Ok((Stage::Leaving, Request::Exit)),
            (Stage::Asking, _) => Ok((Stage::Asking, Request::AskForAction)),
            (Stage::Adding, Reply::Message(message)) => match append(
                &mut self.todo_storage,
                message,
            ) {
                Ok(notice) => Ok((Stage::Telling, show(notice))),
                Err(error) => Err(error),
            },
            (Stage::Adding, _) => Ok((Stage::Adding, Request::AddTodo)),
            (Stage::Telling, _) => Ok((Stage::Pausing, Request::PressKey)),
            (Stage::Pausing, _) => Ok((Stage::Asking, Request::AskForAction)),
            (Stage::Listing, _) => Ok((Stage::Pausing, Request::PressKey)),
            (Stage::Showing, _) => Ok((Stage::Selecting, Request::SelectTodo)),
            (Stage::Selecting, Reply::Id(typed)) => match pick(&self.todo_storage, typed) {
                Ok(Ok(id)) => Ok((Stage::Choosing, Request::AskForTodoAction(id))),
                Ok(Err(notice)) => Ok((Stage::Telling, show(notice))),
                Err(error) => Err(error),
            },
            (Stage::Selecting, _) => Ok(
                (Stage::Telling, Request::ShowError("O ID informado é inválido")),
            ),
            (Stage::Choosing, Reply::Action(action)) => match perform(
                &mut self.todo_storage,
                action,
            ) {
                Ok(Some(notice)) => Ok((Stage::Telling, show(notice))),
                Ok(None) => Ok((Stage::Pausing, Request::PressKey)),
                Err(error) => Err(error),
            },
            (Stage::Choosing, _) => Ok((Stage::Pausing, Request::PressKey)),
            (Stage::Leaving, _) => Ok((Stage::Over, Request::Stop)),
            (Stage::Over, _) => Ok((Stage::Over, Request::Stop)),
        };
        match answer {
            Ok((stage, request)) => {
                self.stage = stage;
                Ok(request)
            },
            Err(error) => {
                self.stage = Stage::Over;
                Err(error)
            },
        }
    }
}

} // verus!
