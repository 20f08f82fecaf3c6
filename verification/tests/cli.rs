use std::cell::RefCell;
use std::collections::BTreeMap;
use std::rc::Rc;

use todo_cli::cli::append;
use todo_cli::cli::perform;
use todo_cli::cli::pick;
use todo_cli::cli::report;
use todo_cli::cli::AppError;
use todo_cli::cli::Change;
use todo_cli::cli::Notice;
use todo_cli::cli::Reply;
use todo_cli::cli::Request;
use todo_cli::cli::TodoCli;
use todo_cli::storage::file::TodoFile;
use todo_cli::storage::StoreView;
use todo_cli::storage::TodoStorage;
use todo_cli::storage::Todos;
use todo_cli::terminal::Action;
use todo_cli::todo::Todo;

/// A store that holds one task and answers as it is told to, whatever is
/// asked of it; it counts the calls of each operation.
struct FixedStorage {
    task: Todo,
    there: bool,
    calls: Rc<RefCell<Vec<&'static str>>>,
}

impl FixedStorage {
    fn with(task: Todo, there: bool) -> Self {
        Self { task, there, calls: Rc::new(RefCell::new(Vec::new())) }
    }
}

impl TodoStorage for FixedStorage {
    fn state(&self) -> StoreView {
        unreachable!()
    }

    fn add<'a>(&'a mut self, message: String) -> Result<Option<&'a Todo>, AppError> {
        self.calls.borrow_mut().push("add");
        assert_eq!(message, self.task.message);
        Ok(Some(&self.task))
    }

    fn can_add(&self) -> bool {
        true
    }

    fn list<'a>(&'a self) -> Result<Vec<&'a Todo>, AppError> {
        self.calls.borrow_mut().push("list");
        Ok(vec![&self.task])
    }

    fn exist(&self, _id: u32) -> Result<bool, AppError> {
        self.calls.borrow_mut().push("exist");
        Ok(self.there)
    }

    fn update<'a>(&'a mut self, _id: u32, _message: String) -> Result<Option<&'a Todo>, AppError> {
        self.calls.borrow_mut().push("update");
        Ok(Some(&self.task))
    }

    fn done<'a>(&'a mut self, _id: u32) -> Result<Option<&'a Todo>, AppError> {
        self.calls.borrow_mut().push("done");
        Ok(Some(&self.task))
    }

    fn delete(&mut self, _id: u32) -> Result<Option<Todo>, AppError> {
        self.calls.borrow_mut().push("delete");
        Ok(Some(self.task.clone()))
    }
}

fn plain() -> Todo {
    Todo::new(1, "todo 1".to_string())
}

/// Runs the front end over `storage`, answering each request from `answers`
/// in turn where it asks the user something, and gives the requests back.
fn run(storage: FixedStorage, answers: Vec<Reply>) -> Vec<Request> {
    let mut cli = TodoCli::new(storage);
    let mut answers = answers.into_iter();
    let mut requests = Vec::new();
    let mut reply = Reply::Done;
    loop {
        let request = cli.step(reply).unwrap();
        reply = match request {
            Request::Stop => {
                assert!(cli.is_over());
                return requests;
            }
            Request::AskForAction
            | Request::AddTodo
            | Request::SelectTodo
            | Request::AskForTodoAction(_) => answers.next().unwrap(),
            _ => Reply::Done,
        };
        requests.push(request);
    }
}

fn count(requests: &[Request], wanted: fn(&Request) -> bool) -> usize {
    requests.iter().filter(|request| wanted(request)).count()
}

fn done_one() -> Todo {
    Todo { done: true, ..plain() }
}

fn updated_one() -> Todo {
    Todo { message: "todo 1 updated".to_string(), ..plain() }
}

fn times(calls: &Rc<RefCell<Vec<&'static str>>>, name: &str) -> usize {
    calls.borrow().iter().filter(|call| **call == name).count()
}

#[test]
fn exit() {
    let requests = run(FixedStorage::with(plain(), true), vec![Reply::Action(Action::Exit)]);
    assert_eq!(count(&requests, |r| matches!(r, Request::Welcome)), 1);
    assert_eq!(count(&requests, |r| matches!(r, Request::AskForAction)), 1);
    assert_eq!(count(&requests, |r| matches!(r, Request::Exit)), 1);
    assert_eq!(requests.len(), 3);
}

#[test]
fn cli_add() {
    let storage = FixedStorage::with(plain(), true);
    let calls = storage.calls.clone();
    let requests = run(
        storage,
        vec![
            Reply::Action(Action::Add),
            Reply::Message(plain().message),
            Reply::Action(Action::Exit),
        ],
    );
    assert_eq!(count(&requests, |r| matches!(r, Request::Welcome)), 1);
    assert_eq!(count(&requests, |r| matches!(r, Request::AskForAction)), 2);
    assert_eq!(count(&requests, |r| matches!(r, Request::AddTodo)), 1);
    assert_eq!(
        count(&requests, |r| match r {
            Request::ShowSuccess(todo, msg) =>
                todo.message == "todo 1" && *msg == "adicionado com sucesso",
            _ => false,
        }),
        1
    );
    assert_eq!(count(&requests, |r| matches!(r, Request::ShowError(_))), 0);
    assert_eq!(count(&requests, |r| matches!(r, Request::PressKey)), 1);
    assert_eq!(times(&calls, "add"), 1);
}

#[test]
fn cli_list() {
    let storage = FixedStorage::with(plain(), true);
    let calls = storage.calls.clone();
    let requests =
        run(storage, vec![Reply::Action(Action::List), Reply::Action(Action::Exit)]);
    assert_eq!(count(&requests, |r| matches!(r, Request::Welcome)), 1);
    assert_eq!(
        count(&requests, |r| match r {
            Request::ListTodo(todos) => !todos.is_empty(),
            _ => false,
        }),
        1
    );
    assert_eq!(count(&requests, |r| matches!(r, Request::PressKey)), 1);
    assert_eq!(count(&requests, |r| matches!(r, Request::Exit)), 1);
    assert_eq!(times(&calls, "list"), 1);
}

#[test]
fn edit_id_invalid() {
    let storage = FixedStorage::with(plain(), true);
    let calls = storage.calls.clone();
    let requests = run(
        storage,
        vec![Reply::Action(Action::Edit), Reply::Id(None), Reply::Action(Action::Exit)],
    );
    assert_eq!(count(&requests, |r| matches!(r, Request::Welcome)), 1);
    assert_eq!(count(&requests, |r| matches!(r, Request::AskForAction)), 2);
    assert_eq!(count(&requests, |r| matches!(r, Request::ListTodo(_))), 1);
    assert_eq!(
        count(&requests, |r| match r {
            Request::ShowError(msg) => *msg == "O ID informado é inválido",
            _ => false,
        }),
        1
    );
    assert_eq!(count(&requests, |r| matches!(r, Request::ShowError(_))), 1);
    assert_eq!(count(&requests, |r| matches!(r, Request::PressKey)), 1);
    assert_eq!(count(&requests, |r| matches!(r, Request::Exit)), 1);
    assert_eq!(times(&calls, "list"), 1);
    assert_eq!(times(&calls, "exist"), 0);
}

#[test]
fn edit_todo_not_exist() {
    let storage = FixedStorage::with(plain(), false);
    let calls = storage.calls.clone();
    let requests = run(
        storage,
        vec![Reply::Action(Action::Edit), Reply::Id(Some(10)), Reply::Action(Action::Exit)],
    );
    assert_eq!(count(&requests, |r| matches!(r, Request::Welcome)), 1);
    assert_eq!(count(&requests, |r| matches!(r, Request::AskForAction)), 2);
    assert_eq!(count(&requests, |r| matches!(r, Request::ListTodo(_))), 1);
    assert_eq!(
        count(&requests, |r| match r {
            Request::ShowError(msg) => msg.contains("Não existe"),
            _ => false,
        }),
        1
    );
    assert_eq!(count(&requests, |r| matches!(r, Request::AskForTodoAction(_))), 0);
    assert_eq!(count(&requests, |r| matches!(r, Request::Exit)), 1);
    assert_eq!(times(&calls, "list"), 1);
    assert_eq!(times(&calls, "exist"), 1);
}

#[test]
fn cli_done() {
    let storage = FixedStorage::with(done_one(), true);
    let calls = storage.calls.clone();
    let requests = run(
        storage,
        vec![
            Reply::Action(Action::Edit),
            Reply::Id(Some(1)),
            Reply::Action(Action::Done(1)),
            Reply::Action(Action::Exit),
        ],
    );
    assert_eq!(count(&requests, |r| matches!(r, Request::Welcome)), 1);
    assert_eq!(count(&requests, |r| matches!(r, Request::AskForAction)), 2);
    assert_eq!(count(&requests, |r| matches!(r, Request::ListTodo(_))), 1);
    assert_eq!(count(&requests, |r| matches!(r, Request::AskForTodoAction(1))), 1);
    assert_eq!(count(&requests, |r| matches!(r, Request::AskForTodoAction(_))), 1);
    assert_eq!(
        count(&requests, |r| match r {
            Request::ShowSuccess(todo, msg) => todo.done && msg.contains("marcado como feito"),
            _ => false,
        }),
        1
    );
    assert_eq!(count(&requests, |r| matches!(r, Request::Exit)), 1);
    assert_eq!(times(&calls, "list"), 1);
    assert_eq!(times(&calls, "exist"), 1);
    assert_eq!(times(&calls, "done"), 1);
}

#[test]
fn cli_update() {
    let storage = FixedStorage::with(updated_one(), true);
    let calls = storage.calls.clone();
    let requests = run(
        storage,
        vec![
            Reply::Action(Action::Edit),
            Reply::Id(Some(1)),
            Reply::Action(Action::Update(1, "updated".to_string())),
            Reply::Action(Action::Exit),
        ],
    );
    assert_eq!(count(&requests, |r| matches!(r, Request::Welcome)), 1);
    assert_eq!(count(&requests, |r| matches!(r, Request::AskForAction)), 2);
    assert_eq!(count(&requests, |r| matches!(r, Request::ListTodo(_))), 1);
    assert_eq!(count(&requests, |r| matches!(r, Request::AskForTodoAction(_))), 1);
    assert_eq!(
        count(&requests, |r| match r {
            Request::ShowSuccess(todo, msg) =>
                todo.message.contains("updated") && msg.contains("atualizado com sucesso"),
            _ => false,
        }),
        1
    );
    assert_eq!(count(&requests, |r| matches!(r, Request::Exit)), 1);
    assert_eq!(times(&calls, "list"), 1);
    assert_eq!(times(&calls, "exist"), 1);
    assert_eq!(times(&calls, "update"), 1);
}

#[test]
fn cli_delete() {
    let storage = FixedStorage::with(plain(), true);
    let calls = storage.calls.clone();
    let requests = run(
        storage,
        vec![
            Reply::Action(Action::Edit),
            Reply::Id(Some(1)),
            Reply::Action(Action::Delete(1)),
            Reply::Action(Action::Exit),
        ],
    );
    assert_eq!(count(&requests, |r| matches!(r, Request::Welcome)), 1);
    assert_eq!(count(&requests, |r| matches!(r, Request::AskForAction)), 2);
    assert_eq!(count(&requests, |r| matches!(r, Request::ListTodo(_))), 1);
    assert_eq!(count(&requests, |r| matches!(r, Request::AskForTodoAction(_))), 1);
    assert_eq!(
        count(&requests, |r| match r {
            Request::ShowSuccess(todo, msg) => todo.id == 1 && msg.contains("deletado com sucesso"),
            _ => false,
        }),
        1
    );
    assert_eq!(count(&requests, |r| matches!(r, Request::Exit)), 1);
    assert_eq!(times(&calls, "list"), 1);
    assert_eq!(times(&calls, "exist"), 1);
    assert_eq!(times(&calls, "delete"), 1);
}

#[test]
fn requests_follow_in_the_order_of_an_edit() {
    let requests = run(
        FixedStorage::with(done_one(), true),
        vec![
            Reply::Action(Action::Edit),
            Reply::Id(Some(1)),
            Reply::Action(Action::Done(1)),
            Reply::Action(Action::Exit),
        ],
    );
    let kinds: Vec<&str> = requests
        .iter()
        .map(|request| match request {
            Request::Welcome => "welcome",
            Request::AskForAction => "ask",
            Request::AddTodo => "add",
            Request::PressKey => "key",
            Request::ListTodo(_) => "list",
            Request::SelectTodo => "select",
            Request::AskForTodoAction(_) => "menu",
            Request::ShowSuccess(_, _) => "success",
            Request::ShowError(_) => "error",
            Request::Exit => "exit",
            Request::Stop => "stop",
        })
        .collect();
    assert_eq!(
        kinds,
        vec!["welcome", "ask", "list", "select", "menu", "success", "key", "ask", "exit"]
    );
}

#[test]
fn leaving_the_menu_of_a_task_changes_nothing() {
    let storage = FixedStorage::with(plain(), true);
    let calls = storage.calls.clone();
    let requests = run(
        storage,
        vec![
            Reply::Action(Action::Edit),
            Reply::Id(Some(1)),
            Reply::Action(Action::Exit),
            Reply::Action(Action::Exit),
        ],
    );
    assert_eq!(count(&requests, |r| matches!(r, Request::ShowSuccess(_, _))), 0);
    assert_eq!(count(&requests, |r| matches!(r, Request::ShowError(_))), 0);
    assert_eq!(count(&requests, |r| matches!(r, Request::PressKey)), 1);
    assert_eq!(times(&calls, "done") + times(&calls, "delete") + times(&calls, "update"), 0);
}

#[test]
fn a_choice_that_the_main_menu_does_not_offer_asks_again() {
    let requests = run(
        FixedStorage::with(plain(), true),
        vec![Reply::Action(Action::Done(1)), Reply::Action(Action::Exit)],
    );
    assert_eq!(count(&requests, |r| matches!(r, Request::AskForAction)), 2);
    assert_eq!(requests.len(), 4);
}

#[test]
fn after_the_end_nothing_more_is_asked() {
    let mut cli = TodoCli::new(FixedStorage::with(plain(), true));
    assert!(!cli.is_over());
    assert!(matches!(cli.step(Reply::Done), Ok(Request::Welcome)));
    assert!(matches!(cli.step(Reply::Done), Ok(Request::AskForAction)));
    assert!(matches!(cli.step(Reply::Action(Action::Exit)), Ok(Request::Exit)));
    assert!(matches!(cli.step(Reply::Done), Ok(Request::Stop)));
    assert!(cli.is_over());
    assert!(matches!(cli.step(Reply::Action(Action::Add)), Ok(Request::Stop)));
    assert!(cli.is_over());
}

/// A file that keeps nothing: it starts empty, and fails each `save` when
/// told to.
struct FailingFile {
    fails: bool,
    counter: u32,
}

impl TodoFile for FailingFile {
    fn load(&self) -> Result<(u32, BTreeMap<u32, Todo>), AppError> {
        Ok((self.counter, BTreeMap::new()))
    }

    fn save(&mut self, _sequence: u32, _todo_list: &BTreeMap<u32, Todo>) -> Result<(), AppError> {
        if self.fails {
            Err(AppError::Write(std::io::Error::other("disk full")))
        } else {
            Ok(())
        }
    }
}

#[test]
fn a_failure_of_the_store_ends_the_run() {
    let store = Todos::new(FailingFile { fails: true, counter: 0 }).unwrap();
    let mut cli = TodoCli::new(store);
    assert!(matches!(cli.step(Reply::Done), Ok(Request::Welcome)));
    assert!(matches!(cli.step(Reply::Done), Ok(Request::AskForAction)));
    assert!(matches!(cli.step(Reply::Action(Action::Add)), Ok(Request::AddTodo)));
    let failed = cli.step(Reply::Message("buy milk".to_string()));
    assert!(matches!(failed, Err(AppError::Write(_))));
    assert!(cli.is_over());
}

#[test]
fn report_has_words_for_each_change() {
    let task = plain();
    let cases = [
        (Change::Add, "adicionado com sucesso", "Não foi possível adicionar o TODO"),
        (Change::Done, "marcado como feito", "Não foi possível marcar o TODO como feito"),
        (Change::Delete, "deletado com sucesso", "Não foi possível deletar o TODO"),
        (Change::Update, "atualizado com sucesso!", "Não foi possível atualizar o TODO"),
    ];
    for (change, praise, regret) in cases {
        match report(change, Some(&task)) {
            Notice::Success(shown, words) => {
                assert_eq!(shown, task);
                assert_eq!(words, praise);
            }
            Notice::Failure(_) => panic!("a task was found"),
        }
        match report(change, None) {
            Notice::Failure(words) => assert_eq!(words, regret),
            Notice::Success(_, _) => panic!("no task was found"),
        }
    }
}

#[test]
fn append_adds_while_an_identifier_is_left() {
    let mut store = Todos::new(FailingFile { fails: false, counter: u32::MAX - 1 }).unwrap();
    assert!(store.can_add());
    match append(&mut store, "last".to_string()).unwrap() {
        Notice::Success(task, words) => {
            assert_eq!(task, Todo { id: u32::MAX, message: "last".to_string(), done: false });
            assert_eq!(words, "adicionado com sucesso");
        }
        Notice::Failure(_) => panic!("an identifier was left"),
    }
    assert!(!store.can_add());
    assert_eq!(store.sequence(), u32::MAX);
    match append(&mut store, "one too many".to_string()).unwrap() {
        Notice::Failure(words) => assert_eq!(words, "Não foi possível adicionar o TODO"),
        Notice::Success(_, _) => panic!("no identifier was left"),
    }
    assert_eq!(store.sequence(), u32::MAX);
    assert_eq!(store.list().unwrap().len(), 1);
}

#[test]
fn perform_changes_one_task_or_nothing() {
    let mut store = Todos::new(FailingFile { fails: false, counter: 0 }).unwrap();
    store.add("a".to_string()).unwrap();
    store.add("b".to_string()).unwrap();
    assert!(perform(&mut store, Action::Add).unwrap().is_none());
    assert!(perform(&mut store, Action::List).unwrap().is_none());
    assert!(perform(&mut store, Action::Edit).unwrap().is_none());
    assert!(perform(&mut store, Action::Exit).unwrap().is_none());
    match perform(&mut store, Action::Done(2)).unwrap() {
        Some(Notice::Success(task, words)) => {
            assert_eq!(task, Todo { id: 2, message: "b".to_string(), done: true });
            assert_eq!(words, "marcado como feito");
        }
        _ => panic!("the second task is there"),
    }
    match perform(&mut store, Action::Update(1, "c".to_string())).unwrap() {
        Some(Notice::Success(task, words)) => {
            assert_eq!(task, Todo { id: 1, message: "c".to_string(), done: false });
            assert_eq!(words, "atualizado com sucesso!");
        }
        _ => panic!("the first task is there"),
    }
    match perform(&mut store, Action::Delete(1)).unwrap() {
        Some(Notice::Success(task, words)) => {
            assert_eq!(task, Todo { id: 1, message: "c".to_string(), done: false });
            assert_eq!(words, "deletado com sucesso");
        }
        _ => panic!("the first task is there"),
    }
    match perform(&mut store, Action::Delete(1)).unwrap() {
        Some(Notice::Failure(words)) => assert_eq!(words, "Não foi possível deletar o TODO"),
        _ => panic!("the first task is gone"),
    }
    match perform(&mut store, Action::Done(9)).unwrap() {
        Some(Notice::Failure(words)) => {
            assert_eq!(words, "Não foi possível marcar o TODO como feito")
        }
        _ => panic!("there is no ninth task"),
    }
    match perform(&mut store, Action::Update(9, "d".to_string())).unwrap() {
        Some(Notice::Failure(words)) => assert_eq!(words, "Não foi possível atualizar o TODO"),
        _ => panic!("there is no ninth task"),
    }
    assert_eq!(store.list().unwrap().len(), 1);
}

#[test]
fn pick_takes_an_identifier_that_a_task_has() {
    let mut store = Todos::new(FailingFile { fails: false, counter: 0 }).unwrap();
    store.add("a".to_string()).unwrap();
    assert_eq!(pick(&store, Some(1)).unwrap().unwrap(), 1);
    match pick(&store, Some(2)).unwrap() {
        Err(Notice::Failure(words)) => assert_eq!(words, "Não existe um TODO com esse ID"),
        _ => panic!("there is no second task"),
    }
    match pick(&store, None).unwrap() {
        Err(Notice::Failure(words)) => assert_eq!(words, "O ID informado é inválido"),
        _ => panic!("nothing was typed"),
    }
}

#[test]
fn message_names_what_failed_and_why() {
    let cause = || std::io::Error::other("disk full");
    assert_eq!(
        AppError::Stdout(cause()).message(),
        "Erro ao escrever no terminal: disk full"
    );
    assert_eq!(AppError::Stdin(cause()).message(), "Erro ao ler do terminal: disk full");
    assert_eq!(
        AppError::Write(cause()).message(),
        "Não foi possível escrever no arquivo: disk full"
    );
    assert_eq!(AppError::Read(cause()).message(), "Não foi possível ler o arquivo: disk full");
    let broken = serde_json::from_str::<serde_json::Value>("[").unwrap_err();
    let words = broken.to_string();
    assert!(!words.is_empty());
    assert_eq!(
        AppError::Parse(broken).message(),
        format!("Não foi possível parsear o arquivo: {words}")
    );
}
