use std::cell::RefCell;
use std::collections::BTreeMap;
use std::rc::Rc;

use todo_cli::cli::AppError;
use todo_cli::storage::file::decode;
use todo_cli::storage::file::encode;
use todo_cli::storage::file::loaded;
use todo_cli::storage::file::TodoFile;
use todo_cli::storage::TodoStorage;
use todo_cli::storage::Todos;
use todo_cli::todo::Todo;

/// What a file double was handed, call by call: the counter and the number
/// of tasks.
type Calls = Rc<RefCell<Vec<(u32, usize)>>>;

/// A file that holds a fixed state and notes each `save`.
struct NotingFile {
    kept: (u32, Vec<(u32, String, bool)>),
    calls: Calls,
}

impl NotingFile {
    fn with_three() -> (Self, Calls) {
        let calls: Calls = Rc::new(RefCell::new(Vec::new()));
        let kept = (
            5,
            vec![
                (1, "todo 1".to_string(), true),
                (2, "todo 2".to_string(), false),
                (5, "todo 5".to_string(), false),
            ],
        );
        (Self { kept, calls: calls.clone() }, calls)
    }
}

impl TodoFile for NotingFile {
    fn load(&self) -> Result<(u32, BTreeMap<u32, Todo>), AppError> {
        let mut map = BTreeMap::new();
        for (id, message, done) in self.kept.1.iter() {
            map.insert(*id, Todo { id: *id, message: message.clone(), done: *done });
        }
        Ok((self.kept.0, map))
    }

    fn save(&mut self, sequence: u32, todo_list: &BTreeMap<u32, Todo>) -> Result<(), AppError> {
        self.calls.borrow_mut().push((sequence, todo_list.len()));
        Ok(())
    }
}

#[test]
fn exist() {
    let (file, _calls) = NotingFile::with_three();
    let todos = Todos::new(file).unwrap();
    assert!(todos.exist(1).unwrap());
    assert!(todos.exist(2).unwrap());
    assert!(!todos.exist(3).unwrap());
    assert!(!todos.exist(4).unwrap());
    assert!(todos.exist(5).unwrap());
}

#[test]
fn storage_list() {
    let (file, _calls) = NotingFile::with_three();
    let todos = Todos::new(file).unwrap();
    let list = todos.list().unwrap();
    assert_eq!(list.len(), 3);
    assert_eq!(*list[0], Todo { id: 1, message: "todo 1".to_string(), done: true });
    assert_eq!(*list[1], Todo { id: 2, message: "todo 2".to_string(), done: false });
    assert_eq!(*list[2], Todo { id: 5, message: "todo 5".to_string(), done: false });
}

#[test]
fn storage_add() {
    let (file, calls) = NotingFile::with_three();
    let mut todos = Todos::new(file).unwrap();
    todos.add("todo 6".to_string()).unwrap();
    assert_eq!(*calls.borrow(), vec![(6, 4)]);
    let list = todos.list().unwrap();
    assert_eq!(*list[3], Todo { id: 6, message: "todo 6".to_string(), done: false });
}

#[test]
fn storage_update() {
    let (file, calls) = NotingFile::with_three();
    let mut todos = Todos::new(file).unwrap();

    assert_eq!(todos.update(3, "n√£o existe".to_string()).unwrap(), None);
    assert!(calls.borrow().is_empty());

    todos.update(5, "todo alterado".to_string()).unwrap();
    assert_eq!(*calls.borrow(), vec![(5, 3)]);

    let list = todos.list().unwrap();
    assert_eq!(list[2].message, "todo alterado".to_string());
}

#[test]
fn storage_done() {
    let (file, calls) = NotingFile::with_three();
    let mut todos = Todos::new(file).unwrap();

    assert_eq!(todos.done(3).unwrap(), None);
    assert!(calls.borrow().is_empty());

    todos.done(5).unwrap();
    assert_eq!(*calls.borrow(), vec![(5, 3)]);

    let list = todos.list().unwrap();
    assert!(list[2].done);
}

#[test]
fn storage_delete() {
    let (file, calls) = NotingFile::with_three();
    let mut todos = Todos::new(file).unwrap();

    assert_eq!(todos.delete(3).unwrap(), None);
    assert!(calls.borrow().is_empty());

    todos.delete(5).unwrap();
    assert_eq!(*calls.borrow(), vec![(5, 2)]);

    assert!(!todos.exist(5).unwrap());
}

/// A file in memory: it keeps the text that was written last, as a file on
/// disk would, and can be told to fail.
struct TextFile {
    text: Rc<RefCell<Option<String>>>,
    writes: Rc<RefCell<usize>>,
    fails: Rc<RefCell<bool>>,
}

impl TextFile {
    fn holding(text: Option<&str>) -> Self {
        Self {
            text: Rc::new(RefCell::new(text.map(|t| t.to_string()))),
            writes: Rc::new(RefCell::new(0)),
            fails: Rc::new(RefCell::new(false)),
        }
    }
}

impl TodoFile for TextFile {
    fn load(&self) -> Result<(u32, BTreeMap<u32, Todo>), AppError> {
        Ok(loaded(self.text.borrow().as_deref()))
    }

    fn save(&mut self, sequence: u32, todo_list: &BTreeMap<u32, Todo>) -> Result<(), AppError> {
        *self.writes.borrow_mut() += 1;
        if *self.fails.borrow() {
            return Err(AppError::Write(std::io::Error::other("disk full")));
        }
        *self.text.borrow_mut() = Some(encode(sequence, todo_list));
        Ok(())
    }
}

#[test]
fn fresh_start() {
    let file = TextFile::holding(None);
    let text = file.text.clone();
    let mut todos = Todos::new(file).unwrap();
    assert_eq!(todos.sequence(), 0);
    assert!(todos.list().unwrap().is_empty());

    let added = todos.add("buy milk".to_string()).unwrap().cloned();
    assert_eq!(added, Some(Todo { id: 1, message: "buy milk".to_string(), done: false }));

    let list = todos.list().unwrap();
    assert_eq!(list.len(), 1);
    assert_eq!(*list[0], Todo { id: 1, message: "buy milk".to_string(), done: false });
    assert_eq!(
        text.borrow().as_deref(),
        Some(r#"[1,{"1":{"id":1,"message":"buy milk","done":false}}]"#)
    );
}

#[test]
fn full_lifecycle() {
    let file = TextFile::holding(Some(
        r#"[5,{"1":{"id":1,"message":"todo 1","done":true},"2":{"id":2,"message":"todo 2","done":false},"5":{"id":5,"message":"todo 5","done":false}}]"#,
    ));
    let text = file.text.clone();
    let mut todos = Todos::new(file).unwrap();

    let added = todos.add("x".to_string()).unwrap().cloned();
    assert_eq!(added, Some(Todo { id: 6, message: "x".to_string(), done: false }));

    let updated = todos.update(2, "y".to_string()).unwrap().cloned();
    assert_eq!(updated, Some(Todo { id: 2, message: "y".to_string(), done: false }));
    {
        let list = todos.list().unwrap();
        assert_eq!(*list[0], Todo { id: 1, message: "todo 1".to_string(), done: true });
        assert_eq!(*list[2], Todo { id: 5, message: "todo 5".to_string(), done: false });
        assert_eq!(*list[3], Todo { id: 6, message: "x".to_string(), done: false });
    }

    let done = todos.done(5).unwrap().cloned();
    assert_eq!(done, Some(Todo { id: 5, message: "todo 5".to_string(), done: true }));

    let deleted = todos.delete(1).unwrap();
    assert_eq!(deleted, Some(Todo { id: 1, message: "todo 1".to_string(), done: true }));

    let ids: Vec<u32> = todos.list().unwrap().iter().map(|todo| todo.id).collect();
    assert_eq!(ids, vec![2, 5, 6]);
    assert_eq!(todos.sequence(), 6);
    assert_eq!(
        text.borrow().as_deref(),
        Some(
            r#"[6,{"2":{"id":2,"message":"y","done":false},"5":{"id":5,"message":"todo 5","done":true},"6":{"id":6,"message":"x","done":false}}]"#
        )
    );
}

#[test]
fn corrupt_resource() {
    for text in ["\u{0}\u{1}garbage", "{\"not\":\"a list\"}", "[1,2,3]", "[1,{\"1\":{}}]"] {
        let todos = Todos::new(TextFile::holding(Some(text))).unwrap();
        assert_eq!(todos.sequence(), 0);
        assert!(todos.list().unwrap().is_empty());
    }
}

#[test]
fn what_is_saved_is_loaded_again() {
    let file = TextFile::holding(None);
    let text = file.text.clone();
    let mut todos = Todos::new(file).unwrap();
    todos.add("first \"one\"".to_string()).unwrap();
    todos.add("second\nline \\ \u{1} \u{e9}".to_string()).unwrap();
    todos.add(String::new()).unwrap();
    todos.done(2).unwrap();
    todos.delete(1).unwrap();
    let before: Vec<Todo> = todos.list().unwrap().into_iter().cloned().collect();

    let kept = text.borrow().clone();
    let again = Todos::new(TextFile::holding(kept.as_deref())).unwrap();
    let after: Vec<Todo> = again.list().unwrap().into_iter().cloned().collect();
    assert_eq!(after, before);
    assert_eq!(again.sequence(), 3);
    let (sequence, map) = decode(kept.as_deref().unwrap());
    assert_eq!(sequence, 3);
    assert_eq!(map.keys().copied().collect::<Vec<u32>>(), vec![2, 3]);
}

#[test]
fn add_gives_each_task_the_next_identifier() {
    let mut todos = Todos::new(TextFile::holding(None)).unwrap();
    for expected in 1..=20_u32 {
        let id = todos.add(format!("task {expected}")).unwrap().unwrap().id;
        assert_eq!(id, expected);
        assert_eq!(todos.sequence(), expected);
    }
    let ids: Vec<u32> = todos.list().unwrap().iter().map(|todo| todo.id).collect();
    assert_eq!(ids, (1..=20).collect::<Vec<u32>>());
}

#[test]
fn a_deleted_identifier_is_not_given_again() {
    let mut todos = Todos::new(TextFile::holding(None)).unwrap();
    todos.add("a".to_string()).unwrap();
    todos.add("b".to_string()).unwrap();
    todos.add("c".to_string()).unwrap();
    todos.delete(3).unwrap();
    todos.delete(1).unwrap();
    for _ in 0..5 {
        let id = todos.add("more".to_string()).unwrap().unwrap().id;
        assert!(id > 3);
        assert!(!todos.exist(1).unwrap());
        assert!(!todos.exist(3).unwrap());
    }
    let ids: Vec<u32> = todos.list().unwrap().iter().map(|todo| todo.id).collect();
    assert_eq!(ids, vec![2, 4, 5, 6, 7, 8]);
}

#[test]
fn an_absent_identifier_changes_nothing_and_saves_nothing() {
    let file = TextFile::holding(Some(r#"[5,{"2":{"id":2,"message":"b","done":false}}]"#));
    let text = file.text.clone();
    let writes = file.writes.clone();
    let mut todos = Todos::new(file).unwrap();
    assert_eq!(todos.update(1, "x".to_string()).unwrap(), None);
    assert_eq!(todos.done(1).unwrap(), None);
    assert_eq!(todos.delete(1).unwrap(), None);
    assert_eq!(todos.update(6, "x".to_string()).unwrap(), None);
    assert_eq!(*writes.borrow(), 0);
    assert_eq!(
        text.borrow().as_deref(),
        Some(r#"[5,{"2":{"id":2,"message":"b","done":false}}]"#)
    );
    assert_eq!(todos.sequence(), 5);
    assert_eq!(todos.list().unwrap().len(), 1);
}

#[test]
fn done_twice_is_done_and_saves_twice() {
    let file = TextFile::holding(Some(r#"[5,{"2":{"id":2,"message":"b","done":false}}]"#));
    let writes = file.writes.clone();
    let mut todos = Todos::new(file).unwrap();
    let first = todos.done(2).unwrap().cloned();
    assert_eq!(first, Some(Todo { id: 2, message: "b".to_string(), done: true }));
    assert_eq!(*writes.borrow(), 1);
    let second = todos.done(2).unwrap().cloned();
    assert_eq!(second, Some(Todo { id: 2, message: "b".to_string(), done: true }));
    assert_eq!(*writes.borrow(), 2);
}

#[test]
fn list_is_in_ascending_order_whatever_the_order_of_changes() {
    let mut todos = Todos::new(TextFile::holding(None)).unwrap();
    for n in 0..12 {
        todos.add(format!("{n}")).unwrap();
    }
    for id in [7, 2, 11, 1, 12] {
        todos.delete(id).unwrap();
    }
    todos.update(9, "nine".to_string()).unwrap();
    todos.add("late".to_string()).unwrap();
    todos.done(3).unwrap();
    let ids: Vec<u32> = todos.list().unwrap().iter().map(|todo| todo.id).collect();
    assert_eq!(ids, vec![3, 4, 5, 6, 8, 9, 10, 13]);
}

#[test]
fn a_failure_of_the_file_is_handed_on_and_the_change_stays() {
    let file = TextFile::holding(Some(r#"[1,{"1":{"id":1,"message":"a","done":false}}]"#));
    let text = file.text.clone();
    let fails = file.fails.clone();
    let mut todos = Todos::new(file).unwrap();
    *fails.borrow_mut() = true;

    assert!(matches!(todos.add("b".to_string()), Err(AppError::Write(_))));
    assert!(todos.exist(2).unwrap());
    assert_eq!(todos.sequence(), 2);
    assert!(matches!(todos.done(1), Err(AppError::Write(_))));
    assert!(todos.list().unwrap()[0].done);
    assert!(matches!(todos.update(1, "c".to_string()), Err(AppError::Write(_))));
    assert_eq!(todos.list().unwrap()[0].message, "c");
    assert!(matches!(todos.delete(1), Err(AppError::Write(_))));
    assert!(!todos.exist(1).unwrap());
    assert_eq!(
        text.borrow().as_deref(),
        Some(r#"[1,{"1":{"id":1,"message":"a","done":false}}]"#)
    );

    *fails.borrow_mut() = false;
    assert_eq!(todos.update(9, "x".to_string()).unwrap(), None);
    todos.update(2, "d".to_string()).unwrap();
    assert_eq!(
        text.borrow().as_deref(),
        Some(r#"[2,{"2":{"id":2,"message":"d","done":false}}]"#)
    );
}

/// A file that cannot be read.
struct UnreadableFile;

impl TodoFile for UnreadableFile {
    fn load(&self) -> Result<(u32, BTreeMap<u32, Todo>), AppError> {
        Err(AppError::Read(std::io::Error::other("no permission")))
    }

    fn save(&mut self, _sequence: u32, _todo_list: &BTreeMap<u32, Todo>) -> Result<(), AppError> {
        Ok(())
    }
}

#[test]
fn a_file_that_cannot_be_read_gives_no_store() {
    assert!(matches!(Todos::new(UnreadableFile), Err(AppError::Read(_))));
}

#[test]
fn restore_takes_the_state_as_it_is() {
    let map = BTreeMap::from([
        (1, Todo { id: 1, message: "a".to_string(), done: false }),
        (4, Todo { id: 4, message: "b".to_string(), done: true }),
    ]);
    let todos = Todos::restore(TextFile::holding(None), 4, map.clone());
    assert_eq!(todos.sequence(), 4);
    assert_eq!(todos.list().unwrap().len(), 2);

    let high = Todos::restore(TextFile::holding(None), 9, map.clone());
    assert_eq!(high.sequence(), 9);
    assert_eq!(high.list().unwrap().len(), 2);

    let low = Todos::restore(TextFile::holding(None), 3, map.clone());
    assert_eq!(low.sequence(), 3);
    assert_eq!(
        low.list().unwrap().into_iter().cloned().collect::<Vec<Todo>>(),
        map.values().cloned().collect::<Vec<Todo>>()
    );
    assert!(low.exist(4).unwrap());

    let other = BTreeMap::from([(1, Todo { id: 2, message: "a".to_string(), done: false })]);
    let crossed = Todos::restore(TextFile::holding(None), 5, other);
    assert_eq!(crossed.sequence(), 5);
    assert!(crossed.exist(1).unwrap());
    assert!(!crossed.exist(2).unwrap());
    assert_eq!(
        *crossed.list().unwrap()[0],
        Todo { id: 2, message: "a".to_string(), done: false }
    );
}

#[test]
fn a_counter_below_an_identifier_is_loaded_as_it_is() {
    let text = r#"[3,{"4":{"id":4,"message":"late","done":false}}]"#;
    let file = TextFile::holding(Some(text));
    let kept = file.text.clone();
    let writes = file.writes.clone();
    let mut todos = Todos::new(file).unwrap();
    assert_eq!(todos.sequence(), 3);
    assert!(todos.exist(4).unwrap());
    assert_eq!(*writes.borrow(), 0);
    assert_eq!(kept.borrow().as_deref(), Some(text));

    todos.done(4).unwrap();
    assert_eq!(
        kept.borrow().as_deref(),
        Some(r#"[3,{"4":{"id":4,"message":"late","done":true}}]"#)
    );
}

#[test]
fn can_add_until_the_last_identifier() {
    let map = BTreeMap::new();
    let almost = Todos::restore(TextFile::holding(None), u32::MAX - 1, map.clone());
    assert!(almost.can_add());
    let full = Todos::restore(TextFile::holding(None), u32::MAX, map);
    assert!(!full.can_add());
}

#[test]
fn empty_message_is_taken() {
    let mut todos = Todos::new(TextFile::holding(None)).unwrap();
    let added = todos.add(String::new()).unwrap().cloned();
    assert_eq!(added, Some(Todo { id: 1, message: String::new(), done: false }));
}

#[test]
fn started_makes_a_store_of_an_answer_and_hands_a_failure_on() {
    let map = BTreeMap::from([(2, Todo { id: 2, message: "b".to_string(), done: true })]);
    let store = Todos::started(TextFile::holding(None), Ok((4, map))).unwrap();
    assert_eq!(store.sequence(), 4);
    assert_eq!(
        store.list().unwrap().into_iter().cloned().collect::<Vec<Todo>>(),
        vec![Todo { id: 2, message: "b".to_string(), done: true }]
    );

    let late = BTreeMap::from([(4, Todo { id: 4, message: "b".to_string(), done: true })]);
    let low = Todos::started(TextFile::holding(None), Ok((3, late))).unwrap();
    assert_eq!(low.sequence(), 3);
    assert_eq!(
        low.list().unwrap().into_iter().cloned().collect::<Vec<Todo>>(),
        vec![Todo { id: 4, message: "b".to_string(), done: true }]
    );

    let denied = std::io::Error::from(std::io::ErrorKind::PermissionDenied);
    match Todos::started(TextFile::holding(None), Err(AppError::Read(denied))) {
        Err(AppError::Read(cause)) => {
            assert_eq!(cause.kind(), std::io::ErrorKind::PermissionDenied)
        }
        _ => panic!("the failure of the read is handed on"),
    }
}
