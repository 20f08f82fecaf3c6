//! The store: the tasks in memory, the counter that numbers them, and the
//! operations on them.

pub mod file;
pub mod laws;
pub mod order;
pub mod roundtrip;
pub mod scan;
pub mod text;

use std::collections::BTreeMap;
use vstd::prelude::*;
use vstd::std_specs::iter::IteratorSpec;
use crate::cli::AppError;
use crate::storage::file::TodoFile;
use crate::todo::Todo;
use crate::todo::TodoView;

verus! {

broadcast use vstd::std_specs::btree::group_btree_axioms;

/// The mathematical value of a store: the highest identifier ever given, and
/// the tasks by identifier.
pub struct StoreView {
    pub sequence: u32,
    pub mapping: Map<u32, TodoView>,
}

/// One call of [`TodoFile::save`]: what was handed to it and what it answered.
pub struct Attempt {
    pub sequence: u32,
    pub mapping: Map<u32, TodoView>,
    pub outcome: Result<(), AppError>,
}

/// The tasks of a map, each by its value.
pub open spec fn tasks(todo_list: Map<u32, Todo>) -> Map<u32, TodoView> {
    Map::new(|id: u32| todo_list.contains_key(id), |id: u32| todo_list[id]@)
}

/// The store before anything was added: no task, and no identifier given.
pub open spec fn initial() -> StoreView {
    StoreView { sequence: 0, mapping: Map::empty() }
}

/// What a sound store holds: finitely many tasks, each under its own
/// identifier, none above the counter. The empty store is sound, and every
/// operation keeps a store sound.
pub open spec fn valid(state: StoreView) -> bool {
    &&& state.mapping.dom().finite()
    &&& forall|id: u32| #[trigger]
        state.mapping.contains_key(id) ==> state.mapping[id].id == id && id <= state.sequence
}

/// The task that `add` creates in `state`.
pub open spec fn created(state: StoreView, message: Seq<char>) -> TodoView
    recommends
        state.sequence < u32::MAX,
{
    TodoView { id: (state.sequence + 1) as u32, message, done: false }
}

/// The store after `add`.
pub open spec fn added(state: StoreView, message: Seq<char>) -> StoreView
    recommends
        state.sequence < u32::MAX,
{
    StoreView {
        sequence: (state.sequence + 1) as u32,
        mapping: state.mapping.insert((state.sequence + 1) as u32, created(state, message)),
    }
}

/// The store after `update`: the task `id`, if there is one, has the new
/// message; nothing else differs.
pub open spec fn updated(state: StoreView, id: u32, message: Seq<char>) -> StoreView {
    if state.mapping.contains_key(id) {
        StoreView {
            sequence: state.sequence,
            mapping: state.mapping.insert(
                id,
                TodoView { id: state.mapping[id].id, message, done: state.mapping[id].done },
            ),
        }
    } else {
        state
    }
}

/// The store after `done`: the task `id`, if there is one, is done; nothing
/// else differs.
pub open spec fn completed(state: StoreView, id: u32) -> StoreView {
    if state.mapping.contains_key(id) {
        StoreView {
            sequence: state.sequence,
            mapping: state.mapping.insert(
                id,
                TodoView { id: state.mapping[id].id, message: state.mapping[id].message, done: true },
            ),
        }
    } else {
        state
    }
}

/// The store after `delete`: the task `id` is gone, the counter stays.
pub open spec fn removed(state: StoreView, id: u32) -> StoreView {
    StoreView { sequence: state.sequence, mapping: state.mapping.remove(id) }
}

/// The identifiers below `bound` that `mapping` holds, in ascending order.
pub open spec fn ids_below(mapping: Map<u32, TodoView>, bound: nat) -> Seq<u32>
    decreases bound,
{
    if bound == 0 {
        Seq::empty()
    } else {
        let id = (bound - 1) as u32;
        let lower = ids_below(mapping, (bound - 1) as nat);
        if mapping.contains_key(id) {
            lower.push(id)
        } else {
            lower
        }
    }
}

/// All identifiers that `mapping` holds, in ascending order.
pub open spec fn ids(mapping: Map<u32, TodoView>) -> Seq<u32> {
    ids_below(mapping, 0x1_0000_0000)
}

/// The tasks of `mapping` in ascending order of their identifiers.
pub open spec fn listing(mapping: Map<u32, TodoView>) -> Seq<TodoView> {
    ids(mapping).map_values(|id: u32| mapping[id])
}

/// A task list: six operations on its tasks, and the question whether one
/// more can be added.
pub trait TodoStorage {
    /// What the store holds.
    spec fn state(&self) -> StoreView;

    /// Creates a task with the next identifier and the given message, not
    /// yet done. The task is in the store whatever the answer is.
    fn add<'a>(&'a mut self, message: String) -> (answer: Result<Option<&'a Todo>, AppError>)
        requires
            old(self).state().sequence < u32::MAX,
        ensures
            final(self).state() == added(old(self).state(), message@),
            valid(old(self).state()) ==> valid(final(self).state()),
            answer matches Ok(found) ==> found matches Some(task) && task@ == created(
                old(self).state(),
                message@,
            ),
    ;

    /// Whether an identifier is left for one more task: `add` asks for it.
    fn can_add(&self) -> (room: bool)
        ensures
            room == (self.state().sequence < u32::MAX),
    ;

    /// All tasks, in ascending order of their identifiers.
    fn list<'a>(&'a self) -> (answer: Result<Vec<&'a Todo>, AppError>)
        ensures
            answer matches Ok(found) && found@.len() == listing(self.state().mapping).len()
                && forall|i: int|
                0 <= i < found@.len() ==> (#[trigger] found@[i])@ == listing(
                    self.state().mapping,
                )[i],
    ;

    /// Whether there is a task `id`.
    fn exist(&self, id: u32) -> (answer: Result<bool, AppError>)
        ensures
            answer matches Ok(found) && found == self.state().mapping.contains_key(id),
    ;

    /// Gives the task `id` a new message. Without such a task nothing
    /// happens and the answer is `Ok(None)`.
    fn update<'a>(&'a mut self, id: u32, message: String) -> (answer: Result<
        Option<&'a Todo>,
        AppError,
    >)
        ensures
            final(self).state() == updated(old(self).state(), id, message@),
            valid(old(self).state()) ==> valid(final(self).state()),
            !old(self).state().mapping.contains_key(id) ==> answer matches Ok(None),
            old(self).state().mapping.contains_key(id) ==> (answer matches Ok(found)
                ==> found matches Some(task) && task@ == final(self).state().mapping[id]),
    ;

    /// Marks the task `id` as done. Without such a task nothing happens and
    /// the answer is `Ok(None)`.
    fn done<'a>(&'a mut self, id: u32) -> (answer: Result<Option<&'a Todo>, AppError>)
        ensures
            final(self).state() == completed(old(self).state(), id),
            valid(old(self).state()) ==> valid(final(self).state()),
            !old(self).state().mapping.contains_key(id) ==> answer matches Ok(None),
            old(self).state().mapping.contains_key(id) ==> (answer matches Ok(found)
                ==> found matches Some(task) && task@ == final(self).state().mapping[id]),
    ;

    /// Takes the task `id` out of the store and hands it over. Without such
    /// a task nothing happens and the answer is `Ok(None)`.
    fn delete(&mut self, id: u32) -> (answer: Result<Option<Todo>, AppError>)
        ensures
            final(self).state() == removed(old(self).state(), id),
            valid(old(self).state()) ==> valid(final(self).state()),
            !old(self).state().mapping.contains_key(id) ==> answer matches Ok(None),
            old(self).state().mapping.contains_key(id) ==> (answer matches Ok(found)
                ==> found matches Some(task) && task@ == old(self).state().mapping[id]),
    ;
}

/// The failure that an answer carries, if it carries one.
pub open spec fn failure<T>(answer: Result<T, AppError>) -> Option<AppError> {
    match answer {
        Ok(_) => None,
        Err(error) => Some(error),
    }
}

/// `after` is `before` and one more call of [`TodoFile::save`], which was
/// handed `state` and failed with `failure`, or succeeded where that is
/// `None`.
pub open spec fn saved_once(
    before: Seq<Attempt>,
    after: Seq<Attempt>,
    state: StoreView,
    failure: Option<AppError>,
) -> bool {
    after == before.push(
        Attempt {
            sequence: state.sequence,
            mapping: state.mapping,
            outcome: match failure {
                None => Ok(()),
                Some(error) => Err(error),
            },
        },
    )
}

/// A task list in memory that keeps itself in a [`TodoFile`]: after each
/// change it hands the whole state to the file.
pub struct Todos<F: TodoFile> {
    sequence: u32,
    todo_list: BTreeMap<u32, Todo>,
    file: F,
    attempts: Ghost<Seq<Attempt>>,
}

impl<F: TodoFile> Todos<F> {
    /// The store of what `file` has kept: what [`Todos::started`] makes of
    /// the answer of `load`.
    pub fn new(file: F) -> (made: Result<Self, AppError>)
        ensures
            made matches Ok(store) ==> store.attempts().len() == 0 && store.file() == file,
    {
        let answer = file.load();
        Self::started(file, answer)
    }

    /// What becomes of a start on `file` to which `load` gave `answer`: the
    /// store that [`Todos::restore`] makes of the counter and the tasks, or
    /// the failure of `load`, as it is.
    pub fn started(file: F, answer: Result<(u32, BTreeMap<u32, Todo>), AppError>) -> (made: Result<
        Self,
        AppError,
    >)
        ensures
            match answer {
                Ok((sequence, todo_list)) => made matches Ok(store) && store.state() == (StoreView {
                    sequence,
                    mapping: tasks(todo_list@),
                }) && store.attempts().len() == 0 && store.file() == file,
                Err(error) => made matches Err(failure) && failure == error,
            },
    {
        match answer {
            Ok((sequence, todo_list)) => Ok(Self::restore(file, sequence, todo_list)),
            Err(error) => Err(error),
        }
    }

    /// The store that holds `sequence` and `todo_list`, as they are, and
    /// keeps itself in `file`. It has saved nothing yet.
    pub fn restore(file: F, sequence: u32, todo_list: BTreeMap<u32, Todo>) -> (store: Self)
        ensures
            store.state() == (StoreView { sequence, mapping: tasks(todo_list@) }),
            valid(StoreView { sequence, mapping: tasks(todo_list@) }) ==> valid(store.state()),
            store.attempts().len() == 0,
            store.file() == file,
    {
        Self { sequence, todo_list, file, attempts: Ghost(Seq::empty()) }
    }

    /// The calls of [`TodoFile::save`] that the store has made, oldest
    /// first.
    pub closed spec fn attempts(&self) -> Seq<Attempt> {
        self.attempts@
    }

    /// The file that the store keeps itself in.
    pub closed spec fn file(&self) -> F {
        self.file
    }

    /// The highest identifier given so far.
    pub fn sequence(&self) -> (highest: u32)
        ensures
            highest == self.state().sequence,
    {
        self.sequence
    }

    /// Counts one up and gives the new count: the identifier of the next
    /// task.
    fn next_id(&mut self) -> (id: u32)
        requires
            old(self).sequence < u32::MAX,
        ensures
            id == old(self).sequence + 1,
            final(self).sequence == id,
            final(self).todo_list == old(self).todo_list,
            final(self).file == old(self).file,
            final(self).attempts == old(self).attempts,
    {
        self.sequence += 1;
        self.sequence
    }

    /// Hands the state to the file, and notes the call.
    fn save(&mut self) -> (outcome: Result<(), AppError>)
        ensures
            final(self).sequence == old(self).sequence,
            final(self).todo_list == old(self).todo_list,
            saved_once(
                old(self).attempts(),
                final(self).attempts(),
                old(self).state(),
                failure(outcome),
            ),
    {
        let outcome = self.file.save(self.sequence, &self.todo_list);
        proof {
            self.attempts@ = self.attempts@.push(
                Attempt { sequence: self.sequence, mapping: tasks(self.todo_list@), outcome },
            );
            if let Ok(unit) = outcome {
                assert(unit == ());
            }
        }
        outcome
    }
}

impl<F: TodoFile> TodoStorage for Todos<F> {
    closed spec fn state(&self) -> StoreView {
        StoreView { sequence: self.sequence, mapping: tasks(self.todo_list@) }
    }

    fn add<'a>(&'a mut self, message: String) -> (answer: Result<Option<&'a Todo>, AppError>)
        ensures
            saved_once(
                old(self).attempts(),
                final(self).attempts(),
                final(self).state(),
                failure(answer),
            ),
    {
        let id = self.next_id();
        self.todo_list.insert(id, Todo::new(id, message));
        assert(tasks(self.todo_list@) =~= tasks(old(self).todo_list@).insert(
            id,
            created(old(self).state(), message@),
        ));
        match self.save() {
            Ok(()) => Ok(self.todo_list.get(&id)),
            Err(error) => Err(error),
        }
    }

    fn can_add(&self) -> (room: bool) {
        self.sequence < u32::MAX
    }

    fn list<'a>(&'a self) -> (answer: Result<Vec<&'a Todo>, AppError>) {
        let mut found: Vec<&'a Todo> = Vec::new();
        let values = self.todo_list.values();
        let ghost keys = choose|keys: Seq<u32>|
            {
                &&& vstd::std_specs::btree::increasing_seq(keys)
                &&& keys.to_set() == self.todo_list@.dom()
                &&& keys.no_duplicates()
                &&& values.remaining() == keys.map(|i: int, k: u32| &self.todo_list@[k])
            };
        proof {
            crate::storage::order::lemma_keys_are_ids(keys, self.todo_list@);
        }
        for task in it: values
            invariant
                it.seq() == keys.map(|i: int, k: u32| &self.todo_list@[k]),
                found@ == it.seq().take(it.index()),
        {
            found.push(task);
        }
        assert(found@ =~= keys.map(|i: int, k: u32| &self.todo_list@[k]));
        Ok(found)
    }

    fn exist(&self, id: u32) -> (answer: Result<bool, AppError>) {
        Ok(self.todo_list.contains_key(&id))
    }

    fn update<'a>(&'a mut self, id: u32, message: String) -> (answer: Result<
        Option<&'a Todo>,
        AppError,
    >)
        ensures
            old(self).state().mapping.contains_key(id) ==> saved_once(
                old(self).attempts(),
                final(self).attempts(),
                final(self).state(),
                failure(answer),
            ),
            !old(self).state().mapping.contains_key(id) ==> final(self).attempts() == old(
                self,
            ).attempts() && final(self).file() == old(self).file(),
    {
        match self.todo_list.remove(&id) {
            Some(mut task) => {
                task.message = message;
                self.todo_list.insert(id, task);
                assert(tasks(self.todo_list@) =~= updated(old(self).state(), id, message@).mapping);
                match self.save() {
                    Ok(()) => Ok(self.todo_list.get(&id)),
                    Err(error) => Err(error),
                }
            },
            None => {
                assert(tasks(self.todo_list@) =~= tasks(old(self).todo_list@));
                Ok(None)
            },
        }
    }

    fn done<'a>(&'a mut self, id: u32) -> (answer: Result<Option<&'a Todo>, AppError>)
        ensures
            old(self).state().mapping.contains_key(id) ==> saved_once(
                old(self).attempts(),
                final(self).attempts(),
                final(self).state(),
                failure(answer),
            ),
            !old(self).state().mapping.contains_key(id) ==> final(self).attempts() == old(
                self,
            ).attempts() && final(self).file() == old(self).file(),
    {
        match self.todo_list.remove(&id) {
            Some(mut task) => {
                task.done = true;
                self.todo_list.insert(id, task);
                assert(tasks(self.todo_list@) =~= completed(old(self).state(), id).mapping);
                match self.save() {
                    Ok(()) => Ok(self.todo_list.get(&id)),
                    Err(error) => Err(error),
                }
            },
            None => {
                assert(tasks(self.todo_list@) =~= tasks(old(self).todo_list@));
                Ok(None)
            },
        }
    }

    fn delete(&mut self, id: u32) -> (answer: Result<Option<Todo>, AppError>)
        ensures
            old(self).state().mapping.contains_key(id) ==> saved_once(
                old(self).attempts(),
                final(self).attempts(),
                final(self).state(),
                failure(answer),
            ),
            !old(self).state().mapping.contains_key(id) ==> final(self).attempts() == old(
                self,
            ).attempts() && final(self).file() == old(self).file(),
    {
        match self.todo_list.remove(&id) {
            Some(task) => {
                assert(tasks(self.todo_list@) =~= tasks(old(self).todo_list@).remove(id));
                match self.save() {
                    Ok(()) => Ok(Some(task)),
                    Err(error) => Err(error),
                }
            },
            None => {
                assert(tasks(self.todo_list@) =~= tasks(old(self).todo_list@).remove(id));
                Ok(None)
            },
        }
    }
}

} // verus!
