//! The file behind the store.

use std::collections::BTreeMap;
use vstd::prelude::*;
use vstd::std_specs::iter::IteratorSpec;
use vstd::string::StrSliceExecFns;
use vstd::string::StringExecFns;
use vstd::utf8::decode_utf8;
use vstd::utf8::encode_utf8;
use vstd::utf8::encode_utf8_decode_utf8;
use vstd::utf8::encode_utf8_valid_utf8;
use vstd::utf8::valid_utf8;
use crate::storage::ids;
use crate::storage::order::lemma_pairs_are_ids;
use crate::storage::roundtrip::lemma_encoding_is_injective;
use crate::storage::roundtrip::lemma_parsed_spelt;
use crate::storage::roundtrip::lemma_read_back;
use crate::storage::scan::characters;
use crate::storage::scan::read_document;
use crate::storage::tasks;
use crate::storage::text::encoding;
use crate::storage::text::entries;
use crate::storage::text::entries_text;
use crate::storage::text::entry_text;
use crate::storage::text::lemma_entries_text_push;
use crate::storage::text::push_decimal;
use crate::storage::text::push_escaped;
use crate::cli::AppError;
use crate::todo::Todo;
use crate::todo::TodoView;

verus! {

/// Where a store keeps its state between runs.
///
/// Nothing is promised of an implementation: a store states what it hands
/// to `save` and what it does with each answer.
pub trait TodoFile {
    /// The counter and the tasks that were kept last.
    fn load(&self) -> (kept: Result<(u32, BTreeMap<u32, Todo>), AppError>);

    /// Keeps the counter and the tasks, in place of what was kept before.
    fn save(&mut self, sequence: u32, todo_list: &BTreeMap<u32, Todo>) -> (outcome: Result<
        (),
        AppError,
    >);
}

/// The file of a task list, named by its path.
pub struct TodoFileImpl {
    path: String,
}

impl View for TodoFileImpl {
    type V = Seq<char>;

    /// The path.
    closed spec fn view(&self) -> Seq<char> {
        self.path@
    }
}

impl TodoFileImpl {
    /// The file at `path`. Nothing is read or written yet.
    pub fn new(path: &str) -> (file: Self)
        ensures
            file@ == path@,
    {
        Self { path: path.to_owned() }
    }

    /// The path that the file was made with.
    pub fn path(&self) -> (path: &str)
        ensures
            path@ == self@,
    {
        self.path.as_str()
    }
}

/// Puts what is written for `task` under `id` at the end of `out`.
fn push_entry(out: &mut String, id: u32, task: &Todo)
    ensures
        final(out)@ == old(out)@ + entry_text(id, task@),
{
    out.append("\"");
    push_decimal(out, id);
    out.append("\":");
    out.append("{\"id\":");
    push_decimal(out, task.id);
    out.append(",\"message\":\"");
    push_escaped(out, task.message.as_str());
    out.append("\",\"done\":");
    if task.done {
        out.append("true");
    } else {
        out.append("false");
    }
    out.append("}");
    assert(final(out)@ =~= old(out)@ + entry_text(id, task@));
}

/// The text form of `sequence` and `todo_list`.
pub fn encode(sequence: u32, todo_list: &BTreeMap<u32, Todo>) -> (text: String)
    ensures
        text@ == encoding(sequence, tasks(todo_list@)),
{
    let ghost mapping = tasks(todo_list@);
    let mut out = String::new();
    out.append("[");
    push_decimal(&mut out, sequence);
    out.append(",{");
    let ghost head = out@;
    let pairs = todo_list.iter();
    proof {
        lemma_pairs_are_ids(pairs.remaining(), todo_list);
    }
    let mut first = true;
    for pair in it: pairs
        invariant
            it.seq() == todo_list.iter().remaining(),
            mapping == tasks(todo_list@),
            it.seq().len() == ids(mapping).len(),
            forall|i: int|
                0 <= i < it.seq().len() ==> *(#[trigger] it.seq()[i]).0 == ids(mapping)[i]
                    && todo_list@.contains_key(*it.seq()[i].0) && todo_list@[*it.seq()[i].0]
                    == *it.seq()[i].1,
            first == (it.index() == 0),
            out@ == head + entries_text(entries(mapping).take(it.index())),
    {
        let (id, task) = pair;
        proof {
            lemma_entries_text_push(entries(mapping).take(it.index()), (*id, task@));
            assert(entries(mapping).take(it.index() + 1) =~= entries(mapping).take(
                it.index(),
            ).push((*id, task@)));
        }
        if !first {
            out.append(",");
        }
        push_entry(&mut out, *id, task);
        first = false;
        assert(out@ =~= head + entries_text(entries(mapping).take(it.index() + 1)));
    }
    out.append("}]");
    assert(entries(mapping).take(entries(mapping).len() as int) =~= entries(mapping));
    assert(out@ =~= encoding(sequence, mapping));
    out
}

/// The text form of `sequence` and `todo_list` in bytes, as it is kept in a
/// file.
pub fn encode_bytes(sequence: u32, todo_list: &BTreeMap<u32, Todo>) -> (bytes: Vec<u8>)
    ensures
        bytes@ == encode_utf8(encoding(sequence, tasks(todo_list@))),
{
    encode(sequence, todo_list).as_str().as_bytes_vec()
}

/// Whether `text` is the text form of a store.
pub open spec fn is_encoding(text: Seq<char>) -> bool {
    exists|sequence: u32, mapping: Map<u32, TodoView>| encoding(sequence, mapping) == text
}

/// The counter and the tasks that `text` is the text form of; where it is
/// the text form of none, no task and the counter 0.
pub open spec fn decoding(text: Seq<char>) -> (u32, Map<u32, TodoView>) {
    if is_encoding(text) {
        choose|state: (u32, Map<u32, TodoView>)| encoding(state.0, state.1) == text
    } else {
        (0, Map::empty())
    }
}

/// Reading the text form of a store gives that store.
pub proof fn law_decoding_gives_back(sequence: u32, mapping: Map<u32, TodoView>)
    ensures
        decoding(encoding(sequence, mapping)) == (sequence, mapping),
{
    let text = encoding(sequence, mapping);
    assert(is_encoding(text));
    let state = decoding(text);
    assert(encoding(state.0, state.1) == text) by {
        let given = (sequence, mapping);
        assert(encoding(given.0, given.1) == text);
    }
    lemma_encoding_is_injective(state.0, state.1, sequence, mapping);
}

/// A text form stands for one store only: what a text is read as is what
/// was written.
pub proof fn law_decoding_is_what_was_written(text: Seq<char>)
    requires
        is_encoding(text),
    ensures
        encoding(decoding(text).0, decoding(text).1) == text,
{
    let (sequence, mapping) = choose|sequence: u32, mapping: Map<u32, TodoView>|
        encoding(sequence, mapping) == text;
    let written = (sequence, mapping);
    assert(encoding(written.0, written.1) == text);
}

/// The counter and the tasks that `text` stands for. Text that is not the
/// text form of a store, as [`encode`] writes it, stands for the empty store.
pub fn decode(text: &str) -> (state: (u32, BTreeMap<u32, Todo>))
    ensures
        (state.0, tasks(state.1@)) == decoding(text@),
{
    broadcast use vstd::std_specs::btree::group_btree_axioms;

    let all = characters(text);
    match read_document(&all) {
        Some((sequence, todo_list)) => {
            proof {
                lemma_parsed_spelt(text@);
                law_decoding_gives_back(sequence, tasks(todo_list@));
            }
            (sequence, todo_list)
        },
        None => {
            proof {
                if is_encoding(text@) {
                    let (sequence, mapping) = choose|sequence: u32, mapping: Map<u32, TodoView>|
                        encoding(sequence, mapping) == text@;
                    lemma_read_back(sequence, mapping);
                }
            }
            let empty: BTreeMap<u32, Todo> = BTreeMap::new();
            assert(tasks(empty@) =~= Map::empty());
            (0, empty)
        },
    }
}

/// What a store starts from: what `contents` stands for, where the file was
/// there, and the empty store where it was not.
pub fn loaded(contents: Option<&str>) -> (state: (u32, BTreeMap<u32, Todo>))
    ensures
        (state.0, tasks(state.1@)) == match contents {
            Some(text) => decoding(text@),
            None => (0, Map::empty()),
        },
{
    broadcast use vstd::std_specs::btree::group_btree_axioms;

    match contents {
        Some(text) => decode(text),
        None => {
            let empty: BTreeMap<u32, Todo> = BTreeMap::new();
            assert(tasks(empty@) =~= Map::empty());
            (0, empty)
        },
    }
}

/// Whether a failed read failed because there is no such file: what
/// `std::io::Error::kind` of the standard library says of the failure, held
/// against `ErrorKind::NotFound`.
pub uninterp spec fn no_such_file(error: std::io::Error) -> bool;

/// `std::io::Error::kind` of the standard library, held against
/// `ErrorKind::NotFound`: whether a read failed because there is no such
/// file.
#[verifier::external_body]
fn is_missing(error: &std::io::Error) -> (missing: bool)
    ensures
        missing == no_such_file(*error),
{
    error.kind() == std::io::ErrorKind::NotFound
}

/// `String::from_utf8` of the standard library: the text that the bytes
/// are the UTF-8 form of, where they are the UTF-8 form of a text, and
/// nothing where they are not.
#[verifier::external_body]
fn utf8_text(bytes: Vec<u8>) -> (text: Option<String>)
    ensures
        match text {
            Some(read) => valid_utf8(bytes@) && read@ == decode_utf8(bytes@),
            None => !valid_utf8(bytes@),
        },
{
    String::from_utf8(bytes).ok()
}

/// The counter and the tasks that `bytes` stand for: what the text stands
/// for that they are the UTF-8 form of; where they are the UTF-8 form of
/// none, no task and the counter 0.
pub open spec fn bytes_decoding(bytes: Seq<u8>) -> (u32, Map<u32, TodoView>) {
    if valid_utf8(bytes) {
        decoding(decode_utf8(bytes))
    } else {
        (0, Map::empty())
    }
}

/// Reading the bytes of the text form of a store gives that store.
pub proof fn law_bytes_give_back(sequence: u32, mapping: Map<u32, TodoView>)
    ensures
        bytes_decoding(encode_utf8(encoding(sequence, mapping))) == (sequence, mapping),
{
    encode_utf8_valid_utf8(encoding(sequence, mapping));
    encode_utf8_decode_utf8(encoding(sequence, mapping));
    law_decoding_gives_back(sequence, mapping);
}

/// Bytes that are not the text form of a store, in UTF-8, stand for the
/// empty store, whole: no task and the counter 0.
pub proof fn law_other_bytes_are_the_empty_store(bytes: Seq<u8>)
    requires
        !(valid_utf8(bytes) && is_encoding(decode_utf8(bytes))),
    ensures
        bytes_decoding(bytes) == (0u32, Map::<u32, TodoView>::empty()),
{
}

/// The counter and the tasks that `bytes` stand for. Bytes that are not the
/// text form of a store stand for the empty store.
pub fn decode_bytes(bytes: Vec<u8>) -> (state: (u32, BTreeMap<u32, Todo>))
    ensures
        (state.0, tasks(state.1@)) == bytes_decoding(bytes@),
{
    match utf8_text(bytes) {
        Some(text) => decode(text.as_str()),
        None => loaded(None),
    }
}

/// What `load` answers after the file was read with the outcome `read`,
/// where `missing` says whether a failure means that there is no such file:
/// what the contents stand for; the empty store for a file that is not
/// there; and the failure of every other read.
pub fn load_answer(read: Result<Vec<u8>, std::io::Error>, missing: bool) -> (kept: Result<
    (u32, BTreeMap<u32, Todo>),
    AppError,
>)
    ensures
        match read {
            Ok(bytes) => kept matches Ok(state) && (state.0, tasks(state.1@)) == bytes_decoding(
                bytes@,
            ),
            Err(error) => if missing {
                kept matches Ok(state) && (state.0, tasks(state.1@)) == (
                    0u32,
                    Map::<u32, TodoView>::empty(),
                )
            } else {
                kept matches Err(AppError::Read(cause)) && cause == error
            },
        },
{
    match read {
        Ok(bytes) => Ok(decode_bytes(bytes)),
        Err(error) => if missing {
            Ok(loaded(None))
        } else {
            Err(AppError::Read(error))
        },
    }
}

/// What `load` answers after the file was read with the outcome `read`:
/// what the contents stand for; the empty store, and no failure, for a file
/// that is not there; and the failure of every other read.
pub fn load_from(read: Result<Vec<u8>, std::io::Error>) -> (kept: Result<
    (u32, BTreeMap<u32, Todo>),
    AppError,
>)
    ensures
        match read {
            Ok(bytes) => kept matches Ok(state) && (state.0, tasks(state.1@)) == bytes_decoding(
                bytes@,
            ),
            Err(error) => if no_such_file(error) {
                kept matches Ok(state) && (state.0, tasks(state.1@)) == (
                    0u32,
                    Map::<u32, TodoView>::empty(),
                )
            } else {
                kept matches Err(AppError::Read(cause)) && cause == error
            },
        },
{
    let missing = match &read {
        Ok(_) => false,
        Err(error) => is_missing(error),
    };
    load_answer(read, missing)
}

/// What `save` answers after the file was written with the outcome
/// `written`: the failure of the write, where it failed.
pub fn save_answer(written: Result<(), std::io::Error>) -> (outcome: Result<(), AppError>)
    ensures
        match written {
            Ok(_) => outcome is Ok,
            Err(error) => outcome matches Err(AppError::Write(cause)) && cause == error,
        },
{
    match written {
        Ok(_) => Ok(()),
        Err(error) => Err(AppError::Write(error)),
    }
}

} // verus!
