//! Reading the text form of a store back, piece by piece.

use std::collections::BTreeMap;
use vstd::prelude::*;
use crate::storage::tasks;
use crate::todo::Todo;
use crate::todo::TodoView;

verus! {

/// `piece` stands in `text` at the place `at`.
pub open spec fn has_at(text: Seq<char>, at: int, piece: Seq<char>) -> bool {
    &&& 0 <= at
    &&& at + piece.len() <= text.len()
    &&& text.subrange(at, at + piece.len()) == piece
}

/// The place behind `piece`, where it stands in `text` at the place `at`.
pub open spec fn past(text: Seq<char>, at: int, piece: Seq<char>) -> Option<int> {
    if has_at(text, at, piece) {
        Some(at + piece.len())
    } else {
        None
    }
}

/// What a reader found is what was meant: the same value, and the same
/// place behind it.
pub open spec fn agrees<T>(found: Option<(T, usize)>, meant: Option<(T, int)>) -> bool {
    match found {
        Some((value, end)) => meant == Some((value, end as int)),
        None => meant is None,
    }
}

/// Whether `c` is one of the ten decimal digits.
pub open spec fn is_digit(c: char) -> bool {
    '0' <= c <= '9'
}

/// The number that a decimal digit stands for.
pub open spec fn digit_value(c: char) -> nat
    recommends
        is_digit(c),
{
    (c as u32 - '0' as u32) as nat
}

/// Reads on through the digits from `at`, where `value` is the number read
/// so far: the number of the whole run, and the place behind it.
pub open spec fn scan_digits(text: Seq<char>, at: int, value: nat) -> (nat, int)
    decreases text.len() - at,
{
    if 0 <= at < text.len() && is_digit(text[at]) {
        scan_digits(text, at + 1, value * 10 + digit_value(text[at]))
    } else {
        (value, at)
    }
}

/// The number that stands at `at`, where digits stand there and the number
/// is not too large.
pub open spec fn number_at(text: Seq<char>, at: int) -> Option<(u32, int)> {
    if 0 <= at < text.len() && is_digit(text[at]) {
        let (value, end) = scan_digits(text, at, 0);
        if value <= u32::MAX {
            Some((value as u32, end))
        } else {
            None
        }
    } else {
        None
    }
}

/// The number that stands at `at`, where it is written as the text form
/// writes numbers: without a zero in front of other digits.
pub open spec fn plain_number_at(text: Seq<char>, at: int) -> Option<(u32, int)> {
    if 0 <= at && at + 1 < text.len() && text[at] == '0' && is_digit(text[at + 1]) {
        None
    } else {
        number_at(text, at)
    }
}

/// A run of digits stands for at least the number read before it, and ends
/// no earlier than it starts.
pub proof fn lemma_scan_digits_grows(text: Seq<char>, at: int, value: nat)
    requires
        0 <= at <= text.len(),
    ensures
        scan_digits(text, at, value).0 >= value,
        at <= scan_digits(text, at, value).1 <= text.len(),
    decreases text.len() - at,
{
    if at < text.len() && is_digit(text[at]) {
        lemma_scan_digits_grows(text, at + 1, value * 10 + digit_value(text[at]));
    }
}

/// Reads the number that stands at `at`.
pub(crate) fn read_number(text: &Vec<char>, at: usize) -> (found: Option<(u32, usize)>)
    requires
        at <= text.len(),
    ensures
        agrees(found, number_at(text@, at as int)),
        found matches Some((_, end)) ==> at < end <= text.len(),
{
    if at >= text.len() || !(text[at] >= '0' && text[at] <= '9') {
        return None;
    }
    let mut value: u32 = 0;
    let mut i: usize = at;
    while i < text.len() && text[i] >= '0' && text[i] <= '9'
        invariant
            at <= i <= text.len(),
            i == at ==> is_digit(text@[at as int]),
            scan_digits(text@, at as int, 0) == scan_digits(text@, i as int, value as nat),
        decreases text.len() - i,
    {
        let digit: u64 = (text[i] as u32 - '0' as u32) as u64;
        let next: u64 = value as u64 * 10 + digit;
        if next > u32::MAX as u64 {
            proof {
                lemma_scan_digits_grows(text@, i + 1, next as nat);
            }
            return None;
        }
        value = next as u32;
        i += 1;
    }
    Some((value, i))
}

/// Reads the number that stands at `at`, written without a zero in front
/// of other digits.
fn read_plain_number(text: &Vec<char>, at: usize) -> (found: Option<(u32, usize)>)
    requires
        at <= text.len(),
    ensures
        agrees(found, plain_number_at(text@, at as int)),
        found matches Some((_, end)) ==> at < end <= text.len(),
{
    if text.len() - at > 1 && text[at] == '0' && text[at + 1] >= '0' && text[at + 1] <= '9' {
        None
    } else {
        read_number(text, at)
    }
}

/// The number that one of the sixteen digits, lower case, stands for.
pub open spec fn hex_value(c: char) -> Option<nat> {
    if '0' <= c <= '9' {
        Some((c as u32 - '0' as u32) as nat)
    } else if 'a' <= c <= 'f' {
        Some((c as u32 - 'a' as u32 + 10) as nat)
    } else {
        None
    }
}

/// Whether the character with this number is written in a short form: a
/// backslash and a letter.
pub open spec fn has_short_form(code: nat) -> bool {
    code == 0x08 || code == 0x09 || code == 0x0a || code == 0x0c || code == 0x0d
}

/// The character that is meant by what stands behind a backslash, at `at`,
/// and the place behind it: one of the seven short forms, or `u00` and two
/// digits for a character below the space that has no short form.
pub open spec fn unescape_at(text: Seq<char>, at: int) -> Option<(char, int)> {
    if !(0 <= at < text.len()) {
        None
    } else if text[at] == '"' {
        Some(('"', at + 1))
    } else if text[at] == '\\' {
        Some(('\\', at + 1))
    } else if text[at] == 'b' {
        Some(('\u{08}', at + 1))
    } else if text[at] == 'f' {
        Some(('\u{0c}', at + 1))
    } else if text[at] == 'n' {
        Some(('\n', at + 1))
    } else if text[at] == 'r' {
        Some(('\r', at + 1))
    } else if text[at] == 't' {
        Some(('\t', at + 1))
    } else if text[at] == 'u' && at + 4 < text.len() && text[at + 1] == '0' && text[at + 2] == '0' {
        match (hex_value(text[at + 3]), hex_value(text[at + 4])) {
            (Some(high), Some(low)) => if high * 16 + low < 0x20 && !has_short_form(
                high * 16 + low,
            ) {
                Some((((high * 16 + low) as u8) as char, at + 5))
            } else {
                None
            },
            _ => None,
        }
    } else {
        None
    }
}

/// The message that stands at `at`, behind its opening quotation mark, up
/// to the closing one, and the place behind that. A character below the
/// space does not stand for itself.
pub open spec fn message_at(text: Seq<char>, at: int) -> Option<(Seq<char>, int)>
    decreases text.len() - at,
{
    if !(0 <= at < text.len()) {
        None
    } else if text[at] == '"' {
        Some((Seq::empty(), at + 1))
    } else if text[at] == '\\' {
        match unescape_at(text, at + 1) {
            Some((c, next)) => match message_at(text, next) {
                Some((rest, end)) => Some((seq![c] + rest, end)),
                None => None,
            },
            None => None,
        }
    } else if (text[at] as u32) < 0x20 {
        None
    } else {
        match message_at(text, at + 1) {
            Some((rest, end)) => Some((seq![text[at]] + rest, end)),
            None => None,
        }
    }
}

/// What stands at `at` with `before` in front of it: `before` and what
/// stands at `at`.
pub open spec fn behind(before: Seq<char>, rest: Option<(Seq<char>, int)>) -> Option<
    (Seq<char>, int),
> {
    match rest {
        Some((message, end)) => Some((before + message, end)),
        None => None,
    }
}

/// Reads what stands behind a backslash.
fn read_escape(text: &Vec<char>, at: usize) -> (found: Option<(char, usize)>)
    requires
        at <= text.len(),
    ensures
        agrees(found, unescape_at(text@, at as int)),
        found matches Some((_, end)) ==> at < end <= text.len(),
{
    if at >= text.len() {
        return None;
    }
    let c = text[at];
    if c == '"' {
        Some(('"', at + 1))
    } else if c == '\\' {
        Some(('\\', at + 1))
    } else if c == 'b' {
        Some(('\u{08}', at + 1))
    } else if c == 'f' {
        Some(('\u{0c}', at + 1))
    } else if c == 'n' {
        Some(('\n', at + 1))
    } else if c == 'r' {
        Some(('\r', at + 1))
    } else if c == 't' {
        Some(('\t', at + 1))
    } else if c == 'u' && text.len() - at > 4 && text[at + 1] == '0' && text[at + 2] == '0' {
        match (read_hex(text[at + 3]), read_hex(text[at + 4])) {
            (Some(high), Some(low)) => {
                let code = high * 16 + low;
                if code < 0x20 && code != 0x08 && code != 0x09 && code != 0x0a && code != 0x0c
                    && code != 0x0d {
                    Some((code as char, at + 5))
                } else {
                    None
                }
            },
            _ => None,
        }
    } else {
        None
    }
}

/// Reads one of the sixteen digits.
fn read_hex(c: char) -> (found: Option<u8>)
    ensures
        match found {
            Some(value) => hex_value(c) == Some(value as nat) && value < 16,
            None => hex_value(c) is None,
        },
{
    if c >= '0' && c <= '9' {
        Some((c as u32 - '0' as u32) as u8)
    } else if c >= 'a' && c <= 'f' {
        Some((c as u32 - 'a' as u32 + 10) as u8)
    } else {
        None
    }
}

/// Reads the message that stands at `at`, behind its opening quotation
/// mark.
fn read_message(text: &Vec<char>, at: usize) -> (found: Option<(String, usize)>)
    requires
        at <= text.len(),
    ensures
        match found {
            Some((message, end)) => message_at(text@, at as int) == Some((message@, end as int))
                && at < end <= text.len(),
            None => message_at(text@, at as int) is None,
        },
{
    let mut message = String::new();
    let mut i: usize = at;
    loop
        invariant
            at <= i <= text.len(),
            i > at || message@.len() == 0,
            message_at(text@, at as int) == behind(message@, message_at(text@, i as int)),
        decreases text.len() - i,
    {
        if i >= text.len() {
            return None;
        }
        let c = text[i];
        if c == '"' {
            assert(message@ + Seq::<char>::empty() =~= message@);
            return Some((message, i + 1));
        }
        let ghost before = message@;
        if c == '\\' {
            match read_escape(text, i + 1) {
                Some((meant, next)) => {
                    message.push(meant);
                    proof {
                        let rest = message_at(text@, next as int);
                        if let Some((tail, end)) = rest {
                            assert(before + (seq![meant] + tail) =~= before.push(meant) + tail);
                        }
                    }
                    i = next;
                },
                None => {
                    return None;
                },
            }
        } else if (c as u32) < 0x20 {
            return None;
        } else {
            message.push(c);
            proof {
                let rest = message_at(text@, i + 1);
                if let Some((tail, end)) = rest {
                    assert(before + (seq![c] + tail) =~= before.push(c) + tail);
                }
            }
            i += 1;
        }
    }
}

/// Whether a task is done, as it stands at `at`, and the place behind it.
pub open spec fn flag_at(text: Seq<char>, at: int) -> Option<(bool, int)> {
    if has_at(text, at, "true"@) {
        Some((true, at + "true"@.len()))
    } else if has_at(text, at, "false"@) {
        Some((false, at + "false"@.len()))
    } else {
        None
    }
}

/// The task that stands at `at`, and the place behind it.
pub open spec fn task_at(text: Seq<char>, at: int) -> Option<(TodoView, int)> {
    match past(text, at, "{\"id\":"@) {
        None => None,
        Some(at_id) => match plain_number_at(text, at_id) {
            None => None,
            Some((id, behind_id)) => match past(text, behind_id, ",\"message\":\""@) {
                None => None,
                Some(at_message) => match message_at(text, at_message) {
                    None => None,
                    Some((message, behind_message)) => match past(
                        text,
                        behind_message,
                        ",\"done\":"@,
                    ) {
                        None => None,
                        Some(at_done) => match flag_at(text, at_done) {
                            None => None,
                            Some((done, behind_done)) => match past(text, behind_done, "}"@) {
                                None => None,
                                Some(end) => Some((TodoView { id, message, done }, end)),
                            },
                        },
                    },
                },
            },
        },
    }
}

/// The task that stands at `at` under its identifier, and the place behind
/// it.
pub open spec fn entry_at(text: Seq<char>, at: int) -> Option<((u32, TodoView), int)> {
    match past(text, at, "\""@) {
        None => None,
        Some(at_key) => match plain_number_at(text, at_key) {
            None => None,
            Some((key, behind_key)) => match past(text, behind_key, "\":"@) {
                None => None,
                Some(at_task) => match task_at(text, at_task) {
                    None => None,
                    Some((task, end)) => Some(((key, task), end)),
                },
            },
        },
    }
}

/// The entries that were read with those that follow.
pub open spec fn joined(
    before: Seq<(u32, TodoView)>,
    rest: Option<(Seq<(u32, TodoView)>, int)>,
) -> Option<(Seq<(u32, TodoView)>, int)> {
    match rest {
        Some((entries, end)) => Some((before + entries, end)),
        None => None,
    }
}

/// The tasks that stand at `at`, one or more with a comma between one and
/// the next, each under an identifier that is larger than the one before
/// and than `above`; and the place behind the last.
pub open spec fn entries_at(text: Seq<char>, at: int, above: int) -> Option<
    (Seq<(u32, TodoView)>, int),
>
    decreases text.len() - at,
{
    match entry_at(text, at) {
        None => None,
        Some((entry, next)) => if next <= at || entry.0 <= above {
            None
        } else {
            match past(text, next, ","@) {
                Some(more) => if more <= at {
                    None
                } else {
                    joined(seq![entry], entries_at(text, more, entry.0 as int))
                },
                None => Some((seq![entry], next)),
            }
        },
    }
}

/// The number that identifiers are to be above: the last that was read, and
/// a number below all identifiers where none was.
pub open spec fn floor(last: Option<u32>) -> int {
    match last {
        Some(id) => id as int,
        None => -1,
    }
}

/// The map that holds each of `entries` under its identifier; of two under
/// one identifier, the later.
pub open spec fn map_of(entries: Seq<(u32, TodoView)>) -> Map<u32, TodoView>
    decreases entries.len(),
{
    if entries.len() == 0 {
        Map::empty()
    } else {
        map_of(entries.drop_last()).insert(entries.last().0, entries.last().1)
    }
}

/// The counter and the tasks that `text` stands for, where it has the shape
/// of a store's text form.
pub open spec fn parsed(text: Seq<char>) -> Option<(u32, Map<u32, TodoView>)> {
    match past(text, 0, "["@) {
        None => None,
        Some(at_sequence) => match plain_number_at(text, at_sequence) {
            None => None,
            Some((sequence, behind_sequence)) => match past(text, behind_sequence, ",{"@) {
                None => None,
                Some(at_entries) => match past(text, at_entries, "}]"@) {
                    Some(end) => if end == text.len() {
                        Some((sequence, Map::empty()))
                    } else {
                        None
                    },
                    None => match entries_at(text, at_entries, -1) {
                        None => None,
                        Some((entries, behind_entries)) => match past(
                            text,
                            behind_entries,
                            "}]"@,
                        ) {
                            Some(end) => if end == text.len() {
                                Some((sequence, map_of(entries)))
                            } else {
                                None
                            },
                            None => None,
                        },
                    },
                },
            },
        },
    }
}

/// Steps over `piece`, where it stands at `at`.
fn skip(text: &Vec<char>, at: usize, piece: &str) -> (found: Option<usize>)
    requires
        at <= text.len(),
    ensures
        match found {
            Some(end) => past(text@, at as int, piece@) == Some(end as int) && end == at
                + piece@.len() && end <= text.len(),
            None => past(text@, at as int, piece@) is None,
        },
{
    let mut i: usize = at;
    for c in it: piece.chars()
        invariant
            it.seq() == piece@,
            i == at + it.index(),
            i <= text.len(),
            text@.subrange(at as int, i as int) == piece@.take(it.index()),
    {
        if i >= text.len() || text[i] != c {
            proof {
                if has_at(text@, at as int, piece@) {
                    assert(text@.subrange(at as int, at + piece@.len())[it.index()] == piece@[it.index()]);
                }
            }
            return None;
        }
        assert(text@.subrange(at as int, i + 1) =~= piece@.take(it.index() + 1));
        i += 1;
    }
    assert(piece@.take(piece@.len() as int) =~= piece@);
    Some(i)
}

/// Reads whether a task is done.
fn read_flag(text: &Vec<char>, at: usize) -> (found: Option<(bool, usize)>)
    requires
        at <= text.len(),
    ensures
        agrees(found, flag_at(text@, at as int)),
        found matches Some((_, end)) ==> at <= end <= text.len(),
{
    match skip(text, at, "true") {
        Some(end) => Some((true, end)),
        None => match skip(text, at, "false") {
            Some(end) => Some((false, end)),
            None => None,
        },
    }
}

/// Reads the task that stands at `at`.
fn read_task(text: &Vec<char>, at: usize) -> (found: Option<(Todo, usize)>)
    requires
        at <= text.len(),
    ensures
        match found {
            Some((task, end)) => task_at(text@, at as int) == Some((task@, end as int)) && at
                < end <= text.len(),
            None => task_at(text@, at as int) is None,
        },
{
    let at_id = match skip(text, at, "{\"id\":") {
        Some(place) => place,
        None => {
            return None;
        },
    };
    let (id, behind_id) = match read_plain_number(text, at_id) {
        Some(pair) => pair,
        None => {
            return None;
        },
    };
    let at_message = match skip(text, behind_id, ",\"message\":\"") {
        Some(place) => place,
        None => {
            return None;
        },
    };
    let (message, behind_message) = match read_message(text, at_message) {
        Some(pair) => pair,
        None => {
            return None;
        },
    };
    let at_done = match skip(text, behind_message, ",\"done\":") {
        Some(place) => place,
        None => {
            return None;
        },
    };
    let (done, behind_done) = match read_flag(text, at_done) {
        Some(pair) => pair,
        None => {
            return None;
        },
    };
    match skip(text, behind_done, "}") {
        Some(end) => Some((Todo { id, message, done }, end)),
        None => None,
    }
}

/// Reads the task that stands at `at` under its identifier.
fn read_entry(text: &Vec<char>, at: usize) -> (found: Option<(u32, Todo, usize)>)
    requires
        at <= text.len(),
    ensures
        match found {
            Some((key, task, end)) => entry_at(text@, at as int) == Some(
                ((key, task@), end as int),
            ) && at < end <= text.len(),
            None => entry_at(text@, at as int) is None,
        },
{
    let at_key = match skip(text, at, "\"") {
        Some(place) => place,
        None => {
            return None;
        },
    };
    let (key, behind_key) = match read_plain_number(text, at_key) {
        Some(pair) => pair,
        None => {
            return None;
        },
    };
    let at_task = match skip(text, behind_key, "\":") {
        Some(place) => place,
        None => {
            return None;
        },
    };
    match read_task(text, at_task) {
        Some((task, end)) => Some((key, task, end)),
        None => None,
    }
}

/// Reads the tasks that stand at `at` into `todo_list`.
fn read_entries(text: &Vec<char>, at: usize, todo_list: &mut BTreeMap<u32, Todo>) -> (found:
    Option<usize>)
    requires
        at <= text.len(),
        old(todo_list)@ == Map::<u32, Todo>::empty(),
    ensures
        match found {
            Some(end) => end <= text.len() && exists|entries: Seq<(u32, TodoView)>|
                entries_at(text@, at as int, -1) == Some((entries, end as int)) && tasks(
                    final(todo_list)@,
                ) == map_of(entries),
            None => entries_at(text@, at as int, -1) is None,
        },
{
    broadcast use vstd::std_specs::btree::group_btree_axioms;

    let ghost mut read: Seq<(u32, TodoView)> = Seq::empty();
    let mut i: usize = at;
    let mut last: Option<u32> = None;
    assert(tasks(todo_list@) =~= map_of(read));
    loop
        invariant
            at <= i <= text.len(),
            entries_at(text@, at as int, -1) == joined(
                read,
                entries_at(text@, i as int, floor(last)),
            ),
            tasks(todo_list@) == map_of(read),
        decreases text.len() - i,
    {
        let (key, task, next) = match read_entry(text, i) {
            Some(entry) => entry,
            None => {
                return None;
            },
        };
        if let Some(before) = last {
            if key <= before {
                return None;
            }
        }
        let ghost entry = (key, task@);
        let ghost before = read;
        let ghost held = todo_list@;
        todo_list.insert(key, task);
        proof {
            read = read.push(entry);
            assert(read.drop_last() =~= before);
            assert(tasks(todo_list@) =~= tasks(held).insert(key, entry.1));
            assert(tasks(todo_list@) == map_of(read));
        }
        match skip(text, next, ",") {
            Some(more) => {
                proof {
                    if let Some((tail, end)) = entries_at(text@, more as int, key as int) {
                        assert(before + (seq![entry] + tail) =~= read + tail);
                    }
                }
                i = more;
                last = Some(key);
            },
            None => {
                assert(before + seq![entry] =~= read);
                assert(entries_at(text@, at as int, -1) == Some((read, next as int)));
                return Some(next);
            },
        }
    }
}

/// Reads the counter and the tasks that `text` stands for.
pub(crate) fn read_document(text: &Vec<char>) -> (found: Option<(u32, BTreeMap<u32, Todo>)>)
    ensures
        match found {
            Some((sequence, todo_list)) => parsed(text@) == Some((sequence, tasks(todo_list@))),
            None => parsed(text@) is None,
        },
{
    broadcast use vstd::std_specs::btree::group_btree_axioms;

    let at_sequence = match skip(text, 0, "[") {
        Some(place) => place,
        None => {
            return None;
        },
    };
    let (sequence, behind_sequence) = match read_plain_number(text, at_sequence) {
        Some(pair) => pair,
        None => {
            return None;
        },
    };
    let at_entries = match skip(text, behind_sequence, ",{") {
        Some(place) => place,
        None => {
            return None;
        },
    };
    let mut todo_list: BTreeMap<u32, Todo> = BTreeMap::new();
    match skip(text, at_entries, "}]") {
        Some(end) => {
            if end == text.len() {
                assert(tasks(todo_list@) =~= Map::empty());
                return Some((sequence, todo_list));
            } else {
                return None;
            }
        },
        None => {},
    }
    let behind_entries = match read_entries(text, at_entries, &mut todo_list) {
        Some(place) => place,
        None => {
            return None;
        },
    };
    match skip(text, behind_entries, "}]") {
        Some(end) => {
            if end == text.len() {
                Some((sequence, todo_list))
            } else {
                None
            }
        },
        None => None,
    }
}

/// The characters of `text`, one by one.
pub(crate) fn characters(text: &str) -> (all: Vec<char>)
    ensures
        all@ == text@,
{
    let mut all: Vec<char> = Vec::new();
    for c in it: text.chars()
        invariant
            it.seq() == text@,
            all@ == it.seq().take(it.index()),
    {
        all.push(c);
        assert(all@ =~= it.seq().take(it.index() + 1));
    }
    assert(text@.take(text@.len() as int) =~= text@);
    all
}

} // verus!
