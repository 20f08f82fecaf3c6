//! The text form of a store: what is written for a number, for a message,
//! for a task and for the whole state.

use vstd::prelude::*;
use crate::storage::ids;
use crate::todo::TodoView;

verus! {

/// `String::push` of the standard library, which puts one character at the
/// end of the string.
pub assume_specification[ String::push ](text: &mut String, ch: char)
    ensures
        final(text)@ == old(text)@.push(ch),
;

/// The sixteen digits, lower case.
pub open spec fn digits() -> Seq<char> {
    seq!['0', '1', '2', '3', '4', '5', '6', '7', '8', '9', 'a', 'b', 'c', 'd', 'e', 'f']
}

/// A number in decimal, without sign and without leading zeros.
pub open spec fn decimal(n: nat) -> Seq<char>
    decreases n,
{
    if n < 10 {
        seq![digits()[n as int]]
    } else {
        decimal(n / 10).push(digits()[(n % 10) as int])
    }
}

/// What is written for one character of a message: a backslash and a second
/// character for the quotation mark, the backslash and the five control
/// characters that have a short form; `\u00` and two digits for the other
/// characters below the space; the character itself for all others.
pub open spec fn escape(c: char) -> Seq<char> {
    if c == '"' {
        seq!['\\', '"']
    } else if c == '\\' {
        seq!['\\', '\\']
    } else if c == '\u{08}' {
        seq!['\\', 'b']
    } else if c == '\u{0c}' {
        seq!['\\', 'f']
    } else if c == '\n' {
        seq!['\\', 'n']
    } else if c == '\r' {
        seq!['\\', 'r']
    } else if c == '\t' {
        seq!['\\', 't']
    } else if (c as u32) < 0x20 {
        seq!['\\', 'u', '0', '0', digits()[c as int / 16], digits()[c as int % 16]]
    } else {
        seq![c]
    }
}

/// What is written for a message, between the quotation marks.
pub open spec fn escaped(message: Seq<char>) -> Seq<char>
    decreases message.len(),
{
    if message.len() == 0 {
        Seq::empty()
    } else {
        escape(message.first()) + escaped(message.drop_first())
    }
}

/// What is written for whether a task is done.
pub open spec fn flag_text(done: bool) -> Seq<char> {
    if done {
        "true"@
    } else {
        "false"@
    }
}

/// What is written for a task: its three fields, by name and in this order.
pub open spec fn task_text(task: TodoView) -> Seq<char> {
    "{\"id\":"@ + decimal(task.id as nat) + ",\"message\":\""@ + escaped(task.message)
        + "\",\"done\":"@ + flag_text(task.done) + "}"@
}

/// What is written for a task under its identifier.
pub open spec fn entry_text(id: u32, task: TodoView) -> Seq<char> {
    "\""@ + decimal(id as nat) + "\":"@ + task_text(task)
}

/// The tasks of `mapping`, each with the identifier that it stands under,
/// in ascending order of these.
pub open spec fn entries(mapping: Map<u32, TodoView>) -> Seq<(u32, TodoView)> {
    ids(mapping).map_values(|id: u32| (id, mapping[id]))
}

/// What is written for `entries`, in their order, with a comma between one
/// and the next.
pub open spec fn entries_text(entries: Seq<(u32, TodoView)>) -> Seq<char>
    decreases entries.len(),
{
    if entries.len() == 0 {
        Seq::empty()
    } else if entries.len() == 1 {
        entry_text(entries[0].0, entries[0].1)
    } else {
        entry_text(entries[0].0, entries[0].1) + ","@ + entries_text(entries.drop_first())
    }
}

/// The text form of a store: the counter, then the tasks by identifier in
/// ascending order, as a list of two.
pub open spec fn encoding(sequence: u32, mapping: Map<u32, TodoView>) -> Seq<char> {
    "["@ + decimal(sequence as nat) + ",{"@ + entries_text(entries(mapping)) + "}]"@
}

/// The character of a digit.
fn digit_char(d: u32) -> (c: char)
    requires
        d < 16,
    ensures
        c == digits()[d as int],
{
    match d {
        0 => '0',
        1 => '1',
        2 => '2',
        3 => '3',
        4 => '4',
        5 => '5',
        6 => '6',
        7 => '7',
        8 => '8',
        9 => '9',
        10 => 'a',
        11 => 'b',
        12 => 'c',
        13 => 'd',
        14 => 'e',
        _ => 'f',
    }
}

/// Puts `n` in decimal at the end of `out`.
pub(crate) fn push_decimal(out: &mut String, n: u32)
    ensures
        final(out)@ == old(out)@ + decimal(n as nat),
    decreases n,
{
    if n >= 10 {
        push_decimal(out, n / 10);
    }
    out.push(digit_char(n % 10));
    assert(final(out)@ =~= old(out)@ + decimal(n as nat));
}

/// What is written for a message that ends in `c` is what is written for
/// the rest and then for `c`.
pub proof fn lemma_escaped_push(message: Seq<char>, c: char)
    ensures
        escaped(message.push(c)) == escaped(message) + escape(c),
    decreases message.len(),
{
    if message.len() == 0 {
        reveal_with_fuel(escaped, 2);
        assert(message.push(c).drop_first() =~= Seq::empty());
        assert(message.push(c).first() == c);
        assert(escaped(message.push(c)) =~= escaped(message) + escape(c));
    } else {
        assert(message.push(c).drop_first() =~= message.drop_first().push(c));
        lemma_escaped_push(message.drop_first(), c);
        assert(escaped(message.push(c)) =~= escaped(message) + escape(c));
    }
}

/// What is written for `entries` and one more is what is written for
/// those, a comma unless there were none, and the last.
pub proof fn lemma_entries_text_push(entries: Seq<(u32, TodoView)>, last: (u32, TodoView))
    ensures
        entries_text(entries.push(last)) == if entries.len() == 0 {
            entry_text(last.0, last.1)
        } else {
            entries_text(entries) + ","@ + entry_text(last.0, last.1)
        },
    decreases entries.len(),
{
    if entries.len() > 0 {
        assert(entries.push(last).drop_first() =~= entries.drop_first().push(last));
        lemma_entries_text_push(entries.drop_first(), last);
        assert(entries_text(entries.push(last)) =~= entries_text(entries) + ","@ + entry_text(
            last.0,
            last.1,
        ));
    }
}

/// Puts what is written for `c` at the end of `out`.
fn push_escape(out: &mut String, c: char)
    ensures
        final(out)@ == old(out)@ + escape(c),
{
    let code = c as u32;
    if c == '"' {
        out.push('\\');
        out.push('"');
    } else if c == '\\' {
        out.push('\\');
        out.push('\\');
    } else if c == '\u{08}' {
        out.push('\\');
        out.push('b');
    } else if c == '\u{0c}' {
        out.push('\\');
        out.push('f');
    } else if c == '\n' {
        out.push('\\');
        out.push('n');
    } else if c == '\r' {
        out.push('\\');
        out.push('r');
    } else if c == '\t' {
        out.push('\\');
        out.push('t');
    } else if code < 0x20 {
        out.push('\\');
        out.push('u');
        out.push('0');
        out.push('0');
        out.push(digit_char(code / 16));
        out.push(digit_char(code % 16));
    } else {
        out.push(c);
    }
    assert(final(out)@ =~= old(out)@ + escape(c));
}

/// Puts what is written for `message` at the end of `out`.
pub(crate) fn push_escaped(out: &mut String, message: &str)
    ensures
        final(out)@ == old(out)@ + escaped(message@),
{
    let ghost before = out@;
    for c in it: message.chars()
        invariant
            it.seq() == message@,
            out@ == before + escaped(message@.take(it.index())),
    {
        proof {
            lemma_escaped_push(message@.take(it.index()), c);
            assert(message@.take(it.index() + 1) =~= message@.take(it.index()).push(c));
        }
        push_escape(out, c);
        assert(out@ =~= before + escaped(message@.take(it.index() + 1)));
    }
    assert(message@.take(message@.len() as int) =~= message@);
}

} // verus!
