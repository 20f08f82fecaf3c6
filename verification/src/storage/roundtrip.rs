//! Why reading a store's text form gives the store back, and why a text
//! that is read as a store is the text form of that store.

use vstd::prelude::*;
use crate::storage::ids;
use crate::storage::laws::lemma_ids_below;
use crate::storage::order::ascending;
use crate::storage::order::lemma_ascending_is_ids_below;
use crate::storage::scan::digit_value;
use crate::storage::scan::entries_at;
use crate::storage::scan::entry_at;
use crate::storage::scan::flag_at;
use crate::storage::scan::has_at;
use crate::storage::scan::hex_value;
use crate::storage::scan::is_digit;
use crate::storage::scan::map_of;
use crate::storage::scan::message_at;
use crate::storage::scan::parsed;
use crate::storage::scan::past;
use crate::storage::scan::plain_number_at;
use crate::storage::scan::scan_digits;
use crate::storage::scan::task_at;
use crate::storage::scan::unescape_at;
use crate::storage::text::decimal;
use crate::storage::text::digits;
use crate::storage::text::encoding;
use crate::storage::text::entries;
use crate::storage::text::entries_text;
use crate::storage::text::entry_text;
use crate::storage::text::escape;
use crate::storage::text::escaped;
use crate::storage::text::flag_text;
use crate::storage::text::task_text;
use crate::todo::TodoView;

verus! {

/// Where a piece stands in a text, each of its characters stands there.
pub proof fn lemma_has_at_each(text: Seq<char>, at: int, piece: Seq<char>)
    requires
        has_at(text, at, piece),
    ensures
        forall|i: int| 0 <= i < piece.len() ==> text[at + i] == #[trigger] piece[i],
{
    assert forall|i: int| 0 <= i < piece.len() implies text[at + i] == #[trigger] piece[i] by {
        assert(text.subrange(at, at + piece.len())[i] == text[at + i]);
    }
}

/// Where two pieces stand in a text one behind the other, the first stands
/// there, and the second behind it.
pub proof fn lemma_has_at_split(text: Seq<char>, at: int, first: Seq<char>, second: Seq<char>)
    requires
        has_at(text, at, first + second),
    ensures
        has_at(text, at, first),
        has_at(text, at + first.len(), second),
{
    lemma_has_at_each(text, at, first + second);
    assert(text.subrange(at, at + first.len()) =~= first) by {
        assert forall|i: int| 0 <= i < first.len() implies text.subrange(at, at + first.len())[i]
            == first[i] by {
            assert((first + second)[i] == first[i]);
        }
    }
    assert(text.subrange(at + first.len(), at + first.len() + second.len()) =~= second) by {
        assert forall|i: int| 0 <= i < second.len() implies text.subrange(
            at + first.len(),
            at + first.len() + second.len(),
        )[i] == second[i] by {
            assert((first + second)[first.len() + i] == second[i]);
        }
    }
}

/// Where a piece stands in a text and a second behind it, the two stand
/// there one behind the other.
pub proof fn lemma_has_at_join(text: Seq<char>, at: int, first: Seq<char>, second: Seq<char>)
    requires
        has_at(text, at, first),
        has_at(text, at + first.len(), second),
    ensures
        has_at(text, at, first + second),
{
    lemma_has_at_each(text, at, first);
    lemma_has_at_each(text, at + first.len(), second);
    let both = first + second;
    assert(text.subrange(at, at + both.len()) =~= both) by {
        assert forall|i: int| 0 <= i < both.len() implies text.subrange(at, at + both.len())[i]
            == both[i] by {
            if i < first.len() {
                assert(both[i] == first[i]);
            } else {
                assert(both[i] == second[i - first.len()]);
                assert(text[at + first.len() + (i - first.len())] == second[i - first.len()]);
            }
        }
    }
}

/// A decimal digit is the digit of the number that it stands for.
pub proof fn lemma_digit_char(c: char)
    requires
        is_digit(c),
    ensures
        digit_value(c) < 10,
        digits()[digit_value(c) as int] == c,
{
    if c == '0' {
    } else if c == '1' {
    } else if c == '2' {
    } else if c == '3' {
    } else if c == '4' {
    } else if c == '5' {
    } else if c == '6' {
    } else if c == '7' {
    } else if c == '8' {
    } else {
        assert(c == '9');
    }
}

/// One of the sixteen digits stands for its place among them.
pub proof fn lemma_hex_value(n: nat)
    requires
        n < 16,
    ensures
        hex_value(digits()[n as int]) == Some(n),
{
    if n == 0 {
    } else if n == 1 {
    } else if n == 2 {
    } else if n == 3 {
    } else if n == 4 {
    } else if n == 5 {
    } else if n == 6 {
    } else if n == 7 {
    } else if n == 8 {
    } else if n == 9 {
    } else if n == 10 {
    } else if n == 11 {
    } else if n == 12 {
    } else if n == 13 {
    } else if n == 14 {
    } else {
        assert(n == 15);
    }
}

/// A character that stands for one of the sixteen digits is that digit.
pub proof fn lemma_hex_char(c: char)
    requires
        hex_value(c) is Some,
    ensures
        hex_value(c)->0 < 16,
        digits()[hex_value(c)->0 as int] == c,
{
    if is_digit(c) {
        lemma_digit_char(c);
    } else if c == 'a' {
    } else if c == 'b' {
    } else if c == 'c' {
    } else if c == 'd' {
    } else if c == 'e' {
    } else {
        assert(c == 'f');
    }
}

/// A number in decimal is made of digits: one for a number below ten, and
/// more, of which the first is not the zero, for a larger one.
pub proof fn lemma_decimal_digits(n: nat)
    ensures
        decimal(n).len() >= 1,
        n < 10 <==> decimal(n).len() == 1,
        n >= 10 ==> decimal(n)[0] != '0',
        forall|i: int| 0 <= i < decimal(n).len() ==> is_digit(#[trigger] decimal(n)[i]),
    decreases n,
{
    if n >= 10 {
        lemma_decimal_digits(n / 10);
        if n / 10 < 10 {
            assert(decimal(n / 10)[0] == digits()[(n / 10) as int]);
        }
        assert(decimal(n)[0] == decimal(n / 10)[0]);
    }
}

/// Reading through a number in decimal leads from nothing read to that
/// number.
proof fn lemma_scan_through(text: Seq<char>, at: int, n: nat)
    requires
        has_at(text, at, decimal(n)),
    ensures
        scan_digits(text, at, 0) == scan_digits(text, at + decimal(n).len(), n),
    decreases n,
{
    lemma_has_at_each(text, at, decimal(n));
    if n < 10 {
        assert(text[at] == decimal(n)[0]);
        assert(digit_value(text[at]) == n);
    } else {
        let front = decimal(n / 10);
        let last = digits()[(n % 10) as int];
        assert(decimal(n) =~= front + seq![last]);
        lemma_has_at_split(text, at, front, seq![last]);
        lemma_scan_through(text, at, n / 10);
        let place = at + front.len();
        assert(text[place] == decimal(n)[front.len() as int]);
        assert(text[place] == last);
        assert(digit_value(last) == n % 10);
        assert(is_digit(last));
        assert(scan_digits(text, place, n / 10) == scan_digits(
            text,
            place + 1,
            (n / 10) * 10 + digit_value(text[place]),
        ));
    }
}

/// A number that was written in decimal, with no digit behind it, is read
/// back as that number.
pub proof fn lemma_number_read_back(text: Seq<char>, at: int, n: u32)
    requires
        has_at(text, at, decimal(n as nat)),
        at + decimal(n as nat).len() == text.len() || !is_digit(
            text[at + decimal(n as nat).len()],
        ),
    ensures
        plain_number_at(text, at) == Some((n, at + decimal(n as nat).len())),
{
    lemma_decimal_digits(n as nat);
    lemma_has_at_each(text, at, decimal(n as nat));
    assert(text[at] == decimal(n as nat)[0]);
    if n >= 10 {
        assert(text[at] != '0');
    }
    lemma_scan_through(text, at, n as nat);
}

/// A run of digits that is read from `start`, without a zero in front of
/// other digits, spells the number that it is read as.
proof fn lemma_scan_spells(text: Seq<char>, start: int, at: int, value: nat)
    requires
        0 <= start <= at <= text.len(),
        at == start ==> value == 0,
        at > start ==> text.subrange(start, at) == decimal(value),
        start + 1 < text.len() && text[start] == '0' ==> !is_digit(text[start + 1]),
        at > start && value == 0 ==> at == start + 1 && text[start] == '0',
    ensures
        ({
            let (number, end) = scan_digits(text, at, value);
            &&& at <= end <= text.len()
            &&& end > start ==> text.subrange(start, end) == decimal(number)
            &&& end == text.len() || !is_digit(text[end])
        }),
    decreases text.len() - at,
{
    if at < text.len() && is_digit(text[at]) {
        let digit = digit_value(text[at]);
        let next = value * 10 + digit;
        lemma_digit_char(text[at]);
        if at == start {
            assert(text.subrange(start, at + 1) =~= seq![text[at]]);
            assert(decimal(next) =~= seq![text[at]]);
        } else {
            assert(value > 0);
            assert(next / 10 == value && next % 10 == digit);
            assert(text.subrange(start, at + 1) =~= text.subrange(start, at).push(text[at]));
        }
        lemma_scan_spells(text, start, at + 1, next);
    }
}

/// A number that is read, written without a zero in front of other digits,
/// stands there in decimal, with no digit behind it.
pub proof fn lemma_number_spelt(text: Seq<char>, at: int)
    requires
        plain_number_at(text, at) is Some,
    ensures
        ({
            let (number, end) = plain_number_at(text, at)->0;
            &&& has_at(text, at, decimal(number as nat))
            &&& end == at + decimal(number as nat).len()
            &&& end == text.len() || !is_digit(text[end])
        }),
{
    lemma_scan_spells(text, at, at, 0);
    let (number, end) = scan_digits(text, at, 0);
    assert(scan_digits(text, at, 0) == scan_digits(text, at + 1, digit_value(text[at])));
    crate::storage::scan::lemma_scan_digits_grows(text, at + 1, digit_value(text[at]));
}

/// What was written for one character is read back as that character.
proof fn lemma_escape_read_back(text: Seq<char>, at: int, c: char)
    requires
        has_at(text, at, escape(c)),
    ensures
        text[at] != '"',
        if escape(c).len() == 1 {
            text[at] == c && c != '\\' && c as u32 >= 0x20
        } else {
            text[at] == '\\' && unescape_at(text, at + 1) == Some((c, at + escape(c).len()))
        },
{
    lemma_has_at_each(text, at, escape(c));
    let written = escape(c);
    assert(text[at] == written[0]);
    if written.len() > 1 {
        assert(text[at + 1] == written[1]);
        if written.len() > 2 {
            let code = c as u32;
            assert(code < 0x20);
            assert(text[at + 2] == written[2]);
            assert(text[at + 3] == written[3]);
            assert(text[at + 4] == written[4]);
            assert(text[at + 5] == written[5]);
            lemma_hex_value((code / 16) as nat);
            lemma_hex_value((code % 16) as nat);
            assert((((code / 16) * 16 + code % 16) as u8) as char == c);
        }
    }
}

/// A message that was written, with a quotation mark behind it, is read
/// back as that message.
pub proof fn lemma_message_read_back(text: Seq<char>, at: int, message: Seq<char>)
    requires
        has_at(text, at, escaped(message)),
        at + escaped(message).len() < text.len(),
        text[at + escaped(message).len()] == '"',
    ensures
        message_at(text, at) == Some((message, at + escaped(message).len() + 1)),
    decreases message.len(),
{
    if message.len() == 0 {
    } else {
        let c = message.first();
        let rest = message.drop_first();
        lemma_has_at_split(text, at, escape(c), escaped(rest));
        lemma_escape_read_back(text, at, c);
        let next = at + escape(c).len();
        lemma_message_read_back(text, next, rest);
        assert(seq![c] + rest =~= message);
    }
}

/// What is read behind a backslash as a character is what is written for
/// that character.
proof fn lemma_escape_spelt(text: Seq<char>, at: int)
    requires
        0 <= at < text.len(),
        text[at] == '\\',
        unescape_at(text, at + 1) is Some,
    ensures
        ({
            let (c, next) = unescape_at(text, at + 1)->0;
            &&& has_at(text, at, escape(c))
            &&& next == at + escape(c).len()
        }),
{
    let (c, next) = unescape_at(text, at + 1)->0;
    let mark = text[at + 1];
    if mark == 'u' {
        lemma_hex_char(text[at + 4]);
        lemma_hex_char(text[at + 5]);
        let high = hex_value(text[at + 4])->0;
        let low = hex_value(text[at + 5])->0;
        let code = high * 16 + low;
        assert(c as u32 == code);
        assert(c as int / 16 == high && c as int % 16 == low);
        assert(text.subrange(at, at + 6) =~= escape(c));
    } else {
        assert(text.subrange(at, at + 2) =~= escape(c));
    }
}

/// A message that is read stands there as it is written, with a quotation
/// mark behind it.
pub proof fn lemma_message_spelt(text: Seq<char>, at: int)
    requires
        message_at(text, at) is Some,
    ensures
        ({
            let (message, end) = message_at(text, at)->0;
            &&& has_at(text, at, escaped(message))
            &&& end == at + escaped(message).len() + 1
            &&& end <= text.len()
            &&& text[end - 1] == '"'
        }),
    decreases text.len() - at,
{
    let (message, end) = message_at(text, at)->0;
    if text[at] == '"' {
        assert(text.subrange(at, at) =~= escaped(message));
    } else if text[at] == '\\' {
        let (c, next) = unescape_at(text, at + 1)->0;
        lemma_escape_spelt(text, at);
        lemma_message_spelt(text, next);
        let (rest, rest_end) = message_at(text, next)->0;
        assert(message =~= seq![c] + rest);
        assert(message.first() == c);
        assert(message.drop_first() =~= rest);
        lemma_has_at_join(text, at, escape(c), escaped(rest));
    } else {
        let c = text[at];
        lemma_message_spelt(text, at + 1);
        let (rest, rest_end) = message_at(text, at + 1)->0;
        assert(message =~= seq![c] + rest);
        assert(message.first() == c);
        assert(message.drop_first() =~= rest);
        assert(text.subrange(at, at + 1) =~= escape(c));
        lemma_has_at_join(text, at, escape(c), escaped(rest));
    }
}

/// What was written for whether a task is done is read back as that.
proof fn lemma_flag_read_back(text: Seq<char>, at: int, done: bool)
    requires
        has_at(text, at, flag_text(done)),
    ensures
        flag_at(text, at) == Some((done, at + flag_text(done).len())),
{
    reveal_strlit("true");
    reveal_strlit("false");
    if !done {
        lemma_has_at_each(text, at, "false"@);
        assert(text[at] == "false"@[0]);
        if has_at(text, at, "true"@) {
            lemma_has_at_each(text, at, "true"@);
            assert(text[at] == "true"@[0]);
        }
    }
}

/// A task that was written is read back as that task.
pub proof fn lemma_task_read_back(text: Seq<char>, at: int, task: TodoView)
    requires
        has_at(text, at, task_text(task)),
    ensures
        task_at(text, at) == Some((task, at + task_text(task).len())),
{
    reveal_strlit(",\"message\":\"");
    reveal_strlit("\",\"done\":");
    reveal_strlit(",\"done\":");
    let head = "{\"id\":"@;
    let number = decimal(task.id as nat);
    let label = ",\"message\":\""@;
    let message = escaped(task.message);
    let quote = seq!['"'];
    let done = ",\"done\":"@;
    let flag = flag_text(task.done);
    let close = "}"@;
    let tail6 = flag + close;
    let tail5 = done + tail6;
    let tail4 = quote + tail5;
    let tail3 = message + tail4;
    let tail2 = label + tail3;
    let tail1 = number + tail2;
    assert("\",\"done\":"@ =~= quote + done);
    assert(task_text(task) =~= head + tail1);
    lemma_has_at_split(text, at, head, tail1);
    let at_id = at + head.len();
    lemma_has_at_split(text, at_id, number, tail2);
    let behind_id = at_id + number.len();
    lemma_has_at_split(text, behind_id, label, tail3);
    lemma_has_at_each(text, behind_id, label);
    assert(text[behind_id] == label[0]);
    lemma_number_read_back(text, at_id, task.id);
    let at_message = behind_id + label.len();
    lemma_has_at_split(text, at_message, message, tail4);
    let at_quote = at_message + message.len();
    lemma_has_at_split(text, at_quote, quote, tail5);
    lemma_has_at_each(text, at_quote, quote);
    assert(text[at_quote] == quote[0]);
    lemma_message_read_back(text, at_message, task.message);
    let behind_message = at_quote + 1;
    lemma_has_at_split(text, behind_message, done, tail6);
    let at_done = behind_message + done.len();
    lemma_has_at_split(text, at_done, flag, close);
    lemma_flag_read_back(text, at_done, task.done);
    let behind_done = at_done + flag.len();
    assert(past(text, at, head) == Some(at_id));
    assert(plain_number_at(text, at_id) == Some((task.id, behind_id)));
    assert(past(text, behind_id, label) == Some(at_message));
    assert(message_at(text, at_message) == Some((task.message, behind_message)));
    assert(past(text, behind_message, done) == Some(at_done));
    assert(flag_at(text, at_done) == Some((task.done, behind_done)));
    assert(past(text, behind_done, close) == Some(behind_done + close.len()));
}

/// A task that was written under its identifier is read back as that task
/// under that identifier.
pub proof fn lemma_entry_read_back(text: Seq<char>, at: int, id: u32, task: TodoView)
    requires
        has_at(text, at, entry_text(id, task)),
    ensures
        entry_at(text, at) == Some(((id, task), at + entry_text(id, task).len())),
        entry_text(id, task).len() > 0,
        entry_text(id, task)[0] == '"',
{
    reveal_strlit("\"");
    reveal_strlit("\":");
    let open = "\""@;
    let key = decimal(id as nat);
    let colon = "\":"@;
    let tail2 = colon + task_text(task);
    let tail1 = key + tail2;
    assert(entry_text(id, task) =~= open + tail1);
    lemma_has_at_split(text, at, open, tail1);
    let at_key = at + open.len();
    lemma_has_at_split(text, at_key, key, tail2);
    let behind_key = at_key + key.len();
    lemma_has_at_split(text, behind_key, colon, task_text(task));
    lemma_has_at_each(text, behind_key, colon);
    assert(text[behind_key] == colon[0]);
    lemma_number_read_back(text, at_key, id);
    let at_task = behind_key + colon.len();
    lemma_task_read_back(text, at_task, task);
    assert(past(text, at, open) == Some(at_key));
    assert(plain_number_at(text, at_key) == Some((id, behind_key)));
    assert(past(text, behind_key, colon) == Some(at_task));
    assert(entry_text(id, task)[0] == open[0]);
}

/// A task that is read stands there as it is written.
pub proof fn lemma_task_spelt(text: Seq<char>, at: int)
    requires
        task_at(text, at) is Some,
    ensures
        ({
            let (task, end) = task_at(text, at)->0;
            &&& has_at(text, at, task_text(task))
            &&& end == at + task_text(task).len()
        }),
{
    reveal_strlit("\",\"done\":");
    reveal_strlit(",\"done\":");
    let (task, end) = task_at(text, at)->0;
    let head = "{\"id\":"@;
    let number = decimal(task.id as nat);
    let label = ",\"message\":\""@;
    let message = escaped(task.message);
    let quote = seq!['"'];
    let done = ",\"done\":"@;
    let flag = flag_text(task.done);
    let close = "}"@;
    let at_id = past(text, at, head)->0;
    lemma_number_spelt(text, at_id);
    let behind_id = at_id + number.len();
    let at_message = past(text, behind_id, label)->0;
    lemma_message_spelt(text, at_message);
    let at_quote = at_message + message.len();
    let behind_message = at_quote + 1;
    assert(text.subrange(at_quote, at_quote + 1) =~= quote);
    let at_done = past(text, behind_message, done)->0;
    let behind_done = at_done + flag.len();
    assert(has_at(text, at_done, flag));
    assert(has_at(text, behind_done, close));
    let tail6 = flag + close;
    let tail5 = done + tail6;
    let tail4 = quote + tail5;
    let tail3 = message + tail4;
    let tail2 = label + tail3;
    let tail1 = number + tail2;
    lemma_has_at_join(text, at_done, flag, close);
    lemma_has_at_join(text, behind_message, done, tail6);
    lemma_has_at_join(text, at_quote, quote, tail5);
    lemma_has_at_join(text, at_message, message, tail4);
    lemma_has_at_join(text, behind_id, label, tail3);
    lemma_has_at_join(text, at_id, number, tail2);
    lemma_has_at_join(text, at, head, tail1);
    assert("\",\"done\":"@ =~= quote + done);
    assert(task_text(task) =~= head + tail1);
}

/// A task that is read under an identifier stands there as it is written
/// under that identifier.
pub proof fn lemma_entry_spelt(text: Seq<char>, at: int)
    requires
        entry_at(text, at) is Some,
    ensures
        ({
            let ((id, task), end) = entry_at(text, at)->0;
            &&& has_at(text, at, entry_text(id, task))
            &&& end == at + entry_text(id, task).len()
        }),
{
    let ((id, task), end) = entry_at(text, at)->0;
    let open = "\""@;
    let key = decimal(id as nat);
    let colon = "\":"@;
    let at_key = past(text, at, open)->0;
    lemma_number_spelt(text, at_key);
    let behind_key = at_key + key.len();
    let at_task = past(text, behind_key, colon)->0;
    lemma_task_spelt(text, at_task);
    let tail2 = colon + task_text(task);
    let tail1 = key + tail2;
    lemma_has_at_join(text, behind_key, colon, task_text(task));
    lemma_has_at_join(text, at_key, key, tail2);
    lemma_has_at_join(text, at, open, tail1);
    assert(entry_text(id, task) =~= open + tail1);
}

/// The identifiers of `entries` rise: each is above `above`, and smaller
/// than the next.
pub open spec fn rising(entries: Seq<(u32, TodoView)>, above: int) -> bool {
    &&& forall|i: int| 0 <= i < entries.len() ==> (#[trigger] entries[i]).0 > above
    &&& forall|i: int, j: int|
        0 <= i < j < entries.len() ==> (#[trigger] entries[i]).0 < (#[trigger] entries[j]).0
}

/// Tasks that were written one behind the other, under rising identifiers
/// and with no comma behind the last, are read back as those tasks.
pub proof fn lemma_entries_read_back(
    text: Seq<char>,
    at: int,
    entries: Seq<(u32, TodoView)>,
    above: int,
)
    requires
        entries.len() > 0,
        rising(entries, above),
        has_at(text, at, entries_text(entries)),
        at + entries_text(entries).len() == text.len() || text[at + entries_text(entries).len()]
            != ',',
    ensures
        entries_at(text, at, above) == Some((entries, at + entries_text(entries).len())),
        entries_text(entries).len() > 0,
        entries_text(entries)[0] == '"',
    decreases entries.len(),
{
    reveal_strlit(",");
    let entry = entries[0];
    let first = entry_text(entry.0, entry.1);
    if entries.len() == 1 {
        lemma_entry_read_back(text, at, entry.0, entry.1);
        let next = at + first.len();
        if has_at(text, next, ","@) {
            lemma_has_at_each(text, next, ","@);
            assert(text[next] == ","@[0]);
        }
        assert(entries =~= seq![entry]);
    } else {
        let rest = entries.drop_first();
        let tail = entries_text(rest);
        assert(entries_text(entries) =~= first + (","@ + tail));
        lemma_has_at_split(text, at, first, ","@ + tail);
        lemma_entry_read_back(text, at, entry.0, entry.1);
        let next = at + first.len();
        lemma_has_at_split(text, next, ","@, tail);
        let more = next + 1;
        assert(rising(rest, entry.0 as int)) by {
            assert forall|i: int| 0 <= i < rest.len() implies (#[trigger] rest[i]).0
                > entry.0 by {
                assert(rest[i] == entries[i + 1]);
            }
            assert forall|i: int, j: int| 0 <= i < j < rest.len() implies (#[trigger] rest[i]).0 < (
            #[trigger] rest[j]).0 by {
                assert(rest[i] == entries[i + 1]);
                assert(rest[j] == entries[j + 1]);
            }
        }
        lemma_entries_read_back(text, more, rest, entry.0 as int);
        assert(seq![entry] + rest =~= entries);
        assert(entries_text(entries)[0] == first[0]);
    }
}

/// Tasks that are read one behind the other stand there as they are
/// written, under rising identifiers and with no comma behind the last.
pub proof fn lemma_entries_spelt(text: Seq<char>, at: int, above: int)
    requires
        entries_at(text, at, above) is Some,
    ensures
        ({
            let (entries, end) = entries_at(text, at, above)->0;
            &&& entries.len() > 0
            &&& rising(entries, above)
            &&& has_at(text, at, entries_text(entries))
            &&& end == at + entries_text(entries).len()
        }),
    decreases text.len() - at,
{
    reveal_strlit(",");
    let (entries, end) = entries_at(text, at, above)->0;
    let (entry, next) = entry_at(text, at)->0;
    let first = entry_text(entry.0, entry.1);
    lemma_entry_spelt(text, at);
    match past(text, next, ","@) {
        Some(more) => {
            lemma_entries_spelt(text, more, entry.0 as int);
            let (rest, rest_end) = entries_at(text, more, entry.0 as int)->0;
            assert(entries =~= seq![entry] + rest);
            assert(entries.drop_first() =~= rest);
            assert(rising(entries, above)) by {
                assert forall|i: int| 0 <= i < entries.len() implies (#[trigger] entries[i]).0
                    > above by {
                    if i > 0 {
                        assert(entries[i] == rest[i - 1]);
                    }
                }
                assert forall|i: int, j: int| 0 <= i < j < entries.len() implies (
                #[trigger] entries[i]).0 < (#[trigger] entries[j]).0 by {
                    assert(entries[j] == rest[j - 1]);
                    if i > 0 {
                        assert(entries[i] == rest[i - 1]);
                    }
                }
            }
            let tail = entries_text(rest);
            lemma_has_at_join(text, next, ","@, tail);
            lemma_has_at_join(text, at, first, ","@ + tail);
            assert(entries_text(entries) =~= first + (","@ + tail));
        },
        None => {
            assert(entries =~= seq![entry]);
        },
    }
}

/// A map of entries holds the identifiers of the entries, and no other.
pub proof fn lemma_map_of_keys(entries: Seq<(u32, TodoView)>)
    ensures
        forall|id: u32|
            #![trigger map_of(entries).contains_key(id)]
            map_of(entries).contains_key(id) <==> exists|i: int|
                0 <= i < entries.len() && (#[trigger] entries[i]).0 == id,
    decreases entries.len(),
{
    if entries.len() > 0 {
        let front = entries.drop_last();
        lemma_map_of_keys(front);
        assert(map_of(entries) == map_of(front).insert(entries.last().0, entries.last().1));
        assert forall|id: u32|
            #![trigger map_of(entries).contains_key(id)]
            map_of(entries).contains_key(id) <==> exists|i: int|
                0 <= i < entries.len() && (#[trigger] entries[i]).0 == id by {
            if map_of(entries).contains_key(id) {
                if id == entries.last().0 {
                    assert(entries[entries.len() - 1].0 == id);
                } else {
                    assert(map_of(front).contains_key(id));
                    let i = choose|i: int| 0 <= i < front.len() && (#[trigger] front[i]).0 == id;
                    assert(entries[i].0 == id);
                }
            }
            if exists|i: int| 0 <= i < entries.len() && (#[trigger] entries[i]).0 == id {
                let i = choose|i: int| 0 <= i < entries.len() && (#[trigger] entries[i]).0 == id;
                if i < front.len() {
                    assert(front[i].0 == id);
                    assert(map_of(front).contains_key(id));
                } else {
                    assert(id == entries.last().0);
                }
            }
        }
    }
}

/// A map of entries under rising identifiers holds each entry's task under
/// the entry's identifier.
pub proof fn lemma_map_of_values(entries: Seq<(u32, TodoView)>, above: int)
    requires
        rising(entries, above),
    ensures
        forall|i: int|
            0 <= i < entries.len() ==> map_of(entries)[(#[trigger] entries[i]).0] == entries[i].1,
    decreases entries.len(),
{
    if entries.len() > 0 {
        let front = entries.drop_last();
        assert(rising(front, above)) by {
            assert forall|i: int| 0 <= i < front.len() implies (#[trigger] front[i]).0
                > above by {
                assert(front[i] == entries[i]);
            }
            assert forall|i: int, j: int| 0 <= i < j < front.len() implies (
            #[trigger] front[i]).0 < (#[trigger] front[j]).0 by {
                assert(front[i] == entries[i]);
                assert(front[j] == entries[j]);
            }
        }
        lemma_map_of_values(front, above);
        assert(map_of(entries) == map_of(front).insert(entries.last().0, entries.last().1));
        assert forall|i: int| 0 <= i < entries.len() implies map_of(entries)[(
        #[trigger] entries[i]).0] == entries[i].1 by {
            if i < front.len() {
                assert(front[i] == entries[i]);
                assert(entries[i].0 < entries[entries.len() - 1].0);
            }
        }
    }
}

/// The identifiers of entries, in their order.
pub open spec fn keys(entries: Seq<(u32, TodoView)>) -> Seq<u32> {
    entries.map_values(|entry: (u32, TodoView)| entry.0)
}

/// Entries under rising identifiers are the entries of their map.
pub proof fn lemma_entries_of_map(listed: Seq<(u32, TodoView)>)
    requires
        rising(listed, -1),
    ensures
        entries(map_of(listed)) == listed,
{
    let mapping = map_of(listed);
    lemma_map_of_keys(listed);
    lemma_map_of_values(listed, -1);
    assert(ascending(keys(listed))) by {
        assert forall|i: int, j: int| 0 <= i < j < keys(listed).len() implies keys(listed)[i]
            < keys(listed)[j] by {
            assert(listed[i].0 < listed[j].0);
        }
    }
    assert forall|id: u32| keys(listed).contains(id) <==> mapping.contains_key(id) by {
        if keys(listed).contains(id) {
            let i = choose|i: int| 0 <= i < keys(listed).len() && keys(listed)[i] == id;
            assert(listed[i].0 == id);
        }
        if mapping.contains_key(id) {
            let i = choose|i: int| 0 <= i < listed.len() && (#[trigger] listed[i]).0 == id;
            assert(keys(listed)[i] == id);
        }
    }
    lemma_ascending_is_ids_below(keys(listed), mapping, 0x1_0000_0000);
    assert(entries(mapping) =~= listed) by {
        assert forall|i: int| 0 <= i < listed.len() implies entries(mapping)[i] == listed[i] by {
            assert(ids(mapping)[i] == keys(listed)[i]);
            assert(mapping[listed[i].0] == listed[i].1);
        }
    }
}

/// The entries of a map stand under rising identifiers, and their map is
/// the map.
pub proof fn lemma_map_of_entries(mapping: Map<u32, TodoView>)
    ensures
        rising(entries(mapping), -1),
        map_of(entries(mapping)) == mapping,
{
    let listed = entries(mapping);
    lemma_ids_below(mapping, 0x1_0000_0000);
    assert(rising(listed, -1)) by {
        assert forall|i: int, j: int| 0 <= i < j < listed.len() implies (
        #[trigger] listed[i]).0 < (#[trigger] listed[j]).0 by {
            assert(ids(mapping)[i] < ids(mapping)[j]);
        }
    }
    lemma_map_of_keys(listed);
    lemma_map_of_values(listed, -1);
    assert(map_of(listed) =~= mapping) by {
        assert forall|id: u32| map_of(listed).contains_key(id) <==> mapping.contains_key(
            id,
        ) by {
            if map_of(listed).contains_key(id) {
                let i = choose|i: int| 0 <= i < listed.len() && (#[trigger] listed[i]).0 == id;
                assert(ids(mapping)[i] == id);
                assert(ids(mapping).contains(id));
            }
            if mapping.contains_key(id) {
                assert(ids(mapping).contains(id));
                let i = choose|i: int| 0 <= i < ids(mapping).len() && ids(mapping)[i] == id;
                assert(listed[i].0 == id);
            }
        }
        assert forall|id: u32| mapping.contains_key(id) implies map_of(listed)[id]
            == mapping[id] by {
            assert(ids(mapping).contains(id));
            let i = choose|i: int| 0 <= i < ids(mapping).len() && ids(mapping)[i] == id;
            assert(listed[i] == (id, mapping[id]));
        }
    }
}

/// The place at which the tasks stand in a text form with the counter
/// `sequence`.
pub open spec fn entries_place(sequence: u32) -> int {
    ("["@.len() + decimal(sequence as nat).len() + ",{"@.len()) as int
}

/// In a text that is made of an opening bracket, a counter, the tasks as
/// they are written and the closing brackets, the counter is read back, and
/// the tasks and the closing brackets stand behind it.
proof fn lemma_frame_read_back(text: Seq<char>, sequence: u32, listed: Seq<char>)
    requires
        text == "["@ + decimal(sequence as nat) + ",{"@ + listed + "}]"@,
    ensures
        past(text, 0, "["@) == Some("["@.len() as int),
        plain_number_at(text, "["@.len() as int) == Some(
            (sequence, ("["@.len() + decimal(sequence as nat).len()) as int),
        ),
        past(text, ("["@.len() + decimal(sequence as nat).len()) as int, ",{"@) == Some(
            entries_place(sequence),
        ),
        has_at(text, entries_place(sequence), listed),
        has_at(text, entries_place(sequence) + listed.len(), "}]"@),
        entries_place(sequence) + listed.len() + "}]"@.len() == text.len(),
        text[entries_place(sequence) + listed.len()] == '}',
{
    reveal_strlit("[");
    reveal_strlit(",{");
    reveal_strlit("}]");
    let open = "["@;
    let number = decimal(sequence as nat);
    let brace = ",{"@;
    let close = "}]"@;
    let tail3 = listed + close;
    let tail2 = brace + tail3;
    let tail1 = number + tail2;
    assert(text =~= open + tail1);
    assert(text.subrange(0, text.len() as int) =~= text);
    assert(has_at(text, 0, open + tail1));
    lemma_has_at_split(text, 0, open, tail1);
    let at_sequence = open.len() as int;
    lemma_has_at_split(text, at_sequence, number, tail2);
    let behind_sequence = at_sequence + number.len();
    lemma_has_at_split(text, behind_sequence, brace, tail3);
    lemma_has_at_each(text, behind_sequence, brace);
    assert(text[behind_sequence] == brace[0]);
    lemma_number_read_back(text, at_sequence, sequence);
    let at_entries = behind_sequence + brace.len();
    lemma_has_at_split(text, at_entries, listed, close);
    lemma_has_at_each(text, at_entries + listed.len(), close);
    assert(text[at_entries + listed.len()] == close[0]);
}

/// The text form of a store is read back as that store.
pub proof fn lemma_read_back(sequence: u32, mapping: Map<u32, TodoView>)
    ensures
        parsed(encoding(sequence, mapping)) == Some((sequence, mapping)),
{
    let text = encoding(sequence, mapping);
    let listed = entries_text(entries(mapping));
    let close = "}]"@;
    let at_entries = entries_place(sequence);
    let behind_entries = at_entries + listed.len();
    lemma_frame_read_back(text, sequence, listed);
    lemma_map_of_entries(mapping);
    if entries(mapping).len() == 0 {
        assert(map_of(entries(mapping)) =~= Map::empty());
        assert(past(text, at_entries, close) == Some(text.len() as int));
    } else {
        lemma_entries_read_back(text, at_entries, entries(mapping), -1);
        assert(past(text, at_entries, close) is None) by {
            reveal_strlit("}]");
            if has_at(text, at_entries, close) {
                lemma_has_at_each(text, at_entries, close);
                lemma_has_at_each(text, at_entries, listed);
                assert(text[at_entries] == close[0]);
                assert(text[at_entries] == listed[0]);
            }
        }
        assert(past(text, behind_entries, close) == Some(text.len() as int));
    }
}

/// A text that is read as a store is the text form of that store.
pub proof fn lemma_parsed_spelt(text: Seq<char>)
    requires
        parsed(text) is Some,
    ensures
        ({
            let (sequence, mapping) = parsed(text)->0;
            encoding(sequence, mapping) == text
        }),
{
    let (sequence, mapping) = parsed(text)->0;
    let open = "["@;
    let number = decimal(sequence as nat);
    let brace = ",{"@;
    let close = "}]"@;
    let at_sequence = past(text, 0, open)->0;
    lemma_number_spelt(text, at_sequence);
    let behind_sequence = at_sequence + number.len();
    let at_entries = past(text, behind_sequence, brace)->0;
    let listed = if past(text, at_entries, close) is Some {
        Seq::<(u32, TodoView)>::empty()
    } else {
        let (found, behind) = entries_at(text, at_entries, -1)->0;
        found
    };
    if past(text, at_entries, close) is Some {
        assert(rising(listed, -1));
        assert(mapping =~= map_of(listed));
        assert(text.subrange(at_entries, at_entries) =~= entries_text(listed));
    } else {
        lemma_entries_spelt(text, at_entries, -1);
    }
    lemma_entries_of_map(listed);
    let written = entries_text(listed);
    let behind_entries = at_entries + written.len();
    assert(has_at(text, at_entries, written));
    assert(has_at(text, behind_entries, close));
    let tail3 = written + close;
    let tail2 = brace + tail3;
    let tail1 = number + tail2;
    lemma_has_at_join(text, at_entries, written, close);
    lemma_has_at_join(text, behind_sequence, brace, tail3);
    lemma_has_at_join(text, at_sequence, number, tail2);
    lemma_has_at_join(text, 0, open, tail1);
    assert(encoding(sequence, mapping) =~= open + tail1);
    assert((open + tail1).len() == text.len());
    assert(text.subrange(0, text.len() as int) =~= text);
}

/// Two stores with the same text form are the same store.
pub proof fn lemma_encoding_is_injective(
    sequence: u32,
    mapping: Map<u32, TodoView>,
    other_sequence: u32,
    other_mapping: Map<u32, TodoView>,
)
    requires
        encoding(sequence, mapping) == encoding(other_sequence, other_mapping),
    ensures
        sequence == other_sequence,
        mapping == other_mapping,
{
    lemma_read_back(sequence, mapping);
    lemma_read_back(other_sequence, other_mapping);
}

} // verus!
