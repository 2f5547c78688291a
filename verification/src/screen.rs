//! The texts and the colours of the screen.

use vstd::prelude::*;

use crate::messages::MessageLevel;
use crate::text;

verus! {

/// A colour of the screen.
#[derive(Clone, Copy, PartialEq, Eq, Structural, Debug)]
pub enum Tint {
    Red,
    Green,
    White,
    Magenta,
}

/// The colour of a command's row: green once it has an answer, red before.
pub fn row_tint(completed: bool) -> (tint: Tint)
    ensures
        tint == if completed {
            Tint::Green
        } else {
            Tint::Red
        },
{
    if completed {
        Tint::Green
    } else {
        Tint::Red
    }
}

/// The colour of a message.
pub fn level_tint(level: MessageLevel) -> (tint: Tint)
    ensures
        tint == match level {
            MessageLevel::INFO => Tint::White,
            MessageLevel::ERROR => Tint::Magenta,
            MessageLevel::CRITICAL => Tint::Red,
        },
{
    match level {
        MessageLevel::INFO => Tint::White,
        MessageLevel::ERROR => Tint::Magenta,
        MessageLevel::CRITICAL => Tint::Red,
    }
}

/// A heading with a number behind it.
pub open spec fn counted(heading: Seq<char>, count: nat) -> Seq<char> {
    heading + seq![' ', '['] + text::decimal(count) + seq![']']
}

/// A heading with a number behind it.
fn counted_text(heading: &str, count: usize) -> (title: String)
    ensures
        title@ == counted(heading@, count as nat),
{
    let mut title = heading.to_owned();
    title.push(' ');
    title.push('[');
    text::push_decimal(&mut title, count as u64);
    title.push(']');
    proof {
        assert(title@ == counted(heading@, count as nat));
    }
    title
}

/// The title of the table of commands that wait.
pub fn unanswered_title(count: usize) -> (title: String)
    ensures
        title@ == counted("Unanswered Commands"@, count as nat),
{
    counted_text("Unanswered Commands", count)
}

/// The title of the table of completed commands.
pub fn completed_title(count: usize) -> (title: String)
    ensures
        title@ == counted("Completed Commands"@, count as nat),
{
    counted_text("Completed Commands", count)
}

/// The line that says what the keys do, and whether random events are being sent.
pub fn hotkeys_text(running: bool) -> (line: String)
    ensures
        line@
            == "s: Single preformatted echo command          r: Single Shot of Random number of random echo commands        t: Toggle Random Event Generation "@
            + if running {
            "Running"@
        } else {
            "Not Running"@
        },
{
    let mut line =
        "s: Single preformatted echo command          r: Single Shot of Random number of random echo commands        t: Toggle Random Event Generation ".to_owned();
    if running {
        line.append("Running");
    } else {
        line.append("Not Running");
    }
    line
}

/// The headings of the nine columns of a command's row.
pub fn column_titles() -> (titles: Vec<&'static str>)
    ensures
        titles@.map_values(|title: &'static str| title@) == seq![
            "Tx Time"@,
            "Size"@,
            "ID"@,
            "Command"@,
            "Data"@,
            ""@,
            "Rx Time"@,
            "Delta Time"@,
            "Response"@,
        ],
{
    vec![
        "Tx Time",
        "Size",
        "ID",
        "Command",
        "Data",
        "",
        "Rx Time",
        "Delta Time",
        "Response",
    ]
}

/// A title shows its heading, and between brackets the number behind it.
pub proof fn titles_show_the_count(heading: Seq<char>, count: nat)
    ensures
        ({
            let title = counted(heading, count);
            let n = heading.len() as int;
            &&& title.len() > n + 3
            &&& title.take(n) == heading
            &&& title[n] == ' ' && title[n + 1] == '[' && title.last() == ']'
            &&& text::is_number(title.subrange(n + 2, title.len() - 1))
            &&& text::number(title.subrange(n + 2, title.len() - 1)) == count
        }),
{
    text::decimal_reads_back(count);
    let title = counted(heading, count);
    let n = heading.len() as int;
    assert(title.take(n) == heading);
    assert(title.subrange(n + 2, title.len() - 1) == text::decimal(count));
}

} // verus!
