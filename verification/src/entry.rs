//! What a typed line of input stands for: a text, a number, a command.
//!
//! Entries of a menu are numbered from one, so a line that holds no number
//! stands for zero, which selects nothing.

use vstd::prelude::*;

verus! {

/// What `str::trim` leaves of a line: the line without the white space at
/// its start and at its end.
pub uninterp spec fn trimmed(line: Seq<char>) -> Seq<char>;

/// What the main menu offers.
#[derive(Clone, Copy, Debug, PartialEq, Eq, Structural)]
pub enum Command {
    AddList,
    AddTask,
    DeleteTask,
    CrossOffTask,
    ViewList,
    Exit,
}

/// The command that an entry stands for: one of the digits `1` to `6`, alone.
pub open spec fn command_of(entry: Seq<char>) -> Option<Command> {
    if entry.len() != 1 {
        None
    } else if entry[0] == '1' {
        Some(Command::AddList)
    } else if entry[0] == '2' {
        Some(Command::AddTask)
    } else if entry[0] == '3' {
        Some(Command::DeleteTask)
    } else if entry[0] == '4' {
        Some(Command::CrossOffTask)
    } else if entry[0] == '5' {
        Some(Command::ViewList)
    } else if entry[0] == '6' {
        Some(Command::Exit)
    } else {
        None
    }
}

/// Whether `c` is one of the digits `0` to `9`.
pub open spec fn is_digit(c: char) -> bool {
    '0' <= c <= '9'
}

/// The number that a sequence of digits writes in base ten.
pub open spec fn digits_value(digits: Seq<char>) -> nat
    decreases digits.len(),
{
    if digits.len() == 0 {
        0
    } else {
        (digits_value(digits.drop_last()) * 10 + (digits.last() as nat - '0' as nat)) as nat
    }
}

/// Whether `text` is made of digits alone.
pub open spec fn all_digits(text: Seq<char>) -> bool {
    forall|i: int| 0 <= i < text.len() ==> is_digit(#[trigger] text[i])
}

/// `text` without the `+` that it starts with, if it starts with one.
pub open spec fn unsigned(text: Seq<char>) -> Seq<char> {
    if text.len() > 0 && text[0] == '+' {
        text.skip(1)
    } else {
        text
    }
}

/// The number that `text` writes: one digit or more, with at most one `+`
/// before them and nothing else.
pub open spec fn decimal(text: Seq<char>) -> Option<nat> {
    if unsigned(text).len() > 0 && all_digits(unsigned(text)) {
        Some(digits_value(unsigned(text)))
    } else {
        None
    }
}

/// The number that an entry stands for: the number that it writes, or zero
/// where it writes none or one that is too large for `usize`.
pub open spec fn number_of(entry: Seq<char>) -> usize {
    match decimal(entry) {
        Some(number) => if number <= usize::MAX {
            number as usize
        } else {
            0
        },
        None => 0,
    }
}

/// `str::trim`: the slice without leading and trailing white space.
#[verifier::external_body]
fn trim(line: &str) -> (entry: &str)
    ensures
        entry@ == trimmed(line@),
{
    line.trim()
}

/// `str::parse` at the type `usize`: the number that `text` writes in base
/// ten, with an optional `+` before the digits; `None` where `text` is empty,
/// holds anything but digits, or writes a number greater than `usize::MAX`.
#[verifier::external_body]
fn parse_number(text: &str) -> (number: Option<usize>)
    ensures
        number == match decimal(text@) {
            Some(value) => if value <= usize::MAX {
                Some(value as usize)
            } else {
                None
            },
            None => None,
        },
{
    text.parse::<usize>().ok()
}

/// The text that a typed line stands for: the line without the white space
/// at its ends.
pub fn entry_text(line: &str) -> (text: String)
    ensures
        text@ == trimmed(line@),
{
    trim(line).to_owned()
}

/// The command that an entry without white space around it stands for.
pub fn entry_command(entry: &str) -> (command: Option<Command>)
    ensures
        command == command_of(entry@),
{
    if entry.unicode_len() != 1 {
        return None;
    }
    let c = entry.get_char(0);
    if c == '1' {
        Some(Command::AddList)
    } else if c == '2' {
        Some(Command::AddTask)
    } else if c == '3' {
        Some(Command::DeleteTask)
    } else if c == '4' {
        Some(Command::CrossOffTask)
    } else if c == '5' {
        Some(Command::ViewList)
    } else if c == '6' {
        Some(Command::Exit)
    } else {
        None
    }
}

/// The command that a typed line stands for, white space at its ends aside.
pub fn parse_command(line: &str) -> (command: Option<Command>)
    ensures
        command == command_of(trimmed(line@)),
{
    entry_command(trim(line))
}

/// The number that an entry without white space around it stands for.
pub fn choice_number(entry: &str) -> (number: usize)
    ensures
        number == number_of(entry@),
{
    match parse_number(entry) {
        Some(number) => number,
        None => 0,
    }
}

/// The number that a typed line stands for, white space at its ends aside.
pub fn parse_choice(line: &str) -> (number: usize)
    ensures
        number == number_of(trimmed(line@)),
{
    choice_number(trim(line))
}

} // verus!
