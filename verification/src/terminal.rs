//! What the keys pressed at the terminal send to the console of a board.

use vstd::prelude::*;
use crate::utf8::char_to_string;

verus! {

/// A key of the keyboard, as the terminal reports it.
#[derive(Clone, Copy, Debug, PartialEq, Eq)]
pub enum Key {
    Unknown,
    /// An escape sequence that the terminal does not know.
    UnknownEscSeq,
    ArrowLeft,
    ArrowRight,
    ArrowUp,
    ArrowDown,
    Enter,
    Escape,
    Backspace,
    Home,
    End,
    Tab,
    BackTab,
    Alt,
    Del,
    Shift,
    Insert,
    PageUp,
    PageDown,
    Char(char),
}

/// What `key` sends to the console, where the delete key sends `del`. Keys
/// that mean nothing to the console send nothing.
pub open spec fn key_text(key: Key, del: Seq<char>) -> Option<Seq<char>> {
    match key {
        Key::Unknown => None,
        Key::UnknownEscSeq => None,
        Key::ArrowLeft => Some("\u{1B}[D"@),
        Key::ArrowRight => Some("\u{1B}[C"@),
        Key::ArrowUp => Some("\u{1B}[A"@),
        Key::ArrowDown => Some("\u{1B}[B"@),
        Key::Enter => Some("\n"@),
        Key::Escape => None,
        Key::Backspace => Some("\x08"@),
        Key::Home => Some("\u{1B}[H"@),
        Key::End => Some("\u{1B}[F"@),
        Key::Tab => Some("\t"@),
        Key::BackTab => Some("\t"@),
        Key::Alt => None,
        Key::Del => Some(del),
        Key::Shift => None,
        Key::Insert => None,
        Key::PageUp => None,
        Key::PageDown => None,
        Key::Char(c) => Some(seq![c]),
    }
}

/// The text that `key` sends, where the delete key sends `del`.
fn key_input(key: Key, del: &str) -> (r: Option<String>)
    ensures
        match key_text(key, del@) {
            Some(text) => r is Some && r->Some_0@ == text,
            None => r is None,
        },
{
    match key {
        Key::Unknown => None,
        Key::UnknownEscSeq => None,
        Key::ArrowLeft => Some("\u{1B}[D".to_owned()),
        Key::ArrowRight => Some("\u{1B}[C".to_owned()),
        Key::ArrowUp => Some("\u{1B}[A".to_owned()),
        Key::ArrowDown => Some("\u{1B}[B".to_owned()),
        Key::Enter => Some("\n".to_owned()),
        Key::Escape => None,
        Key::Backspace => Some("\x08".to_owned()),
        Key::Home => Some("\u{1B}[H".to_owned()),
        Key::End => Some("\u{1B}[F".to_owned()),
        Key::Tab => Some("\t".to_owned()),
        Key::BackTab => Some("\t".to_owned()),
        Key::Alt => None,
        Key::Del => Some(del.to_owned()),
        Key::Shift => None,
        Key::Insert => None,
        Key::PageUp => None,
        Key::PageDown => None,
        Key::Char(c) => Some(char_to_string(c)),
    }
}

/// The text that `key` sends to the console of a board. The delete key
/// sends the delete character, which the console takes as a backspace.
pub fn terminal_input(key: Key) -> (r: Option<String>)
    ensures
        match key_text(key, "\x7f"@) {
            Some(text) => r is Some && r->Some_0@ == text,
            None => r is None,
        },
{
    key_input(key, "\x7f")
}

/// The text that `key` sends to a console that is read line by line. The
/// delete key sends the escape sequence of the delete key.
pub fn line_input(key: Key) -> (r: Option<String>)
    ensures
        match key_text(key, "\u{1B}[3~"@) {
            Some(text) => r is Some && r->Some_0@ == text,
            None => r is None,
        },
{
    key_input(key, "\u{1B}[3~")
}

} // verus!
