//! Key presses and the commands they stand for in the selection screen.
use vstd::prelude::*;

verus! {

/// A key, as the selection screen tells keys apart.
#[derive(Clone, Copy, Debug, PartialEq, Eq, Structural)]
pub enum Key {
    Char(char),
    Up,
    Down,
    Enter,
    Esc,
    Other,
}

/// A key press, with whether Control was held.
#[derive(Clone, Copy, Debug, PartialEq, Eq, Structural)]
pub struct KeyPress {
    pub key: Key,
    pub ctrl: bool,
}

/// What a key press asks of the selection.
#[derive(Clone, Copy, Debug, PartialEq, Eq, Structural)]
pub enum Command {
    /// `q` or Esc: close the help, or else leave without publishing.
    Quit,
    /// Control-C: leave without publishing.
    ForceQuit,
    /// Down arrow or `j`.
    Down,
    /// Up arrow or `k`.
    Up,
    /// Space.
    Toggle,
    /// `a`.
    SelectAll,
    /// `n`.
    SelectNone,
    /// `i`.
    Invert,
    /// `h` or `?`.
    ToggleHelp,
    /// Enter: go on with the selected commits, unless the help is shown.
    Confirm,
    /// Any other key.
    Ignore,
}

/// The command that a key press stands for.
pub open spec fn command_of(k: KeyPress) -> Command {
    match k.key {
        Key::Char(c) => if c == 'q' {
            Command::Quit
        } else if c == 'c' && k.ctrl {
            Command::ForceQuit
        } else if c == 'j' {
            Command::Down
        } else if c == 'k' {
            Command::Up
        } else if c == ' ' {
            Command::Toggle
        } else if c == 'a' {
            Command::SelectAll
        } else if c == 'n' {
            Command::SelectNone
        } else if c == 'i' {
            Command::Invert
        } else if c == 'h' || c == '?' {
            Command::ToggleHelp
        } else {
            Command::Ignore
        },
        Key::Esc => Command::Quit,
        Key::Down => Command::Down,
        Key::Up => Command::Up,
        Key::Enter => Command::Confirm,
        Key::Other => Command::Ignore,
    }
}

/// The command that a key press stands for.
pub fn command_for(k: KeyPress) -> (r: Command)
    ensures
        r == command_of(k),
{
    match k.key {
        Key::Char(c) => if c == 'q' {
            Command::Quit
        } else if c == 'c' && k.ctrl {
            Command::ForceQuit
        } else if c == 'j' {
            Command::Down
        } else if c == 'k' {
            Command::Up
        } else if c == ' ' {
            Command::Toggle
        } else if c == 'a' {
            Command::SelectAll
        } else if c == 'n' {
            Command::SelectNone
        } else if c == 'i' {
            Command::Invert
        } else if c == 'h' || c == '?' {
            Command::ToggleHelp
        } else {
            Command::Ignore
        },
        Key::Esc => Command::Quit,
        Key::Down => Command::Down,
        Key::Up => Command::Up,
        Key::Enter => Command::Confirm,
        Key::Other => Command::Ignore,
    }
}

} // verus!
