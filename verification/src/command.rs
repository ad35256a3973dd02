//! Abstract game commands and the pure input decoder. A raw keyboard event,
//! reduced to which key was pressed and whether the Control modifier alone
//! was held, maps to quit, a horizontal move, or nothing.

use vstd::prelude::*;
use crate::direction::Direction;

verus! {

#[derive(Debug, Copy, Clone, PartialEq, Eq, Structural)]
pub enum Command {
    Quit,
    Go(Direction),
}

/// A keyboard event reduced to what the game reads. `Other` stands for any
/// key the game ignores.
#[derive(Debug, Copy, Clone, PartialEq, Eq, Structural)]
pub enum Key {
    Char(char),
    LeftArrow,
    RightArrow,
    Esc,
    Other,
}

/// What `decode_key` returns: quit on 'q', 'Q', Escape, or Control with 'c'
/// or 'C'; a horizontal move on the arrow keys; nothing on any other key,
/// Control with another letter included.
pub open spec fn spec_decode(key: Key, ctrl: bool) -> Option<Command> {
    match key {
        Key::Char(c) =>
            if c == 'q' || c == 'Q' {
                Some(Command::Quit)
            } else if (c == 'c' || c == 'C') && ctrl {
                Some(Command::Quit)
            } else {
                None
            },
        Key::Esc => Some(Command::Quit),
        Key::LeftArrow => Some(Command::Go(Direction::Left)),
        Key::RightArrow => Some(Command::Go(Direction::Right)),
        Key::Other => None,
    }
}

/// Decodes one key event into a command. `ctrl` says whether the event's
/// modifier mask was exactly Control. The mapping is pure and total; an
/// unrecognized key yields no command, never a stale direction.
pub fn decode_key(key: Key, ctrl: bool) -> (r: Option<Command>)
    ensures
        r == spec_decode(key, ctrl),
{
    match key {
        Key::Char(c) =>
            if c == 'q' || c == 'Q' {
                Some(Command::Quit)
            } else if (c == 'c' || c == 'C') && ctrl {
                Some(Command::Quit)
            } else {
                None
            },
        Key::Esc => Some(Command::Quit),
        Key::LeftArrow => Some(Command::Go(Direction::Left)),
        Key::RightArrow => Some(Command::Go(Direction::Right)),
        Key::Other => None,
    }
}

} // verus!
