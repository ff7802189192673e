//! Commands that move the cursor.

use vstd::prelude::*;
use vstd::string::StringExecFns;
use crate::command::key::{code_name, control_only, modifiers_name, no_modifiers, KeyCode, KeyEvent};

verus! {

/// A movement of the cursor.
#[derive(Clone, Copy, Debug, PartialEq, Eq, Structural)]
pub enum Move {
    PageUp,
    PageDown,
    HalfPageUp,
    HalfPageDown,
    PageUpOneLine,
    PageDownOneLine,
    StartOfLine,
    EndOfLine,
    Up,
    Left,
    Right,
    Down,
}

/// The movement bound to an unmodified key, if any.
pub open spec fn plain_move(code: KeyCode) -> Option<Move> {
    match code {
        KeyCode::Up => Some(Move::Up),
        KeyCode::Down => Some(Move::Down),
        KeyCode::Left => Some(Move::Left),
        KeyCode::Right => Some(Move::Right),
        KeyCode::PageDown => Some(Move::PageDown),
        KeyCode::PageUp => Some(Move::PageUp),
        KeyCode::Home => Some(Move::StartOfLine),
        KeyCode::End => Some(Move::EndOfLine),
        _ => None,
    }
}

/// The movement bound to a key pressed with the control key, if any.
pub open spec fn control_move(code: KeyCode) -> Option<Move> {
    match code {
        KeyCode::Char(c) => if c == 'b' {
            Some(Move::PageUp)
        } else if c == 'f' {
            Some(Move::PageDown)
        } else if c == 'u' {
            Some(Move::HalfPageUp)
        } else if c == 'd' {
            Some(Move::HalfPageDown)
        } else if c == 'y' {
            Some(Move::PageUpOneLine)
        } else if c == 'e' {
            Some(Move::PageDownOneLine)
        } else {
            None
        },
        _ => None,
    }
}

/// What a key press means as a movement: the movement, or the message that
/// rejects the key press.
pub open spec fn resolve_move(event: KeyEvent) -> Result<Move, Seq<char>> {
    if event.modifiers == no_modifiers() {
        match plain_move(event.code) {
            Some(m) => Ok(m),
            None => Err("Unsupported code: "@ + code_name(event.code)),
        }
    } else if event.modifiers == control_only() {
        match control_move(event.code) {
            Some(m) => Ok(m),
            None => Err("Unsupported CONTROL+"@ + code_name(event.code) + " combination"@),
        }
    } else {
        Err(
            "Unsupported key code "@ + code_name(event.code) + " or modifier "@ + modifiers_name(
                event.modifiers,
            ),
        )
    }
}

/// Whether `result` is the outcome `expected`, the message compared by its
/// characters.
pub open spec fn is_outcome<T>(result: Result<T, String>, expected: Result<T, Seq<char>>) -> bool {
    match result {
        Ok(value) => expected == Ok::<T, Seq<char>>(value),
        Err(message) => expected == Err::<T, Seq<char>>(message@),
    }
}

fn lookup_plain(code: KeyCode) -> (found: Option<Move>)
    ensures
        found == plain_move(code),
{
    match code {
        KeyCode::Up => Some(Move::Up),
        KeyCode::Down => Some(Move::Down),
        KeyCode::Left => Some(Move::Left),
        KeyCode::Right => Some(Move::Right),
        KeyCode::PageDown => Some(Move::PageDown),
        KeyCode::PageUp => Some(Move::PageUp),
        KeyCode::Home => Some(Move::StartOfLine),
        KeyCode::End => Some(Move::EndOfLine),
        _ => None,
    }
}

fn lookup_control(code: KeyCode) -> (found: Option<Move>)
    ensures
        found == control_move(code),
{
    match code {
        KeyCode::Char(c) => if c == 'b' {
            Some(Move::PageUp)
        } else if c == 'f' {
            Some(Move::PageDown)
        } else if c == 'u' {
            Some(Move::HalfPageUp)
        } else if c == 'd' {
            Some(Move::HalfPageDown)
        } else if c == 'y' {
            Some(Move::PageUpOneLine)
        } else if c == 'e' {
            Some(Move::PageDownOneLine)
        } else {
            None
        },
        _ => None,
    }
}

impl Move {
    /// Resolves a key press into a movement. Without a modifier, the arrow
    /// keys, `Home`, `End`, `PageUp` and `PageDown` move; with the control key
    /// alone, the letters `b`, `f`, `u`, `d`, `y` and `e` scroll. Every other
    /// key press is rejected with a message that names it.
    pub fn try_from(event: KeyEvent) -> (result: Result<Move, String>)
        ensures
            is_outcome(result, resolve_move(event)),
    {
        if event.modifiers.is_none() {
            match lookup_plain(event.code) {
                Some(m) => Ok(m),
                None => {
                    let mut message = String::from_str("Unsupported code: ");
                    event.code.describe(&mut message);
                    Err(message)
                },
            }
        } else if event.modifiers.is_control() {
            match lookup_control(event.code) {
                Some(m) => Ok(m),
                None => {
                    let mut message = String::from_str("Unsupported CONTROL+");
                    event.code.describe(&mut message);
                    message.append(" combination");
                    Err(message)
                },
            }
        } else {
            let mut message = String::from_str("Unsupported key code ");
            event.code.describe(&mut message);
            message.append(" or modifier ");
            event.modifiers.describe(&mut message);
            Err(message)
        }
    }
}

} // verus!
