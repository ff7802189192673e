//! Commands that change the editor's mode or answer a prompt.

use vstd::prelude::*;
use vstd::string::StringExecFns;
use crate::command::key::{code_name, control_only, modifiers_name, no_modifiers, KeyCode, KeyEvent};
use crate::command::movecommand::is_outcome;
use crate::position::Size;

verus! {

/// A command to the editor itself.
#[derive(Clone, Copy, Debug, PartialEq, Eq, Structural)]
pub enum System {
    /// The terminal changed its size. No key press resolves to this: it comes
    /// from the terminal's own notification.
    Resize(Size),
    Dismiss,
    Search,
    TypeableCommand,
    Action,
    Insert,
    Append,
    OpenBelow,
    OpenAbove,
}

/// The command bound to an unmodified key, if any.
pub open spec fn plain_system(code: KeyCode) -> Option<System> {
    match code {
        KeyCode::Esc => Some(System::Dismiss),
        KeyCode::Enter => Some(System::Action),
        KeyCode::Char(c) => if c == ':' {
            Some(System::TypeableCommand)
        } else if c == 'i' {
            Some(System::Insert)
        } else if c == 'a' {
            Some(System::Append)
        } else if c == '/' {
            Some(System::Search)
        } else if c == 'o' {
            Some(System::OpenBelow)
        } else if c == 'O' {
            Some(System::OpenAbove)
        } else {
            None
        },
        _ => None,
    }
}

/// What a key press means as a system command: the command, or the message
/// that rejects the key press.
pub open spec fn resolve_system(event: KeyEvent) -> Result<System, Seq<char>> {
    if event.modifiers == control_only() {
        Err("Unsupported CONTROL+"@ + code_name(event.code) + " combination"@)
    } else if event.modifiers == no_modifiers() && plain_system(event.code) is Some {
        Ok(plain_system(event.code)->0)
    } else {
        Err(
            "Unsupported key code "@ + code_name(event.code) + " or modifier "@ + modifiers_name(
                event.modifiers,
            ),
        )
    }
}

fn lookup_plain(code: KeyCode) -> (found: Option<System>)
    ensures
        found == plain_system(code),
{
    match code {
        KeyCode::Esc => Some(System::Dismiss),
        KeyCode::Enter => Some(System::Action),
        KeyCode::Char(c) => if c == ':' {
            Some(System::TypeableCommand)
        } else if c == 'i' {
            Some(System::Insert)
        } else if c == 'a' {
            Some(System::Append)
        } else if c == '/' {
            Some(System::Search)
        } else if c == 'o' {
            Some(System::OpenBelow)
        } else if c == 'O' {
            Some(System::OpenAbove)
        } else {
            None
        },
        _ => None,
    }
}

impl System {
    /// Resolves a key press into a system command. Every key press with the
    /// control key alone is rejected. Without a modifier, `Esc` dismisses,
    /// `Enter` acts, and the characters `:`, `i`, `a`, `/`, `o` and `O` enter
    /// a mode. Every other key press is rejected with a message that names
    /// it.
    pub fn try_from(event: KeyEvent) -> (result: Result<System, String>)
        ensures
            is_outcome(result, resolve_system(event)),
    {
        if event.modifiers.is_control() {
            let mut message = String::from_str("Unsupported CONTROL+");
            event.code.describe(&mut message);
            message.append(" combination");
            return Err(message);
        }
        if event.modifiers.is_none() {
            match lookup_plain(event.code) {
                Some(command) => {
                    return Ok(command);
                },
                None => {},
            }
        }
        let mut message = String::from_str("Unsupported key code ");
        event.code.describe(&mut message);
        message.append(" or modifier ");
        event.modifiers.describe(&mut message);
        Err(message)
    }
}

} // verus!
