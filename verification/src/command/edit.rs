//! Commands that change the text.

use vstd::prelude::*;
use vstd::string::StringExecFns;
use crate::command::key::{code_name, modifiers_name, no_modifiers, shift_only, KeyCode, KeyEvent};
use crate::command::movecommand::is_outcome;

verus! {

/// A change of the text at the cursor.
#[derive(Clone, Copy, Debug, PartialEq, Eq, Structural)]
pub enum Edit {
    /// Insert this character.
    Insert(char),
    /// Split the line.
    InsertNewline,
    /// Delete the character under the cursor.
    Delete,
    /// Delete the character before the cursor.
    DeleteBackward,
}

/// The edit bound to an unmodified key, if any.
pub open spec fn plain_edit(code: KeyCode) -> Option<Edit> {
    match code {
        KeyCode::Char(c) => Some(Edit::Insert(c)),
        KeyCode::Tab => Some(Edit::Insert('\t')),
        KeyCode::Enter => Some(Edit::InsertNewline),
        KeyCode::Backspace => Some(Edit::DeleteBackward),
        KeyCode::Delete => Some(Edit::Delete),
        _ => None,
    }
}

/// What a key press means as an edit: the edit, or the message that rejects
/// the key press.
pub open spec fn resolve_edit(event: KeyEvent) -> Result<Edit, Seq<char>> {
    if event.modifiers == no_modifiers() && plain_edit(event.code) is Some {
        Ok(plain_edit(event.code)->0)
    } else if event.modifiers == shift_only() && event.code is Char {
        Ok(Edit::Insert(event.code->Char_0))
    } else {
        Err(
            "Unsupported key code "@ + code_name(event.code) + " with modifiers "@
                + modifiers_name(event.modifiers),
        )
    }
}

fn lookup_plain(code: KeyCode) -> (found: Option<Edit>)
    ensures
        found == plain_edit(code),
{
    match code {
        KeyCode::Char(c) => Some(Edit::Insert(c)),
        KeyCode::Tab => Some(Edit::Insert('\t')),
        KeyCode::Enter => Some(Edit::InsertNewline),
        KeyCode::Backspace => Some(Edit::DeleteBackward),
        KeyCode::Delete => Some(Edit::Delete),
        _ => None,
    }
}

impl Edit {
    /// Resolves a key press into an edit. A character key, alone or with
    /// shift, inserts its character; without a modifier, `Tab` inserts a
    /// tabulator, `Enter` splits the line, `Backspace` deletes backward and
    /// `Delete` deletes. Every other key press is rejected with a message that
    /// names it.
    pub fn try_from(event: KeyEvent) -> (result: Result<Edit, String>)
        ensures
            is_outcome(result, resolve_edit(event)),
    {
        if event.modifiers.is_none() {
            match lookup_plain(event.code) {
                Some(edit) => {
                    return Ok(edit);
                },
                None => {},
            }
        }
        if event.modifiers.is_shift() {
            match event.code {
                KeyCode::Char(c) => {
                    return Ok(Edit::Insert(c));
                },
                _ => {},
            }
        }
        let mut message = String::from_str("Unsupported key code ");
        event.code.describe(&mut message);
        message.append(" with modifiers ");
        event.modifiers.describe(&mut message);
        Err(message)
    }
}

} // verus!
