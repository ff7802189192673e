//! Resolution of input events into commands.
//!
//! A key press is tried against the three families of commands in an order
//! that the editing mode fixes; the first family that accepts it gives the
//! command. An event that is no key press, or that no family accepts, is
//! rejected with a message that names it.

pub mod edit;
pub mod key;
pub mod movecommand;
pub mod system;

use vstd::prelude::*;
use vstd::string::StringExecFns;
use crate::command::edit::{resolve_edit, Edit};
use crate::command::key::{event_name, Event, KeyEvent};
use crate::command::movecommand::{is_outcome, resolve_move, Move};
use crate::command::system::{resolve_system, System};

verus! {

/// What an input event asks the editor to do.
#[derive(Clone, Copy, Debug, PartialEq, Eq, Structural)]
pub enum Command {
    Move(Move),
    Edit(Edit),
    System(System),
}

/// The editing mode in which an event arrives.
#[derive(Clone, Copy, Debug, PartialEq, Eq, Structural)]
pub enum Mode {
    /// Normal mode, the cursor in the text.
    NormalDefault,
    /// Normal mode, the cursor in a prompt.
    NormalPrompt,
    /// Insert mode.
    Insert,
}

/// The message that rejects an event.
pub open spec fn not_supported(event: Event) -> Seq<char> {
    "Event not supported: "@ + event_name(event)
}

/// The command of a key press where system commands come first, then
/// movements, then edits.
pub open spec fn system_first(key_event: KeyEvent) -> Option<Command> {
    match resolve_system(key_event) {
        Ok(system) => Some(Command::System(system)),
        Err(_) => match resolve_move(key_event) {
            Ok(movement) => Some(Command::Move(movement)),
            Err(_) => match resolve_edit(key_event) {
                Ok(edit) => Some(Command::Edit(edit)),
                Err(_) => None,
            },
        },
    }
}

/// The command of a key press where edits come first, then movements, then
/// system commands.
pub open spec fn edit_first(key_event: KeyEvent) -> Option<Command> {
    match resolve_edit(key_event) {
        Ok(edit) => Some(Command::Edit(edit)),
        Err(_) => match resolve_move(key_event) {
            Ok(movement) => Some(Command::Move(movement)),
            Err(_) => match resolve_system(key_event) {
                Ok(system) => Some(Command::System(system)),
                Err(_) => None,
            },
        },
    }
}

/// What `event` resolves to in `mode`: the command, or the message that
/// rejects the event.
pub open spec fn resolve(event: Event, mode: Mode) -> Result<Command, Seq<char>> {
    match event {
        Event::Key(key_event) => {
            let found = match mode {
                Mode::NormalDefault => system_first(key_event),
                Mode::NormalPrompt => edit_first(key_event),
                Mode::Insert => edit_first(key_event),
            };
            match found {
                Some(command) => Ok(command),
                None => Err(not_supported(event)),
            }
        },
        _ => Err(not_supported(event)),
    }
}

/// Builds the message that rejects `event`.
fn reject(event: Event) -> (message: String)
    ensures
        message@ == not_supported(event),
{
    let mut message = String::from_str("Event not supported: ");
    event.describe(&mut message);
    message
}

/// Tries the families with system commands first.
fn try_system_first(key_event: KeyEvent) -> (found: Option<Command>)
    ensures
        found == system_first(key_event),
{
    match System::try_from(key_event) {
        Ok(system) => Some(Command::System(system)),
        Err(_) => match Move::try_from(key_event) {
            Ok(movement) => Some(Command::Move(movement)),
            Err(_) => match Edit::try_from(key_event) {
                Ok(edit) => Some(Command::Edit(edit)),
                Err(_) => None,
            },
        },
    }
}

/// Tries the families with edits first.
fn try_edit_first(key_event: KeyEvent) -> (found: Option<Command>)
    ensures
        found == edit_first(key_event),
{
    match Edit::try_from(key_event) {
        Ok(edit) => Some(Command::Edit(edit)),
        Err(_) => match Move::try_from(key_event) {
            Ok(movement) => Some(Command::Move(movement)),
            Err(_) => match System::try_from(key_event) {
                Ok(system) => Some(Command::System(system)),
                Err(_) => None,
            },
        },
    }
}

impl Command {
    /// Resolves an event in normal mode with the cursor in the text: system
    /// commands are tried first, then movements, then edits.
    pub fn handle_normal_default_event(event: Event) -> (result: Result<Command, String>)
        ensures
            is_outcome(result, resolve(event, Mode::NormalDefault)),
    {
        match event {
            Event::Key(key_event) => match try_system_first(key_event) {
                Some(command) => Ok(command),
                None => Err(reject(event)),
            },
            _ => Err(reject(event)),
        }
    }

    /// Resolves an event in normal mode with the cursor in a prompt: edits are
    /// tried first, then movements, then system commands.
    pub fn handle_normal_prompt_event(event: Event) -> (result: Result<Command, String>)
        ensures
            is_outcome(result, resolve(event, Mode::NormalPrompt)),
    {
        match event {
            Event::Key(key_event) => match try_edit_first(key_event) {
                Some(command) => Ok(command),
                None => Err(reject(event)),
            },
            _ => Err(reject(event)),
        }
    }

    /// Resolves an event in insert mode: edits are tried first, then
    /// movements, then system commands.
    pub fn handle_insert_event(event: Event) -> (result: Result<Command, String>)
        ensures
            is_outcome(result, resolve(event, Mode::Insert)),
    {
        match event {
            Event::Key(key_event) => match try_edit_first(key_event) {
                Some(command) => Ok(command),
                None => Err(reject(event)),
            },
            _ => Err(reject(event)),
        }
    }

    /// Resolves an event in the given mode.
    pub fn resolve_event(event: Event, mode: Mode) -> (result: Result<Command, String>)
        ensures
            is_outcome(result, resolve(event, mode)),
    {
        match mode {
            Mode::NormalDefault => Command::handle_normal_default_event(event),
            Mode::NormalPrompt => Command::handle_normal_prompt_event(event),
            Mode::Insert => Command::handle_insert_event(event),
        }
    }
}

} // verus!
