//! Input events as plain values: what a terminal reports of a key press, as
//! far as command resolution reads it.

use vstd::prelude::*;
use vstd::string::StringExecFns;
use crate::position::Size;
use crate::wording::{decimal, push_char, push_decimal};

verus! {

/// The key that was pressed.
#[derive(Clone, Copy, Debug, PartialEq, Eq, Structural)]
pub enum KeyCode {
    Backspace,
    Enter,
    Left,
    Right,
    Up,
    Down,
    Home,
    End,
    PageUp,
    PageDown,
    Tab,
    BackTab,
    Delete,
    Insert,
    /// A function key, by its number.
    F(u8),
    /// A key that produces a character.
    Char(char),
    Null,
    Esc,
    CapsLock,
    ScrollLock,
    NumLock,
    PrintScreen,
    Pause,
    Menu,
    KeypadBegin,
    /// A media key.
    Media,
    /// A modifier key pressed by itself.
    Modifier,
}

/// The modifier keys held down with a key.
#[derive(Clone, Copy, Debug, PartialEq, Eq, Structural)]
pub struct KeyModifiers {
    pub shift: bool,
    pub control: bool,
    pub alt: bool,
    pub super_key: bool,
    pub hyper: bool,
    pub meta: bool,
}

/// A key press: the key and the modifiers held with it.
#[derive(Clone, Copy, Debug, PartialEq, Eq, Structural)]
pub struct KeyEvent {
    pub code: KeyCode,
    pub modifiers: KeyModifiers,
}

/// What the terminal reports.
#[derive(Clone, Copy, Debug, PartialEq, Eq, Structural)]
pub enum Event {
    Key(KeyEvent),
    Resize(Size),
    FocusGained,
    FocusLost,
    Mouse,
    Paste,
}

/// No modifier held.
pub open spec fn no_modifiers() -> KeyModifiers {
    KeyModifiers {
        shift: false,
        control: false,
        alt: false,
        super_key: false,
        hyper: false,
        meta: false,
    }
}

/// The control key held, and no other modifier.
pub open spec fn control_only() -> KeyModifiers {
    KeyModifiers { control: true, ..no_modifiers() }
}

/// The shift key held, and no other modifier.
pub open spec fn shift_only() -> KeyModifiers {
    KeyModifiers { shift: true, ..no_modifiers() }
}

/// The name by which a message refers to a key.
pub open spec fn code_name(code: KeyCode) -> Seq<char> {
    match code {
        KeyCode::Backspace => "Backspace"@,
        KeyCode::Enter => "Enter"@,
        KeyCode::Left => "Left"@,
        KeyCode::Right => "Right"@,
        KeyCode::Up => "Up"@,
        KeyCode::Down => "Down"@,
        KeyCode::Home => "Home"@,
        KeyCode::End => "End"@,
        KeyCode::PageUp => "PageUp"@,
        KeyCode::PageDown => "PageDown"@,
        KeyCode::Tab => "Tab"@,
        KeyCode::BackTab => "BackTab"@,
        KeyCode::Delete => "Delete"@,
        KeyCode::Insert => "Insert"@,
        KeyCode::F(n) => "F("@ + decimal(n as nat) + ")"@,
        KeyCode::Char(c) => "Char('"@.push(c) + "')"@,
        KeyCode::Null => "Null"@,
        KeyCode::Esc => "Esc"@,
        KeyCode::CapsLock => "CapsLock"@,
        KeyCode::ScrollLock => "ScrollLock"@,
        KeyCode::NumLock => "NumLock"@,
        KeyCode::PrintScreen => "PrintScreen"@,
        KeyCode::Pause => "Pause"@,
        KeyCode::Menu => "Menu"@,
        KeyCode::KeypadBegin => "KeypadBegin"@,
        KeyCode::Media => "Media"@,
        KeyCode::Modifier => "Modifier"@,
    }
}

/// `list` with `name` added where `held` is set; names are joined by `+`.
pub open spec fn with_modifier(list: Seq<char>, held: bool, name: Seq<char>) -> Seq<char> {
    if !held {
        list
    } else if list.len() == 0 {
        name
    } else {
        list + "+"@ + name
    }
}

/// The names of the modifiers that are held, joined by `+`.
pub open spec fn held_modifiers(m: KeyModifiers) -> Seq<char> {
    let list = with_modifier(Seq::empty(), m.shift, "SHIFT"@);
    let list = with_modifier(list, m.control, "CONTROL"@);
    let list = with_modifier(list, m.alt, "ALT"@);
    let list = with_modifier(list, m.super_key, "SUPER"@);
    let list = with_modifier(list, m.hyper, "HYPER"@);
    with_modifier(list, m.meta, "META"@)
}

/// The name by which a message refers to a set of modifiers: `NONE` where none
/// is held.
pub open spec fn modifiers_name(m: KeyModifiers) -> Seq<char> {
    if held_modifiers(m).len() == 0 {
        "NONE"@
    } else {
        held_modifiers(m)
    }
}

/// How a message writes a key press.
pub open spec fn key_event_name(event: KeyEvent) -> Seq<char> {
    "KeyEvent { code: "@ + code_name(event.code) + ", modifiers: "@ + modifiers_name(
        event.modifiers,
    ) + " }"@
}

/// How a message writes an event.
pub open spec fn event_name(event: Event) -> Seq<char> {
    match event {
        Event::Key(key_event) => key_event_name(key_event),
        Event::Resize(_) => "Resize"@,
        Event::FocusGained => "FocusGained"@,
        Event::FocusLost => "FocusLost"@,
        Event::Mouse => "Mouse"@,
        Event::Paste => "Paste"@,
    }
}

impl KeyCode {
    /// Appends the key's name to `out`.
    pub fn describe(&self, out: &mut String)
        ensures
            final(out)@ == old(out)@ + code_name(*self),
    {
        let ghost before = out@;
        match *self {
            KeyCode::Backspace => out.append("Backspace"),
            KeyCode::Enter => out.append("Enter"),
            KeyCode::Left => out.append("Left"),
            KeyCode::Right => out.append("Right"),
            KeyCode::Up => out.append("Up"),
            KeyCode::Down => out.append("Down"),
            KeyCode::Home => out.append("Home"),
            KeyCode::End => out.append("End"),
            KeyCode::PageUp => out.append("PageUp"),
            KeyCode::PageDown => out.append("PageDown"),
            KeyCode::Tab => out.append("Tab"),
            KeyCode::BackTab => out.append("BackTab"),
            KeyCode::Delete => out.append("Delete"),
            KeyCode::Insert => out.append("Insert"),
            KeyCode::F(n) => {
                out.append("F(");
                push_decimal(out, n);
                out.append(")");
                assert(out@ =~= before + code_name(*self));
            },
            KeyCode::Char(c) => {
                out.append("Char('");
                push_char(out, c);
                out.append("')");
                assert(out@ =~= before + code_name(*self));
            },
            KeyCode::Null => out.append("Null"),
            KeyCode::Esc => out.append("Esc"),
            KeyCode::CapsLock => out.append("CapsLock"),
            KeyCode::ScrollLock => out.append("ScrollLock"),
            KeyCode::NumLock => out.append("NumLock"),
            KeyCode::PrintScreen => out.append("PrintScreen"),
            KeyCode::Pause => out.append("Pause"),
            KeyCode::Menu => out.append("Menu"),
            KeyCode::KeypadBegin => out.append("KeypadBegin"),
            KeyCode::Media => out.append("Media"),
            KeyCode::Modifier => out.append("Modifier"),
        }
    }
}

/// Adds `name` to the list of held modifiers in `list`.
fn add_modifier(list: &mut String, held: bool, name: &str)
    ensures
        final(list)@ == with_modifier(old(list)@, held, name@),
{
    if held {
        if !list.as_str().is_empty() {
            list.append("+");
        }
        list.append(name);
    }
}

impl KeyModifiers {
    /// No modifier held.
    pub fn none() -> (m: KeyModifiers)
        ensures
            m == no_modifiers(),
    {
        KeyModifiers {
            shift: false,
            control: false,
            alt: false,
            super_key: false,
            hyper: false,
            meta: false,
        }
    }

    /// The control key alone.
    pub fn control() -> (m: KeyModifiers)
        ensures
            m == control_only(),
    {
        KeyModifiers {
            shift: false,
            control: true,
            alt: false,
            super_key: false,
            hyper: false,
            meta: false,
        }
    }

    /// The shift key alone.
    pub fn shift() -> (m: KeyModifiers)
        ensures
            m == shift_only(),
    {
        KeyModifiers {
            shift: true,
            control: false,
            alt: false,
            super_key: false,
            hyper: false,
            meta: false,
        }
    }

    /// Whether no modifier is held.
    pub fn is_none(&self) -> (b: bool)
        ensures
            b == (*self == no_modifiers()),
    {
        !self.shift && !self.control && !self.alt && !self.super_key && !self.hyper && !self.meta
    }

    /// Whether the control key is held, and no other modifier.
    pub fn is_control(&self) -> (b: bool)
        ensures
            b == (*self == control_only()),
    {
        !self.shift && self.control && !self.alt && !self.super_key && !self.hyper && !self.meta
    }

    /// Whether the shift key is held, and no other modifier.
    pub fn is_shift(&self) -> (b: bool)
        ensures
            b == (*self == shift_only()),
    {
        self.shift && !self.control && !self.alt && !self.super_key && !self.hyper && !self.meta
    }

    /// Appends the modifiers' name to `out`.
    pub fn describe(&self, out: &mut String)
        ensures
            final(out)@ == old(out)@ + modifiers_name(*self),
    {
        let mut list = String::new();
        add_modifier(&mut list, self.shift, "SHIFT");
        add_modifier(&mut list, self.control, "CONTROL");
        add_modifier(&mut list, self.alt, "ALT");
        add_modifier(&mut list, self.super_key, "SUPER");
        add_modifier(&mut list, self.hyper, "HYPER");
        add_modifier(&mut list, self.meta, "META");
        if list.as_str().is_empty() {
            out.append("NONE");
        } else {
            out.append(list.as_str());
        }
    }
}

impl KeyEvent {
    /// A key press of `code` with `modifiers` held.
    pub fn new(code: KeyCode, modifiers: KeyModifiers) -> (event: KeyEvent)
        ensures
            event.code == code,
            event.modifiers == modifiers,
    {
        KeyEvent { code, modifiers }
    }

    /// Appends the way a message writes this key press to `out`.
    pub fn describe(&self, out: &mut String)
        ensures
            final(out)@ == old(out)@ + key_event_name(*self),
    {
        let ghost before = out@;
        out.append("KeyEvent { code: ");
        self.code.describe(out);
        out.append(", modifiers: ");
        self.modifiers.describe(out);
        out.append(" }");
        assert(out@ =~= before + key_event_name(*self));
    }
}

impl Event {
    /// Appends the way a message writes this event to `out`.
    pub fn describe(&self, out: &mut String)
        ensures
            final(out)@ == old(out)@ + event_name(*self),
    {
        match *self {
            Event::Key(key_event) => key_event.describe(out),
            Event::Resize(_) => out.append("Resize"),
            Event::FocusGained => out.append("FocusGained"),
            Event::FocusLost => out.append("FocusLost"),
            Event::Mouse => out.append("Mouse"),
            Event::Paste => out.append("Paste"),
        }
    }
}

} // verus!
