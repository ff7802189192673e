use podocpodoc::command::edit::Edit;
use podocpodoc::command::key::{Event, KeyCode, KeyEvent, KeyModifiers};
use podocpodoc::command::movecommand::Move;
use podocpodoc::command::system::System;
use podocpodoc::command::{Command, Mode};
use podocpodoc::position::Size;

fn plain(code: KeyCode) -> KeyEvent {
    KeyEvent::new(code, KeyModifiers::none())
}

fn control(code: KeyCode) -> KeyEvent {
    KeyEvent::new(code, KeyModifiers::control())
}

fn shift(code: KeyCode) -> KeyEvent {
    KeyEvent::new(code, KeyModifiers::shift())
}

fn alt() -> KeyModifiers {
    KeyModifiers { alt: true, ..KeyModifiers::none() }
}

#[test]
fn normal_default_escape_dismisses() {
    let result = Command::handle_normal_default_event(Event::Key(plain(KeyCode::Esc)));
    assert_eq!(result, Ok(Command::System(System::Dismiss)));
}

#[test]
fn normal_default_control_d_scrolls_half_a_page_down() {
    let result = Command::handle_normal_default_event(Event::Key(control(KeyCode::Char('d'))));
    assert_eq!(result, Ok(Command::Move(Move::HalfPageDown)));
}

#[test]
fn normal_default_control_z_is_rejected_by_name() {
    let result = Command::handle_normal_default_event(Event::Key(control(KeyCode::Char('z'))));
    assert_eq!(
        result,
        Err(String::from(
            "Event not supported: KeyEvent { code: Char('z'), modifiers: CONTROL }"
        ))
    );
    let message = result.unwrap_err();
    assert!(message.contains("Char('z')"));
    assert!(message.contains("CONTROL"));
}

#[test]
fn rejection_leaves_the_event_usable() {
    let event = Event::Key(control(KeyCode::Char('z')));
    let first = Command::handle_normal_default_event(event);
    let second = Command::handle_normal_default_event(event);
    assert_eq!(first, second);
}

#[test]
fn move_resolves_unmodified_navigation_keys() {
    assert_eq!(Move::try_from(plain(KeyCode::Up)), Ok(Move::Up));
    assert_eq!(Move::try_from(plain(KeyCode::Down)), Ok(Move::Down));
    assert_eq!(Move::try_from(plain(KeyCode::Left)), Ok(Move::Left));
    assert_eq!(Move::try_from(plain(KeyCode::Right)), Ok(Move::Right));
    assert_eq!(Move::try_from(plain(KeyCode::PageUp)), Ok(Move::PageUp));
    assert_eq!(Move::try_from(plain(KeyCode::PageDown)), Ok(Move::PageDown));
    assert_eq!(Move::try_from(plain(KeyCode::Home)), Ok(Move::StartOfLine));
    assert_eq!(Move::try_from(plain(KeyCode::End)), Ok(Move::EndOfLine));
}

#[test]
fn move_resolves_control_letters() {
    assert_eq!(Move::try_from(control(KeyCode::Char('b'))), Ok(Move::PageUp));
    assert_eq!(Move::try_from(control(KeyCode::Char('f'))), Ok(Move::PageDown));
    assert_eq!(Move::try_from(control(KeyCode::Char('u'))), Ok(Move::HalfPageUp));
    assert_eq!(Move::try_from(control(KeyCode::Char('d'))), Ok(Move::HalfPageDown));
    assert_eq!(Move::try_from(control(KeyCode::Char('y'))), Ok(Move::PageUpOneLine));
    assert_eq!(Move::try_from(control(KeyCode::Char('e'))), Ok(Move::PageDownOneLine));
}

#[test]
fn move_rejects_an_unmodified_character() {
    assert_eq!(
        Move::try_from(plain(KeyCode::Char('x'))),
        Err(String::from("Unsupported code: Char('x')"))
    );
}

#[test]
fn move_rejects_an_unbound_control_key() {
    assert_eq!(
        Move::try_from(control(KeyCode::Char('z'))),
        Err(String::from("Unsupported CONTROL+Char('z') combination"))
    );
    assert_eq!(
        Move::try_from(control(KeyCode::Up)),
        Err(String::from("Unsupported CONTROL+Up combination"))
    );
}

#[test]
fn move_rejects_other_modifiers() {
    assert_eq!(
        Move::try_from(shift(KeyCode::Up)),
        Err(String::from("Unsupported key code Up or modifier SHIFT"))
    );
    let both = KeyModifiers { shift: true, control: true, ..KeyModifiers::none() };
    assert_eq!(
        Move::try_from(KeyEvent::new(KeyCode::Char('d'), both)),
        Err(String::from("Unsupported key code Char('d') or modifier SHIFT+CONTROL"))
    );
}

#[test]
fn system_resolves_escape_and_enter() {
    assert_eq!(System::try_from(plain(KeyCode::Esc)), Ok(System::Dismiss));
    assert_eq!(System::try_from(plain(KeyCode::Enter)), Ok(System::Action));
}

#[test]
fn system_resolves_mode_characters() {
    assert_eq!(System::try_from(plain(KeyCode::Char(':'))), Ok(System::TypeableCommand));
    assert_eq!(System::try_from(plain(KeyCode::Char('i'))), Ok(System::Insert));
    assert_eq!(System::try_from(plain(KeyCode::Char('a'))), Ok(System::Append));
    assert_eq!(System::try_from(plain(KeyCode::Char('/'))), Ok(System::Search));
    assert_eq!(System::try_from(plain(KeyCode::Char('o'))), Ok(System::OpenBelow));
    assert_eq!(System::try_from(plain(KeyCode::Char('O'))), Ok(System::OpenAbove));
}

#[test]
fn system_rejects_every_control_key() {
    assert_eq!(
        System::try_from(control(KeyCode::Esc)),
        Err(String::from("Unsupported CONTROL+Esc combination"))
    );
    assert_eq!(
        System::try_from(control(KeyCode::Char('i'))),
        Err(String::from("Unsupported CONTROL+Char('i') combination"))
    );
}

#[test]
fn system_rejects_unbound_keys() {
    assert_eq!(
        System::try_from(plain(KeyCode::Char('x'))),
        Err(String::from("Unsupported key code Char('x') or modifier NONE"))
    );
    assert_eq!(
        System::try_from(KeyEvent::new(KeyCode::Esc, alt())),
        Err(String::from("Unsupported key code Esc or modifier ALT"))
    );
    assert_eq!(
        System::try_from(KeyEvent::new(KeyCode::Char('i'), alt())),
        Err(String::from("Unsupported key code Char('i') or modifier ALT"))
    );
}

#[test]
fn edit_resolves_text_keys() {
    assert_eq!(Edit::try_from(plain(KeyCode::Char('q'))), Ok(Edit::Insert('q')));
    assert_eq!(Edit::try_from(shift(KeyCode::Char('Q'))), Ok(Edit::Insert('Q')));
    assert_eq!(Edit::try_from(plain(KeyCode::Tab)), Ok(Edit::Insert('\t')));
    assert_eq!(Edit::try_from(plain(KeyCode::Enter)), Ok(Edit::InsertNewline));
    assert_eq!(Edit::try_from(plain(KeyCode::Backspace)), Ok(Edit::DeleteBackward));
    assert_eq!(Edit::try_from(plain(KeyCode::Delete)), Ok(Edit::Delete));
}

#[test]
fn edit_rejects_other_keys() {
    assert_eq!(
        Edit::try_from(plain(KeyCode::F(12))),
        Err(String::from("Unsupported key code F(12) with modifiers NONE"))
    );
    assert_eq!(
        Edit::try_from(shift(KeyCode::Enter)),
        Err(String::from("Unsupported key code Enter with modifiers SHIFT"))
    );
    assert_eq!(
        Edit::try_from(control(KeyCode::Char('c'))),
        Err(String::from("Unsupported key code Char('c') with modifiers CONTROL"))
    );
}

#[test]
fn normal_default_tries_system_then_move_then_edit() {
    let resolve = |event: KeyEvent| Command::handle_normal_default_event(Event::Key(event));
    assert_eq!(resolve(plain(KeyCode::Char('i'))), Ok(Command::System(System::Insert)));
    assert_eq!(resolve(plain(KeyCode::Enter)), Ok(Command::System(System::Action)));
    assert_eq!(resolve(plain(KeyCode::Up)), Ok(Command::Move(Move::Up)));
    assert_eq!(resolve(plain(KeyCode::Char('x'))), Ok(Command::Edit(Edit::Insert('x'))));
    assert_eq!(resolve(plain(KeyCode::Backspace)), Ok(Command::Edit(Edit::DeleteBackward)));
}

#[test]
fn insert_mode_tries_edit_then_move_then_system() {
    let resolve = |event: KeyEvent| Command::handle_insert_event(Event::Key(event));
    assert_eq!(resolve(plain(KeyCode::Char('i'))), Ok(Command::Edit(Edit::Insert('i'))));
    assert_eq!(resolve(plain(KeyCode::Enter)), Ok(Command::Edit(Edit::InsertNewline)));
    assert_eq!(resolve(plain(KeyCode::Left)), Ok(Command::Move(Move::Left)));
    assert_eq!(resolve(control(KeyCode::Char('u'))), Ok(Command::Move(Move::HalfPageUp)));
    assert_eq!(resolve(plain(KeyCode::Esc)), Ok(Command::System(System::Dismiss)));
}

#[test]
fn prompt_mode_tries_edit_then_move_then_system() {
    let resolve = |event: KeyEvent| Command::handle_normal_prompt_event(Event::Key(event));
    assert_eq!(resolve(plain(KeyCode::Char(':'))), Ok(Command::Edit(Edit::Insert(':'))));
    assert_eq!(resolve(plain(KeyCode::Home)), Ok(Command::Move(Move::StartOfLine)));
    assert_eq!(resolve(plain(KeyCode::Esc)), Ok(Command::System(System::Dismiss)));
    assert_eq!(
        resolve(control(KeyCode::Char('q'))),
        Err(String::from(
            "Event not supported: KeyEvent { code: Char('q'), modifiers: CONTROL }"
        ))
    );
}

#[test]
fn events_that_are_no_key_press_are_rejected() {
    let resize = Event::Resize(Size { height: 24, width: 80 });
    assert_eq!(
        Command::handle_normal_default_event(resize),
        Err(String::from("Event not supported: Resize"))
    );
    assert_eq!(
        Command::handle_insert_event(Event::Paste),
        Err(String::from("Event not supported: Paste"))
    );
    assert_eq!(
        Command::handle_normal_prompt_event(Event::FocusGained),
        Err(String::from("Event not supported: FocusGained"))
    );
    assert_eq!(
        Command::handle_insert_event(Event::FocusLost),
        Err(String::from("Event not supported: FocusLost"))
    );
    assert_eq!(
        Command::handle_insert_event(Event::Mouse),
        Err(String::from("Event not supported: Mouse"))
    );
}

#[test]
fn resolve_event_follows_the_mode() {
    let event = Event::Key(plain(KeyCode::Char('a')));
    assert_eq!(
        Command::resolve_event(event, Mode::NormalDefault),
        Ok(Command::System(System::Append))
    );
    assert_eq!(
        Command::resolve_event(event, Mode::NormalPrompt),
        Ok(Command::Edit(Edit::Insert('a')))
    );
    assert_eq!(Command::resolve_event(event, Mode::Insert), Ok(Command::Edit(Edit::Insert('a'))));
}

#[test]
fn key_names_are_written_out() {
    let mut text = String::new();
    KeyCode::F(7).describe(&mut text);
    assert_eq!(text, "F(7)");
    let mut text = String::new();
    KeyCode::F(255).describe(&mut text);
    assert_eq!(text, "F(255)");
    let mut text = String::new();
    KeyCode::F(40).describe(&mut text);
    assert_eq!(text, "F(40)");
    let mut text = String::from("key ");
    KeyCode::PageDown.describe(&mut text);
    assert_eq!(text, "key PageDown");
}

#[test]
fn modifier_names_are_joined() {
    let mut text = String::new();
    KeyModifiers::none().describe(&mut text);
    assert_eq!(text, "NONE");
    let all = KeyModifiers {
        shift: true,
        control: true,
        alt: true,
        super_key: true,
        hyper: true,
        meta: true,
    };
    let mut text = String::new();
    all.describe(&mut text);
    assert_eq!(text, "SHIFT+CONTROL+ALT+SUPER+HYPER+META");
    assert!(KeyModifiers::none().is_none());
    assert!(KeyModifiers::control().is_control());
    assert!(KeyModifiers::shift().is_shift());
    assert!(!all.is_control());
}
