use whale_rs::buffer::InputBuffer;
use whale_rs::config::FullConfig;
use whale_rs::enums::{ArgType, Shell};
use whale_rs::gui::{ActionToExecute, ViewType};
use whale_rs::input::{
    decode_event, InputEvent, KeyCode, KeyEvent, KeyEventKind, TerminalEvent, MOD_ALT, MOD_CONTROL,
    MOD_CONTROL_SHIFT, MOD_NONE, MOD_SHIFT,
};
use whale_rs::parser::ArgumentParser;
use whale_rs::runtime::{execute_action, tab_completion, toggle_view_action, update_buffer, AdditionalViewAction};
use whale_rs::state::ProgramState;

fn press(code: KeyCode, modifiers: u8) -> TerminalEvent {
    TerminalEvent::Key(KeyEvent { code, modifiers, kind: KeyEventKind::Press, state: 0 })
}

#[test]
fn letters_are_typed_or_commands() {
    assert_eq!(decode_event(press(KeyCode::Char('a'), MOD_NONE)), InputEvent::Character('a'));
    assert_eq!(decode_event(press(KeyCode::Char('A'), MOD_SHIFT)), InputEvent::Character('A'));
    assert_eq!(decode_event(press(KeyCode::Char('c'), MOD_CONTROL)), InputEvent::CtrlC);
    assert_eq!(decode_event(press(KeyCode::Char('t'), MOD_CONTROL)), InputEvent::CtrlT);
    assert_eq!(decode_event(press(KeyCode::Char('s'), MOD_CONTROL)), InputEvent::CtrlS);
    assert_eq!(decode_event(press(KeyCode::Char('d'), MOD_CONTROL)), InputEvent::CtrlD);
    assert_eq!(decode_event(press(KeyCode::Char('w'), MOD_CONTROL)), InputEvent::CtrlBackspace);
    assert_eq!(decode_event(press(KeyCode::Char('d'), MOD_ALT)), InputEvent::CtrlDelete);
    assert_eq!(decode_event(press(KeyCode::Char('x'), MOD_CONTROL)), InputEvent::Other);
    assert_eq!(decode_event(press(KeyCode::Char('x'), MOD_ALT)), InputEvent::Other);
}

#[test]
fn keys_without_a_letter() {
    assert_eq!(decode_event(press(KeyCode::Esc, MOD_NONE)), InputEvent::Esc);
    assert_eq!(decode_event(press(KeyCode::Esc, MOD_SHIFT)), InputEvent::Other);
    assert_eq!(decode_event(press(KeyCode::Tab, MOD_NONE)), InputEvent::Tab);
    assert_eq!(decode_event(press(KeyCode::Enter, MOD_NONE)), InputEvent::Enter);
    assert_eq!(decode_event(press(KeyCode::Enter, MOD_ALT)), InputEvent::Other);
    assert_eq!(decode_event(press(KeyCode::Backspace, MOD_NONE)), InputEvent::Backspace);
    assert_eq!(decode_event(press(KeyCode::Backspace, MOD_CONTROL)), InputEvent::CtrlBackspace);
    assert_eq!(decode_event(press(KeyCode::Delete, MOD_NONE)), InputEvent::Delete);
    assert_eq!(decode_event(press(KeyCode::Delete, MOD_ALT)), InputEvent::CtrlDelete);
    assert_eq!(decode_event(press(KeyCode::Other, MOD_NONE)), InputEvent::Other);
}

#[test]
fn arrows_with_their_modifiers() {
    assert_eq!(decode_event(press(KeyCode::Left, MOD_NONE)), InputEvent::ArrowLeft);
    assert_eq!(decode_event(press(KeyCode::Left, MOD_SHIFT)), InputEvent::ShiftArrowLeft);
    assert_eq!(decode_event(press(KeyCode::Left, MOD_CONTROL)), InputEvent::CtrlArrowLeft);
    assert_eq!(decode_event(press(KeyCode::Left, MOD_ALT)), InputEvent::AltArrowLeft);
    assert_eq!(decode_event(press(KeyCode::Left, MOD_CONTROL_SHIFT)), InputEvent::CtrlShiftArrowLeft);
    assert_eq!(decode_event(press(KeyCode::Left, 7)), InputEvent::Other);
    assert_eq!(decode_event(press(KeyCode::Right, MOD_NONE)), InputEvent::ArrowRight);
    assert_eq!(decode_event(press(KeyCode::Right, MOD_SHIFT)), InputEvent::ShiftArrowRight);
    assert_eq!(decode_event(press(KeyCode::Right, MOD_CONTROL)), InputEvent::CtrlArrowRight);
    assert_eq!(decode_event(press(KeyCode::Right, MOD_ALT)), InputEvent::AltArrowRight);
    assert_eq!(decode_event(press(KeyCode::Right, MOD_CONTROL_SHIFT)), InputEvent::CtrlShiftArrowRight);
    assert_eq!(decode_event(press(KeyCode::Up, MOD_NONE)), InputEvent::ArrowUp);
    assert_eq!(decode_event(press(KeyCode::Up, MOD_SHIFT)), InputEvent::ShiftArrowUp);
    assert_eq!(decode_event(press(KeyCode::Up, MOD_CONTROL)), InputEvent::Other);
    assert_eq!(decode_event(press(KeyCode::Down, MOD_NONE)), InputEvent::ArrowDown);
    assert_eq!(decode_event(press(KeyCode::Down, MOD_SHIFT)), InputEvent::ShiftArrowDown);
    assert_eq!(decode_event(press(KeyCode::Down, MOD_ALT)), InputEvent::Other);
}

#[test]
fn only_presses_without_a_lock_count() {
    let release = TerminalEvent::Key(KeyEvent {
        code: KeyCode::Char('a'),
        modifiers: MOD_NONE,
        kind: KeyEventKind::Release,
        state: 0,
    });
    assert_eq!(decode_event(release), InputEvent::Other);
    let repeat =
        TerminalEvent::Key(KeyEvent { code: KeyCode::Left, modifiers: MOD_NONE, kind: KeyEventKind::Repeat, state: 0 });
    assert_eq!(decode_event(repeat), InputEvent::Other);
    let locked =
        TerminalEvent::Key(KeyEvent { code: KeyCode::Enter, modifiers: MOD_NONE, kind: KeyEventKind::Press, state: 8 });
    assert_eq!(decode_event(locked), InputEvent::Other);
    assert_eq!(decode_event(TerminalEvent::Resize(80, 24)), InputEvent::Resize((80, 24)));
    assert_eq!(decode_event(TerminalEvent::Other), InputEvent::Other);
}

#[test]
fn asking_for_the_shown_view_takes_it_away() {
    let mut action = AdditionalViewAction::Keep;
    toggle_view_action(&mut action, None, ViewType::Table);
    assert_eq!(action, AdditionalViewAction::SetTo(ViewType::Table));
    toggle_view_action(&mut action, Some(ViewType::Table), ViewType::Table);
    assert_eq!(action, AdditionalViewAction::Unset);
    toggle_view_action(&mut action, Some(ViewType::Table), ViewType::Dropdown);
    assert_eq!(action, AdditionalViewAction::SetTo(ViewType::Dropdown));
}

struct Session {
    state: ProgramState,
    buffer: InputBuffer,
    parser: ArgumentParser,
    term_size: (u16, u16),
}

fn session() -> Session {
    let mut state = ProgramState::init(FullConfig::default(), "/home/me".to_string(), Shell::default());
    state.executables = vec!["cargo".to_string(), "cat".to_string(), "ls".to_string()];
    Session { state, buffer: InputBuffer::init(), parser: ArgumentParser::new(), term_size: (1, 1) }
}

fn is_dir(path: &String) -> bool {
    path == "/home/me" || path == "/home/me/src"
}

fn list_dir(path: &String) -> Vec<String> {
    if path == "/home/me" {
        vec!["Cargo.toml".to_string(), "src".to_string(), "target".to_string()]
    } else {
        vec!["lib.rs".to_string(), "main.rs".to_string()]
    }
}

fn feed(s: &mut Session, input: InputEvent) -> AdditionalViewAction {
    update_buffer(input, &s.state, &mut s.buffer, &mut s.term_size, None, &mut s.parser, &is_dir, &list_dir)
}

fn type_text(s: &mut Session, text: &str) {
    for c in text.chars() {
        feed(s, InputEvent::Character(c));
    }
}

fn text(s: &Session) -> String {
    s.buffer.get_buffer().iter().collect()
}

#[test]
fn typing_classifies_and_hints() {
    let mut s = session();
    type_text(&mut s, "ca");
    assert_eq!(text(&s), "ca");
    assert_eq!(s.buffer.num_args(), 1);
    let hints = s.buffer.get_argument_hints();
    assert_eq!(hints[0].0, ArgType::Executable);
    assert_eq!(hints[0].1.last_closest_match(), Some(&"cargo".to_string()));
    type_text(&mut s, "t s");
    assert_eq!(text(&s), "cat s");
    let hints = s.buffer.get_argument_hints();
    assert_eq!(hints.len(), 2);
    assert_eq!(hints[0].1.last_closest_match(), Some(&"cat".to_string()));
    assert_eq!(hints[1].0, ArgType::Path);
    assert_eq!(hints[1].1.set_using(), "/home/me");
    assert_eq!(hints[1].1.last_closest_match(), Some(&"src".to_string()));
    assert_eq!(s.parser.first_arg(), "cat");
}

#[test]
fn tab_accepts_the_closest_match() {
    let mut s = session();
    type_text(&mut s, "cat s");
    assert_eq!(tab_completion(&s.buffer), "rc");
    feed(&mut s, InputEvent::Tab);
    assert_eq!(text(&s), "cat src");
    type_text(&mut s, "/m");
    let hints = s.buffer.get_argument_hints();
    assert_eq!(hints[1].1.set_using(), "/home/me/src");
    assert_eq!(hints[1].1.disregard(), 4);
    assert_eq!(hints[1].1.last_closest_match(), Some(&"main.rs".to_string()));
    feed(&mut s, InputEvent::Tab);
    assert_eq!(text(&s), "cat src/main.rs");
    feed(&mut s, InputEvent::Tab);
    assert_eq!(text(&s), "cat src/main.rs");
}

#[test]
fn keys_edit_the_line() {
    let mut s = session();
    type_text(&mut s, "abc def");
    feed(&mut s, InputEvent::Backspace);
    assert_eq!(text(&s), "abc de");
    feed(&mut s, InputEvent::ArrowLeft);
    feed(&mut s, InputEvent::ArrowLeft);
    assert_eq!(s.buffer.main_cur().position(), 4);
    feed(&mut s, InputEvent::Delete);
    assert_eq!(text(&s), "abc e");
    feed(&mut s, InputEvent::CtrlArrowLeft);
    assert_eq!(s.buffer.main_cur().position(), 3);
    feed(&mut s, InputEvent::CtrlArrowRight);
    assert_eq!(s.buffer.main_cur().position(), 4);
    feed(&mut s, InputEvent::ArrowRight);
    feed(&mut s, InputEvent::ArrowRight);
    assert_eq!(s.buffer.main_cur().position(), 5);
    feed(&mut s, InputEvent::CtrlBackspace);
    assert_eq!(text(&s), "abc ");
    feed(&mut s, InputEvent::CtrlC);
    feed(&mut s, InputEvent::Other);
    assert_eq!(text(&s), "abc ");
    feed(&mut s, InputEvent::Enter);
    assert_eq!(text(&s), "");
    assert_eq!(s.buffer.num_args(), 0);
    assert!(s.buffer.get_argument_hints().is_empty());
}

#[test]
fn selecting_and_replacing() {
    let mut s = session();
    type_text(&mut s, "abc def");
    feed(&mut s, InputEvent::AltArrowLeft);
    feed(&mut s, InputEvent::AltArrowLeft);
    assert!(s.buffer.sec_cur().active());
    assert_eq!(s.buffer.cursor_range(), (5, 7));
    feed(&mut s, InputEvent::CtrlShiftArrowLeft);
    assert_eq!(s.buffer.cursor_range(), (4, 7));
    feed(&mut s, InputEvent::AltArrowRight);
    assert_eq!(s.buffer.cursor_range(), (5, 7));
    feed(&mut s, InputEvent::CtrlShiftArrowRight);
    assert_eq!(s.buffer.cursor_range(), (7, 7));
    feed(&mut s, InputEvent::CtrlShiftArrowLeft);
    feed(&mut s, InputEvent::Esc);
    assert!(!s.buffer.sec_cur().active());
    feed(&mut s, InputEvent::CtrlShiftArrowLeft);
    assert_eq!(s.buffer.cursor_range(), (4, 7));
    feed(&mut s, InputEvent::Character('x'));
    assert_eq!(text(&s), "abc x");
    assert!(!s.buffer.sec_cur().active());
}

#[test]
fn views_and_the_size_of_the_terminal() {
    let mut s = session();
    assert_eq!(feed(&mut s, InputEvent::CtrlT), AdditionalViewAction::SetTo(ViewType::Table));
    assert_eq!(feed(&mut s, InputEvent::CtrlD), AdditionalViewAction::SetTo(ViewType::Dropdown));
    assert_eq!(feed(&mut s, InputEvent::CtrlS), AdditionalViewAction::SetTo(ViewType::Explorer));
    assert_eq!(feed(&mut s, InputEvent::Character('a')), AdditionalViewAction::Keep);
    let shown = update_buffer(
        InputEvent::CtrlT,
        &s.state,
        &mut s.buffer,
        &mut s.term_size,
        Some(ViewType::Table),
        &mut s.parser,
        &is_dir,
        &list_dir,
    );
    assert_eq!(shown, AdditionalViewAction::Unset);
    assert_eq!(s.term_size, (1, 1));
    feed(&mut s, InputEvent::Resize((120, 40)));
    assert_eq!(s.term_size, (120, 40));
    assert_eq!(text(&s), "a");
}

#[test]
fn a_view_can_set_the_line_or_the_match() {
    let mut s = session();
    type_text(&mut s, "cat s");
    execute_action(
        ActionToExecute::SetClosestMatch("target".to_string()),
        &mut s.buffer,
        &s.parser,
        &s.state,
        &is_dir,
        &list_dir,
    );
    assert_eq!(s.buffer.get_argument_hints()[1].1.last_closest_match(), Some(&"target".to_string()));
    execute_action(
        ActionToExecute::SetBuffer("ls src/".to_string()),
        &mut s.buffer,
        &s.parser,
        &s.state,
        &is_dir,
        &list_dir,
    );
    assert_eq!(text(&s), "ls src/");
    assert_eq!(s.buffer.num_args(), 2);
    let hints = s.buffer.get_argument_hints();
    assert_eq!(hints[0].1.last_closest_match(), Some(&"ls".to_string()));
    assert_eq!(hints[1].1.set_using(), "/home/me/src");
    assert_eq!(hints[1].1.last_closest_match(), Some(&"lib.rs".to_string()));
}
