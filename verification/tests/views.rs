use whale_rs::ansi::cursor_pos;
use whale_rs::buffer::InputBuffer;
use whale_rs::config::FullConfig;
use whale_rs::enums::Shell;
use whale_rs::gui::dropdown::DropdownGUI;
use whale_rs::gui::explorer::{explorer_action, layout, DirInfo, FileInfo};
use whale_rs::gui::table::{mod_sub_1, TableGUI};
use whale_rs::gui::terminal::{output_buffer, pos_to_xy, HighlightState, PieceStyle, TerminalGUI};
use whale_rs::gui::{add_mod, ceil_div, current_matches, ActionToExecute, ActionToTake, ActionType};
use whale_rs::input::InputEvent;
use whale_rs::parser::ArgumentParser;
use whale_rs::state::ProgramState;

fn strings(items: &[&str]) -> Vec<String> {
    items.iter().map(|s| s.to_string()).collect()
}

/// The line `text`, with the candidates `a1 a2 a3 b1` for every path.
fn hinted(text: &str) -> InputBuffer {
    let mut state = ProgramState::init(FullConfig::default(), "/w".to_string(), Shell::default());
    state.executables = strings(&["ls", "lsblk"]);
    let parser = ArgumentParser::new();
    let mut buffer = InputBuffer::init();
    buffer.insert_str_main_cursor(text);
    buffer.update();
    buffer.update_arguments(&parser, &state, &|p: &String| p == "/w", &|_: &String| {
        strings(&["a1", "a2", "a3", "b1"])
    });
    buffer
}

fn chosen(action: ActionToTake) -> Option<String> {
    match action {
        ActionToTake::WriteBuffer(ActionType::Other(ActionToExecute::SetClosestMatch(s))) => Some(s),
        ActionToTake::WriteBuffer(ActionType::Standard) => None,
        other => panic!("{:?}", other),
    }
}

#[test]
fn small_sums() {
    assert_eq!(ceil_div(0, 3), 0);
    assert_eq!(ceil_div(1, 3), 1);
    assert_eq!(ceil_div(3, 3), 1);
    assert_eq!(ceil_div(4, 3), 2);
    assert_eq!(ceil_div(4, 0), 0);
    assert_eq!(ceil_div(usize::MAX, 1), usize::MAX);
    assert_eq!(add_mod(5, 4, 3), 0);
    assert_eq!(add_mod(usize::MAX, usize::MAX, usize::MAX), 0);
    assert_eq!(add_mod(usize::MAX, 1, 10), (usize::MAX % 10 + 1) % 10);
    assert_eq!(mod_sub_1(3, 4), 2);
    assert_eq!(mod_sub_1(4, 4), 3);
    assert_eq!(mod_sub_1(5, 4), 0);
    assert_eq!(mod_sub_1(0, 4), 3);
    assert_eq!(mod_sub_1(5, 0), 0);
}

#[test]
fn candidates_that_match_the_current_argument() {
    let buffer = hinted("x a");
    let (selection, indexes, disregard) = current_matches(&buffer);
    assert_eq!(selection, &strings(&["a1", "a2", "a3", "b1"])[..]);
    assert_eq!(indexes, vec![0, 1, 2]);
    assert_eq!(disregard, 0);
    let buffer = hinted("x d/b");
    let (_, indexes, disregard) = current_matches(&buffer);
    assert_eq!(indexes, Vec::<usize>::new());
    assert_eq!(disregard, 0);
    let buffer = hinted("x ");
    let (_, indexes, _) = current_matches(&buffer);
    assert_eq!(indexes, vec![0, 1, 2, 3]);
    let empty = InputBuffer::init();
    let (selection, indexes, disregard) = current_matches(&empty);
    assert!(selection.is_empty());
    assert!(indexes.is_empty());
    assert_eq!(disregard, 0);
}

#[test]
fn the_dropdown_walks_around_its_candidates() {
    let buffer = hinted("x a");
    let mut dropdown = DropdownGUI::init();
    let step = |d: &mut DropdownGUI, event| chosen(d.action_before_write(event, &buffer, (80, 24), 0, (2, 5), 10));
    assert_eq!(step(&mut dropdown, InputEvent::Other), None);
    assert_eq!(dropdown.hints_iterator(), &[0, 1, 2]);
    assert_eq!(dropdown.arg_start(), (2, 5));
    assert_eq!(dropdown.cursor_pos(), 0);
    assert_eq!(step(&mut dropdown, InputEvent::ArrowDown), Some("a2".to_string()));
    assert_eq!(step(&mut dropdown, InputEvent::ArrowDown), Some("a3".to_string()));
    assert_eq!(dropdown.cursor_pos(), 2);
    assert_eq!(step(&mut dropdown, InputEvent::ArrowDown), Some("a1".to_string()));
    assert_eq!(step(&mut dropdown, InputEvent::ArrowUp), Some("a3".to_string()));
    assert_eq!(step(&mut dropdown, InputEvent::ArrowUp), Some("a2".to_string()));
    assert_eq!(step(&mut dropdown, InputEvent::Character('x')), None);
    assert_eq!(dropdown.cursor_pos(), 1);
}

#[test]
fn the_dropdown_starts_over_for_other_candidates() {
    let mut dropdown = DropdownGUI::init();
    let buffer = hinted("x a");
    dropdown.action_before_write(InputEvent::ArrowDown, &buffer, (80, 24), 0, (0, 0), 10);
    assert_eq!(dropdown.cursor_pos(), 1);
    let buffer = hinted("x ");
    dropdown.action_before_write(InputEvent::Other, &buffer, (80, 24), 0, (0, 0), 10);
    assert_eq!(dropdown.cursor_pos(), 0);
    assert_eq!(dropdown.hints_iterator(), &[0, 1, 2, 3]);
}

#[test]
fn the_dropdown_without_rows_or_candidates() {
    let mut dropdown = DropdownGUI::init();
    let buffer = hinted("x a");
    let action = dropdown.action_before_write(InputEvent::ArrowDown, &buffer, (80, 1), 0, (0, 0), 10);
    assert_eq!(chosen(action), Some("a1".to_string()));
    assert_eq!(dropdown.hints_iterator(), &[0]);
    let mut dropdown = DropdownGUI::init();
    let action = dropdown.action_before_write(InputEvent::ArrowDown, &hinted("x zz"), (80, 24), 0, (0, 0), 10);
    assert_eq!(chosen(action), None);
    assert!(dropdown.hints_iterator().is_empty());
    let action = dropdown.action_before_write(InputEvent::ArrowUp, &InputBuffer::init(), (0, 0), 9, (7, 7), 0);
    assert_eq!(chosen(action), None);
}

#[test]
fn the_dropdown_scrolls_two_rows() {
    let buffer = hinted("x ");
    let mut dropdown = DropdownGUI::init();
    let step = |d: &mut DropdownGUI, event| chosen(d.action_before_write(event, &buffer, (80, 3), 0, (0, 0), 10));
    // Two rows for four candidates.
    assert_eq!(step(&mut dropdown, InputEvent::ArrowDown), Some("a2".to_string()));
    assert_eq!(dropdown.hints_iterator(), &[0, 1]);
    assert_eq!(step(&mut dropdown, InputEvent::ArrowDown), Some("a3".to_string()));
    assert_eq!(dropdown.hints_iterator(), &[1, 2]);
    assert_eq!(step(&mut dropdown, InputEvent::ArrowDown), Some("a1".to_string()));
    assert_eq!(dropdown.hints_iterator(), &[0, 1]);
}

#[test]
fn the_table_walks_along_its_row() {
    let buffer = hinted("x a");
    let mut table = TableGUI::init();
    let step = |t: &mut TableGUI, event| chosen(t.action_before_write(event, &buffer, (80, 24), 0, 20));
    assert_eq!(step(&mut table, InputEvent::Other), None);
    assert_eq!(table.grid_slots(), (4, 23));
    assert_eq!(table.hints_iterator(), &[0, 1, 2]);
    assert_eq!(step(&mut table, InputEvent::ArrowRight), Some("a2".to_string()));
    assert_eq!(table.cursor_pos(), (1, 0));
    assert_eq!(table.preceding_cur(), 1);
    assert_eq!(table.succeeding_cur(), 1);
    assert_eq!(step(&mut table, InputEvent::ArrowRight), Some("a3".to_string()));
    assert_eq!(step(&mut table, InputEvent::ArrowRight), Some("a1".to_string()));
    assert_eq!(step(&mut table, InputEvent::ArrowLeft), Some("a3".to_string()));
    assert_eq!(table.cursor_pos(), (2, 0));
    assert_eq!(table.succeeding_cur(), 0);
    assert_eq!(step(&mut table, InputEvent::ArrowLeft), Some("a2".to_string()));
    assert_eq!(step(&mut table, InputEvent::ArrowDown), Some("a2".to_string()));
    assert_eq!(step(&mut table, InputEvent::ArrowUp), Some("a2".to_string()));
    assert_eq!(step(&mut table, InputEvent::Tab), None);
}

#[test]
fn the_table_with_two_columns() {
    let buffer = hinted("x ");
    let mut table = TableGUI::init();
    let step = |t: &mut TableGUI, event| chosen(t.action_before_write(event, &buffer, (40, 24), 0, 20));
    assert_eq!(step(&mut table, InputEvent::ArrowDown), Some("a3".to_string()));
    assert_eq!(table.grid_slots(), (2, 23));
    assert_eq!(table.cursor_pos(), (0, 1));
    assert_eq!(table.hints_iterator(), &[0, 1, 2, 3]);
    assert_eq!(step(&mut table, InputEvent::ArrowRight), Some("b1".to_string()));
    assert_eq!(table.preceding_cur(), 3);
    assert_eq!(table.succeeding_cur(), 0);
    assert_eq!(step(&mut table, InputEvent::ArrowUp), Some("a2".to_string()));
    assert_eq!(step(&mut table, InputEvent::ArrowUp), Some("b1".to_string()));
}

#[test]
fn the_table_without_room_or_candidates() {
    let mut table = TableGUI::init();
    let action = table.action_before_write(InputEvent::ArrowRight, &hinted("x a"), (80, 24), 0, 0);
    assert_eq!(table.grid_slots(), (0, 23));
    assert_eq!(chosen(action), Some("a1".to_string()));
    assert!(table.hints_iterator().is_empty());
    let mut table = TableGUI::init();
    let action = table.action_before_write(InputEvent::ArrowDown, &InputBuffer::init(), (80, 24), 30, 20);
    assert_eq!(table.grid_slots(), (4, 0));
    assert_eq!(chosen(action), None);
    assert_eq!(table.succeeding_cur(), 0);
}

#[test]
fn what_is_shown_of_a_file() {
    let info = FileInfo::new("/tmp/a.tar.gz".to_string(), 2048, 0, 86400, 1700000000);
    assert_eq!(info.path(), "/tmp/a.tar.gz");
    assert_eq!(info.ftype(), "gz");
    assert_eq!(info.size(), "2 KB");
    assert_eq!(info.created_at(), "1970-01-01 00:00:00");
    assert_eq!(info.modified_at(), "1970-01-02 00:00:00");
    assert_eq!(info.accessed_at(), "2023-11-14 22:13:20");
    let far = FileInfo::new("x".to_string(), 0, u64::MAX, 1 << 62, 59);
    assert_eq!(far.created_at(), "");
    assert_eq!(far.modified_at(), "");
    assert_eq!(far.accessed_at(), "1970-01-01 00:00:59");
}

#[test]
fn sizes_and_extensions_of_files() {
    let of = |path: &str, len: u64| {
        let info = FileInfo::from_parts(path.to_string(), len, String::new(), "m".to_string(), String::new());
        assert_eq!(info.modified_at(), "m");
        (info.ftype().to_string(), info.size().to_string())
    };
    assert_eq!(of("/a/b.txt", 0), ("txt".to_string(), "0 B".to_string()));
    assert_eq!(of("b.txt", 1023), ("txt".to_string(), "1023 B".to_string()));
    assert_eq!(of("/a.b/c", 1024), (String::new(), "1 KB".to_string()));
    assert_eq!(of("/a/.bashrc", 1048575), (String::new(), "1023 KB".to_string()));
    assert_eq!(of("/a/.bashrc.bak", 1048576), ("bak".to_string(), "1 MB".to_string()));
    assert_eq!(of("/a/b.", 1073741823), (String::new(), "1023 MB".to_string()));
    assert_eq!(of("", 3 * 1073741824 + 5), (String::new(), "3 GB".to_string()));
    assert_eq!(FileInfo::time_or_empty(None), "");
    assert_eq!(FileInfo::time_or_empty(Some("t".to_string())), "t");
}

#[test]
fn the_mark_walks_around_a_directory() {
    let mut dir = DirInfo::new("/w".to_string(), strings(&["/w/a", "/w/b", "/w/c"]));
    assert_eq!(dir.dir(), "/w");
    assert_eq!(dir.scroll(), 0);
    assert_eq!(dir.get_entry(), Some(&"/w/a".to_string()));
    dir.scroll_up();
    assert_eq!(dir.get_entry(), Some(&"/w/c".to_string()));
    dir.scroll_down();
    assert_eq!(dir.scroll(), 0);
    dir.scroll_down();
    dir.scroll_down();
    assert_eq!(dir.scroll(), 2);
    dir.scroll_up();
    assert_eq!(dir.scroll(), 1);
    dir.try_scroll_to("/w/c");
    assert_eq!(dir.scroll(), 2);
    dir.try_scroll_to("/w/x");
    assert_eq!(dir.scroll(), 2);
    assert_eq!(dir.entries().len(), 3);
    let parent = dir.new_to_parent("/".to_string(), strings(&["/etc", "/w", "/w"]));
    assert_eq!(parent.dir(), "/");
    assert_eq!(parent.scroll(), 1);
    let mut empty = DirInfo::new("/e".to_string(), vec![]);
    empty.scroll_up();
    assert_eq!(empty.scroll(), 0);
    empty.scroll_down();
    assert_eq!(empty.scroll(), 0);
    assert_eq!(empty.get_entry(), None);
    assert!(empty.rows(5).is_empty());
}

#[test]
fn rows_of_a_directory() {
    let mut dir = DirInfo::new("/w".to_string(), strings(&["0", "1", "2", "3", "4"]));
    assert_eq!(dir.rows(3), vec![2, 3, 4]);
    assert_eq!(dir.rows(5), vec![3, 4, 0, 1, 2]);
    assert_eq!(dir.rows(9), vec![3, 4, 0, 1, 2]);
    assert_eq!(dir.rows(0), Vec::<usize>::new());
    dir.scroll_down();
    assert_eq!(dir.rows(4), vec![3, 4, 0, 1]);
}

#[test]
fn the_explorer_takes_the_arrows() {
    assert_eq!(explorer_action(InputEvent::ArrowUp), ActionToTake::BlockBuffer);
    assert_eq!(explorer_action(InputEvent::ArrowDown), ActionToTake::BlockBuffer);
    assert_eq!(explorer_action(InputEvent::ArrowLeft), ActionToTake::BlockBuffer);
    assert_eq!(explorer_action(InputEvent::ArrowRight), ActionToTake::BlockBuffer);
    assert_eq!(explorer_action(InputEvent::Tab), ActionToTake::WriteBuffer(ActionType::Standard));
    assert_eq!(layout((80, 24), 4), (20, 25));
    assert_eq!(layout((2, 3), 4), (0, 0));
    assert_eq!(layout((3, 4), 4), (0, 0));
}

#[test]
fn positions_on_the_terminal() {
    assert_eq!(pos_to_xy(85, (80, 24)), (5, 1));
    assert_eq!(pos_to_xy(79, (80, 24)), (79, 0));
    assert_eq!(pos_to_xy(160, (80, 24)), (0, 2));
    assert_eq!(pos_to_xy(85, (0, 24)), (0, 0));
    let mut state = HighlightState::BeforeHighlight;
    state.next();
    assert_eq!(state, HighlightState::InHighlight);
    state.next();
    assert_eq!(state, HighlightState::AfterHighlight);
}

#[test]
fn where_the_line_stands_behind_the_prompt() {
    let mut terminal = TerminalGUI::init();
    terminal.set_current_line(7);
    assert_eq!(terminal.current_line(), 7);
    let mut buffer = hinted("ls src");
    let positions = terminal.calculate_increased_length(&buffer, (80, 24), "/home/user/proj");
    assert_eq!(terminal.short_cwd(), "/h/u/proj > ");
    assert_eq!(positions, ((18, 0), (18, 0), (15, 7)));
    buffer.main_cur_set(1);
    buffer.update();
    let positions = terminal.calculate_increased_length(&buffer, (10, 24), "/home/user/proj");
    assert_eq!(positions, ((3, 1), (8, 1), (2, 8)));
    let positions = terminal.calculate_increased_length(&InputBuffer::init(), (10, 24), "/a/b");
    assert_eq!(terminal.short_cwd(), "/a/b > ");
    assert_eq!(positions, ((7, 0), (7, 0), (7, 7)));
}

#[test]
fn tab_needs_a_match() {
    let buffer = hinted("x a");
    assert_eq!(
        TerminalGUI::action_before_write(&buffer, InputEvent::Tab),
        Some(ActionToTake::WriteBuffer(ActionType::Standard))
    );
    assert_eq!(TerminalGUI::action_before_write(&buffer, InputEvent::Enter), None);
    assert_eq!(
        TerminalGUI::action_before_write(&hinted("x zz"), InputEvent::Tab),
        Some(ActionToTake::BlockBuffer)
    );
    assert_eq!(TerminalGUI::action_before_write(&InputBuffer::init(), InputEvent::Tab), None);
    let mut behind = hinted("x");
    behind.insert_str_main_cursor(" y");
    behind.update();
    assert_eq!(TerminalGUI::action_before_write(&behind, InputEvent::Tab), Some(ActionToTake::BlockBuffer));
}

fn drawn(buffer: &InputBuffer) -> Vec<(PieceStyle, bool, String)> {
    output_buffer(buffer)
        .into_iter()
        .filter(|p| !p.text.is_empty())
        .map(|p| (p.style, p.highlighted, p.text))
        .collect()
}

fn piece(style: PieceStyle, highlighted: bool, text: &str) -> (PieceStyle, bool, String) {
    (style, highlighted, text.to_string())
}

#[test]
fn the_line_is_drawn_in_pieces() {
    let buffer = hinted("ls a");
    assert_eq!(output_buffer(&buffer).len(), 9);
    assert_eq!(
        drawn(&buffer),
        vec![
            piece(PieceStyle::Executable, false, "ls"),
            piece(PieceStyle::Text, false, " "),
            piece(PieceStyle::Path, false, "a"),
            piece(PieceStyle::Hint, false, "1"),
        ]
    );
    assert!(output_buffer(&InputBuffer::init()).is_empty());
}

#[test]
fn the_hint_stands_at_the_caret() {
    let mut buffer = hinted("l a");
    buffer.main_cur_set(1);
    assert_eq!(
        drawn(&buffer),
        vec![
            piece(PieceStyle::Executable, false, "l"),
            piece(PieceStyle::Hint, false, "s"),
            piece(PieceStyle::Text, false, " "),
            piece(PieceStyle::Path, false, "a"),
        ]
    );
}

#[test]
fn the_selection_is_highlighted() {
    let mut buffer = hinted("ls a2 b");
    buffer.main_cur_set(1);
    buffer.sec_cur_set(4, true);
    assert_eq!(
        drawn(&buffer),
        vec![
            piece(PieceStyle::Executable, false, "l"),
            piece(PieceStyle::Executable, true, "s"),
            piece(PieceStyle::Text, true, " "),
            piece(PieceStyle::Path, true, "a"),
            piece(PieceStyle::Path, false, "2"),
            piece(PieceStyle::Text, false, " "),
            piece(PieceStyle::Path, false, "b"),
        ]
    );
    let spelled: String = output_buffer(&buffer).into_iter().map(|p| p.text).collect();
    assert_eq!(spelled, "ls a2 b");
}

#[test]
fn the_terminal_reports_its_cursor() {
    assert_eq!(cursor_pos(b"\x1b[12;40R"), (39, 11));
    assert_eq!(cursor_pos(b"\x1b[1;1R"), (0, 0));
    assert_eq!(cursor_pos(b"\x1b[0;0R"), (0, 0));
    assert_eq!(cursor_pos(b"\x1b[7R"), (0, 6));
    assert_eq!(cursor_pos(b"\x1b[;9R"), (8, 0));
    assert_eq!(cursor_pos(b"\x1b[3;4R99;99"), (3, 2));
    assert_eq!(cursor_pos(b"\x1b[70000;2R"), (1, 0));
    assert_eq!(cursor_pos(b""), (0, 0));
    assert_eq!(cursor_pos(b"x1y2;z3"), (2, 11));
}
