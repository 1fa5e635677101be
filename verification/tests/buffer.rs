use whale_rs::buffer::{Cursor, InputBuffer, Side};
use whale_rs::config::command::{ConfigCommand, Flag, FlagArgPair, SingleArg};
use whale_rs::config::FullConfig;
use whale_rs::enums::{ArgType, Shell};
use whale_rs::parser::ArgumentParser;
use whale_rs::state::ProgramState;

fn default_program_state() -> ProgramState {
    ProgramState::init(FullConfig::default(), String::new(), Shell::default())
}

fn no_directory(_path: &String) -> bool {
    false
}

fn no_entries(_path: &String) -> Vec<String> {
    vec![]
}

#[test]
fn test_buffer_insert_char() {
    let mut buffer = InputBuffer::init();
    assert_eq!(buffer.len(), 0);

    buffer.insert_char_main_cursor('a');
    assert_eq!(buffer.len(), 1);
    buffer.insert_char_main_cursor('b');
    buffer.insert_char_main_cursor('c');

    assert_eq!(buffer.len(), 3);
    assert_eq!(buffer.get_buffer(), &['a', 'b', 'c']);

    buffer.main_cur_set(0);
    buffer.insert_char_main_cursor('d');

    assert_eq!(buffer.len(), 4);
    assert_eq!(buffer.get_buffer(), &['d', 'a', 'b', 'c']);
}

#[test]
fn test_buffer_insert_str() {
    let mut buffer = InputBuffer::init();
    assert_eq!(buffer.len(), 0);

    buffer.insert_str_main_cursor("abc");

    assert_eq!(buffer.len(), 3);
    assert_eq!(buffer.get_buffer(), &['a', 'b', 'c']);

    buffer.main_cur_set(0);
    buffer.insert_str_main_cursor("def");

    assert_eq!(buffer.len(), 6);
    assert_eq!(buffer.get_buffer(), &['d', 'e', 'f', 'a', 'b', 'c']);
}

#[test]
fn test_buffer_delete_between_cursors() {
    let mut buffer = InputBuffer::init();
    buffer.insert_str_main_cursor("abcdef");
    buffer.main_cur_set(0);
    buffer.sec_cur_set(3, true);

    buffer.del_betw_curs();

    assert_eq!(buffer.len(), 3);
    assert_eq!(buffer.get_buffer(), &['d', 'e', 'f']);
}

#[test]
fn test_buffer_update() {
    let mut buffer = InputBuffer::init();
    buffer.insert_str_main_cursor("abc def ghi");
    buffer.update();

    assert_eq!(buffer.get_quotes().len(), 0);
    assert_eq!(buffer.num_args(), 3);
    assert_eq!(buffer.arg_locs(0), (0, 3));
    assert_eq!(buffer.arg_locs(1), (4, 7));
    assert_eq!(buffer.arg_locs(2), (8, 11));

    buffer.insert_str_main_cursor(" \"jkl mno\" pqr");
    buffer.update();

    assert_eq!(buffer.get_quotes().len(), 2);
    assert_eq!(buffer.num_args(), 5);
    assert_eq!(buffer.arg_locs(0), (0, 3));
    assert_eq!(buffer.arg_locs(1), (4, 7));
    assert_eq!(buffer.arg_locs(2), (8, 11));
    assert_eq!(buffer.arg_locs(3), (12, 21));
    assert_eq!(buffer.arg_locs(4), (22, 25));
}

#[test]
fn test_buffer_closest_split() {
    let mut buffer = InputBuffer::init();
    buffer.insert_str_main_cursor("abc defg hi jklm");
    buffer.update();

    assert_eq!(buffer.closest_split(0), (0, Side::Neither));
    assert_eq!(buffer.closest_split(1), (0, Side::Left));
    assert_eq!(buffer.closest_split(2), (1, Side::Right));
    assert_eq!(buffer.closest_split(3), (1, Side::Neither));

    assert_eq!(buffer.closest_split(4), (2, Side::Neither));
    assert_eq!(buffer.closest_split(5), (2, Side::Left));
    // As near to 4 as to 8: the offset to the right is taken.
    assert_eq!(buffer.closest_split(6), (3, Side::Right));
    assert_eq!(buffer.closest_split(7), (3, Side::Right));
    assert_eq!(buffer.closest_split(8), (3, Side::Neither));

    assert_eq!(buffer.closest_split(9), (4, Side::Neither));
    // As near to 9 as to 11.
    assert_eq!(buffer.closest_split(10), (5, Side::Right));
    assert_eq!(buffer.closest_split(11), (5, Side::Neither));

    assert_eq!(buffer.closest_split(12), (6, Side::Neither));
    assert_eq!(buffer.closest_split(13), (6, Side::Left));
    // As near to 12 as to 16.
    assert_eq!(buffer.closest_split(14), (7, Side::Right));
    assert_eq!(buffer.closest_split(15), (7, Side::Right));
    assert_eq!(buffer.closest_split(16), (7, Side::Neither));
}

#[test]
fn test_buffer_jump() {
    let mut buffer = InputBuffer::init();
    buffer.insert_str_main_cursor("abc defg hi jklm");
    buffer.update();

    buffer.main_cur_set(0);
    assert_eq!(buffer.jump(Side::Left, buffer.main_cur()), 0);
    assert_eq!(buffer.jump(Side::Right, buffer.main_cur()), 3);

    buffer.main_cur_set(5);
    assert_eq!(buffer.jump(Side::Left, buffer.main_cur()), 4);
    assert_eq!(buffer.jump(Side::Right, buffer.main_cur()), 8);

    buffer.main_cur_set(7);
    assert_eq!(buffer.jump(Side::Left, buffer.main_cur()), 4);
    assert_eq!(buffer.jump(Side::Right, buffer.main_cur()), 8);

    buffer.main_cur_set(8);
    assert_eq!(buffer.jump(Side::Left, buffer.main_cur()), 4);
    assert_eq!(buffer.jump(Side::Right, buffer.main_cur()), 9);

    buffer.main_cur_set(12);
    assert_eq!(buffer.jump(Side::Left, buffer.main_cur()), 11);
    assert_eq!(buffer.jump(Side::Right, buffer.main_cur()), 16);
}

fn mv_command() -> ConfigCommand {
    ConfigCommand {
        exe_name: "mv".to_string(),
        exe_to: "move".to_string(),
        execute_before: None,
        execute_after: None,
        args: vec![
            SingleArg { arg_type: ArgType::Executable, arg_hint: "exe".to_string(), arg_pos: 1 },
            SingleArg { arg_type: ArgType::Path, arg_hint: "src".to_string(), arg_pos: 1 },
            SingleArg { arg_type: ArgType::Path, arg_hint: "dst".to_string(), arg_pos: 2 },
        ],
        flags: vec![Flag {
            flag_name: "-f".to_string(),
            flag_to: "--force".to_string(),
            execute_before: None,
            execute_after: None,
        }],
        arg_flags: vec![FlagArgPair {
            flag_name: "-h".to_string(),
            flag_to: "--help".to_string(),
            arg_type: ArgType::Executable,
            arg_hint: "subcommand".to_string(),
            execute_before: None,
            execute_after: None,
        }],
    }
}

#[test]
fn test_argument_types() {
    let mut program_state = default_program_state();
    let mut arg_parser = ArgumentParser::new();
    program_state.config.commands = vec![mv_command()];
    let mut buffer = InputBuffer::init();
    buffer.insert_str_main_cursor("mv somewhere tohere");
    buffer.update();
    arg_parser.reinit(buffer.first_arg(), &program_state);
    buffer.update_arguments(&arg_parser, &program_state, &no_directory, &no_entries);

    assert_eq!(buffer.get_argument_hints()[0].0, ArgType::Executable);
    assert_eq!(buffer.get_argument_hints()[1].0, ArgType::Path);
    assert_eq!(buffer.get_argument_hints()[2].0, ArgType::Path);

    buffer.clear_all();
    buffer.insert_str_main_cursor("mv -f somewhere -h aahhhhh tohere");
    buffer.update();
    arg_parser.reinit(buffer.first_arg(), &program_state);
    buffer.update_arguments(&arg_parser, &program_state, &no_directory, &no_entries);

    assert_eq!(buffer.get_argument_hints()[0].0, ArgType::Executable);
    assert_eq!(buffer.get_argument_hints()[1].0, ArgType::Text);
    assert_eq!(buffer.get_argument_hints()[2].0, ArgType::Path);
    assert_eq!(buffer.get_argument_hints()[3].0, ArgType::Text);
    assert_eq!(buffer.get_argument_hints()[4].0, ArgType::Executable);
    assert_eq!(buffer.get_argument_hints()[5].0, ArgType::Path);
}

#[test]
fn cursor_holds_what_it_was_made_with() {
    let cursor = Cursor::new(7, false);
    assert_eq!(cursor.position(), 7);
    assert!(!cursor.active());
}
