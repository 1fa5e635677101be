use whale_rs::buffer::InputBuffer;
use whale_rs::config::command::{ConfigCommand, Flag, FlagArgPair, SingleArg};
use whale_rs::config::FullConfig;
use whale_rs::enums::{ArgType, Shell};
use whale_rs::execution::running::{command_lines, parse_execution_cmd, reserved_commands};
use whale_rs::execution::{cd_cmd, get_nth, remove_quotes, use_cmd, ReservedFuncReturn};
use whale_rs::parser::ArgumentParser;
use whale_rs::state::ProgramState;

fn line(text: &str) -> InputBuffer {
    let mut buffer = InputBuffer::init();
    buffer.insert_str_main_cursor(text);
    buffer.update();
    buffer
}

fn state() -> ProgramState {
    ProgramState::init(FullConfig::default(), "/home/me".to_string(), Shell::default())
}

fn mv(before: Option<&str>, after: Option<&str>) -> ConfigCommand {
    ConfigCommand {
        exe_name: "mv".to_string(),
        exe_to: "move".to_string(),
        execute_before: before.map(|s| s.to_string()),
        execute_after: after.map(|s| s.to_string()),
        args: vec![
            SingleArg { arg_type: ArgType::Executable, arg_hint: String::new(), arg_pos: 0 },
            SingleArg { arg_type: ArgType::Path, arg_hint: "src".to_string(), arg_pos: 1 },
            SingleArg { arg_type: ArgType::Path, arg_hint: "dst".to_string(), arg_pos: 2 },
        ],
        flags: vec![Flag {
            flag_name: "-f".to_string(),
            flag_to: "--force".to_string(),
            execute_before: None,
            execute_after: None,
        }],
        arg_flags: vec![FlagArgPair {
            flag_name: "-h".to_string(),
            flag_to: "--help".to_string(),
            arg_type: ArgType::Executable,
            arg_hint: "subcommand".to_string(),
            execute_before: None,
            execute_after: None,
        }],
    }
}

fn parser_for(command: ConfigCommand, first: &str) -> ArgumentParser {
    let mut program_state = state();
    program_state.config.commands = vec![command];
    let mut parser = ArgumentParser::new();
    parser.reinit(Some(first.to_string()), &program_state);
    parser
}

fn words(items: &[&str]) -> Vec<String> {
    items.iter().map(|s| s.to_string()).collect()
}

#[test]
fn quotes_are_removed_once_at_each_end() {
    assert_eq!(remove_quotes("\"abc\""), "abc");
    assert_eq!(remove_quotes("\"abc"), "abc");
    assert_eq!(remove_quotes("abc\""), "abc");
    assert_eq!(remove_quotes("abc"), "abc");
    assert_eq!(remove_quotes("\""), "");
    assert_eq!(remove_quotes("\"\""), "");
    assert_eq!(remove_quotes("\"\"a\"\""), "\"a\"");
    assert_eq!(remove_quotes(""), "");
}

#[test]
fn arguments_are_counted_from_one() {
    let buffer = line("cd /tmp");
    assert_eq!(get_nth(1, &buffer), Some("cd".to_string()));
    assert_eq!(get_nth(2, &buffer), Some("/tmp".to_string()));
    assert_eq!(get_nth(3, &buffer), None);
    assert_eq!(get_nth(1, &line("")), None);
}

#[test]
fn cd_changes_the_working_directory() {
    let mut program_state = state();
    let is_dir = |p: &String| p == "/tmp";
    assert_eq!(cd_cmd(&mut program_state, &line("cd \"/tmp\""), &is_dir), ReservedFuncReturn::DontExecute(0));
    assert_eq!(program_state.current_working_directory, "/tmp");
    assert_eq!(cd_cmd(&mut program_state, &line("cd /nowhere"), &is_dir), ReservedFuncReturn::DontExecute(1));
    assert_eq!(program_state.current_working_directory, "/tmp");
    assert_eq!(cd_cmd(&mut program_state, &line("cd"), &is_dir), ReservedFuncReturn::DontExecute(0));
    assert_eq!(program_state.current_working_directory, "/tmp");
}

#[test]
fn use_changes_the_shell() {
    let mut program_state = state();
    assert_eq!(use_cmd(&mut program_state, &line("use zsh")), ReservedFuncReturn::DontExecute(0));
    assert_eq!(program_state.current_shell, Shell::Zsh);
    assert_eq!(use_cmd(&mut program_state, &line("use \"fish\"")), ReservedFuncReturn::DontExecute(0));
    assert_eq!(program_state.current_shell, Shell::Fish);
    assert_eq!(use_cmd(&mut program_state, &line("use tcsh")), ReservedFuncReturn::DontExecute(1));
    assert_eq!(program_state.current_shell, Shell::Fish);
    assert_eq!(use_cmd(&mut program_state, &line("use")), ReservedFuncReturn::DontExecute(0));
    assert_eq!(program_state.current_shell, Shell::Fish);
    assert_eq!(Shell::from_name("bash"), Some(Shell::Bash));
    assert_eq!(Shell::from_name("none"), Some(Shell::NoShell));
    assert_eq!(Shell::from_name("Bash"), None);
    assert_eq!(Shell::from_name(""), None);
}

#[test]
fn reserved_commands_go_by_the_first_word() {
    let mut program_state = state();
    let is_dir = |p: &String| p == "/tmp";
    assert_eq!(
        reserved_commands(&mut program_state, &line("exit"), &is_dir),
        Some(ReservedFuncReturn::Exit(0))
    );
    assert_eq!(
        reserved_commands(&mut program_state, &line("cd /tmp"), &is_dir),
        Some(ReservedFuncReturn::DontExecute(0))
    );
    assert_eq!(program_state.current_working_directory, "/tmp");
    assert_eq!(
        reserved_commands(&mut program_state, &line("use zsh"), &is_dir),
        Some(ReservedFuncReturn::DontExecute(0))
    );
    assert_eq!(program_state.current_shell, Shell::Zsh);
    assert_eq!(reserved_commands(&mut program_state, &line("ls"), &is_dir), None);
    assert_eq!(reserved_commands(&mut program_state, &line("exits"), &is_dir), None);
    assert_eq!(reserved_commands(&mut program_state, &line(""), &is_dir), None);
}

#[test]
fn templates_take_arguments_by_number() {
    let args = words(&["mv", "a", "b"]);
    assert_eq!(parse_execution_cmd(&args, "echo $1"), "echo a");
    assert_eq!(parse_execution_cmd(&args, "echo $0 $2"), "echo mv b");
    assert_eq!(parse_execution_cmd(&args, "$.."), "mv a b");
    assert_eq!(parse_execution_cmd(&args, "$..2"), "mv a");
    assert_eq!(parse_execution_cmd(&args, "$1.."), "a b");
    assert_eq!(parse_execution_cmd(&args, "$0..1"), "mv");
    assert_eq!(parse_execution_cmd(&args, "$1..3"), "a b");
    assert_eq!(parse_execution_cmd(&args, "git add $1.. now"), "git add a b now");
}

#[test]
fn templates_keep_what_is_no_range() {
    let args = words(&["mv", "a", "b"]);
    assert_eq!(parse_execution_cmd(&args, "echo $x"), "echo $x");
    assert_eq!(parse_execution_cmd(&args, "echo $"), "echo $");
    assert_eq!(parse_execution_cmd(&args, "echo $1..x"), "echo $1..x");
    assert_eq!(parse_execution_cmd(&args, "echo  two"), "echo  two");
    assert_eq!(parse_execution_cmd(&args, ""), "");
}

#[test]
fn templates_end_ranges_with_the_arguments() {
    let args = words(&["mv", "a", "b"]);
    assert_eq!(parse_execution_cmd(&args, "echo $9 end"), "echo  end");
    assert_eq!(parse_execution_cmd(&args, "$..9"), "mv a b");
    assert_eq!(parse_execution_cmd(&args, "$7.."), "");
    assert_eq!(parse_execution_cmd(&args, "$2..1"), "");
    assert_eq!(parse_execution_cmd(&vec![], "a $.. b"), "a  b");
}

#[test]
fn a_line_without_description_is_run_as_typed() {
    let parser = ArgumentParser::new();
    assert_eq!(command_lines(&line("foo bar baz"), &parser), words(&["foo bar baz"]));
    assert_eq!(command_lines(&line("foo  bar"), &parser), words(&["foo  bar"]));
    assert!(command_lines(&line(""), &parser).is_empty());
}

#[test]
fn flags_and_the_command_are_run_as_the_description_says() {
    let parser = parser_for(mv(None, None), "mv");
    assert_eq!(
        command_lines(&line("mv -f somewhere -h aahhhhh tohere"), &parser),
        words(&["move --force somewhere --help aahhhhh tohere"])
    );
    assert_eq!(command_lines(&line("mv -f -f"), &parser), words(&["move --force -f"]));
    assert_eq!(command_lines(&line("mv -h"), &parser), words(&["move --help"]));
    assert_eq!(command_lines(&line("mv"), &parser), words(&["move"]));
}

#[test]
fn hooks_run_before_and_after() {
    let parser = parser_for(mv(Some("echo moving $1"), Some("ls $2..")), "mv");
    assert_eq!(
        command_lines(&line("mv a b"), &parser),
        words(&["echo moving a", "move a b", "ls b"])
    );
}
