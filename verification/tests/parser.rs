use whale_rs::buffer::InputBuffer;
use whale_rs::config::command::{ConfigCommand, Flag, FlagArgPair, SingleArg};
use whale_rs::config::FullConfig;
use whale_rs::enums::{ArgType, Shell};
use whale_rs::parser::{Argument, ArgumentIterator, ArgumentParser};
use whale_rs::state::ProgramState;
use whale_rs::utils::{binary_search_with_exclude, names_sorted};

fn flag(name: &str, to: &str) -> Flag {
    Flag { flag_name: name.to_string(), flag_to: to.to_string(), execute_before: None, execute_after: None }
}

fn pair(name: &str, to: &str, arg_type: ArgType, hint: &str) -> FlagArgPair {
    FlagArgPair {
        flag_name: name.to_string(),
        flag_to: to.to_string(),
        arg_type,
        arg_hint: hint.to_string(),
        execute_before: None,
        execute_after: None,
    }
}

fn slot(arg_type: ArgType, hint: &str, pos: usize) -> SingleArg {
    SingleArg { arg_type, arg_hint: hint.to_string(), arg_pos: pos }
}

fn mv() -> ConfigCommand {
    ConfigCommand {
        exe_name: "mv".to_string(),
        exe_to: "move".to_string(),
        execute_before: None,
        execute_after: None,
        args: vec![
            slot(ArgType::Executable, "", 0),
            slot(ArgType::Path, "src", 1),
            slot(ArgType::Path, "dst", 2),
        ],
        flags: vec![flag("-f", "--force"), flag("-v", "--verbose")],
        arg_flags: vec![pair("-h", "--help", ArgType::Executable, "subcommand")],
    }
}

fn state_with(commands: Vec<ConfigCommand>) -> ProgramState {
    let mut state = ProgramState::init(FullConfig::default(), "/home/me".to_string(), Shell::default());
    state.config.commands = commands;
    state
}

fn words(line: &str) -> Vec<String> {
    line.split(' ').map(|s| s.to_string()).collect()
}

fn walk(parser: &ArgumentParser, line: &str) -> Vec<Argument> {
    let mut iter = ArgumentIterator::new(parser);
    iter.reinit(words(line));
    let mut found = vec![];
    while let Some(argument) = iter.next() {
        found.push(argument);
    }
    found
}

fn kinds(line: &str, parser: &ArgumentParser, state: &ProgramState) -> Vec<ArgType> {
    let mut buffer = InputBuffer::init();
    buffer.insert_str_main_cursor(line);
    buffer.update();
    buffer.update_arguments(parser, state, &|_: &String| false, &|_: &String| vec![]);
    buffer.get_argument_hints().iter().map(|entry| entry.0).collect()
}

#[test]
fn new_parser_holds_no_command() {
    let parser = ArgumentParser::new();
    assert!(!parser.has_command());
    assert_eq!(parser.first_arg(), "");
    assert_eq!(parser.cmd().exe_name, "");
}

#[test]
fn reinit_finds_the_command_by_its_name() {
    let state = state_with(vec![mv()]);
    let mut parser = ArgumentParser::new();
    parser.reinit(Some("mv".to_string()), &state);
    assert!(parser.has_command());
    assert_eq!(parser.cmd().exe_to, "move");
    assert_eq!(parser.first_arg(), "mv");
    parser.reinit(Some("m".to_string()), &state);
    assert!(!parser.has_command());
    assert_eq!(parser.first_arg(), "m");
    parser.reinit(Some("mv".to_string()), &state);
    assert!(parser.has_command());
    parser.reinit(None, &state);
    assert!(!parser.has_command());
    assert_eq!(parser.first_arg(), "mv");
}

#[test]
fn reinit_keeps_the_command_while_the_first_word_stays() {
    let state = state_with(vec![mv()]);
    let mut parser = ArgumentParser::new();
    parser.reinit(Some("mv".to_string()), &state);
    let without = state_with(vec![]);
    parser.reinit(Some("mv".to_string()), &without);
    assert!(parser.has_command());
    parser.reinit(Some("".to_string()), &without);
    assert!(!parser.has_command());
}

#[test]
fn reinit_takes_the_first_of_two_commands_with_a_name() {
    let mut second = mv();
    second.exe_to = "other".to_string();
    let state = state_with(vec![mv(), second]);
    let mut parser = ArgumentParser::new();
    parser.reinit(Some("mv".to_string()), &state);
    assert_eq!(parser.cmd().exe_to, "move");
}

#[test]
fn walk_names_the_entries_of_the_description() {
    let state = state_with(vec![mv()]);
    let mut parser = ArgumentParser::new();
    parser.reinit(Some("mv".to_string()), &state);
    assert_eq!(
        walk(&parser, "mv -f somewhere -h aahhhhh tohere extra"),
        vec![
            Argument::Arg(0),
            Argument::Flag(0),
            Argument::Arg(1),
            Argument::ArgFlag(0),
            Argument::Arg(2),
            Argument::Other,
        ]
    );
}

#[test]
fn a_flag_is_taken_once() {
    let state = state_with(vec![mv()]);
    let mut parser = ArgumentParser::new();
    parser.reinit(Some("mv".to_string()), &state);
    assert_eq!(
        walk(&parser, "mv -f -f -v"),
        vec![Argument::Arg(0), Argument::Flag(0), Argument::Arg(1), Argument::Flag(1)]
    );
    assert_eq!(
        walk(&parser, "mv -h a -h b"),
        vec![Argument::Arg(0), Argument::ArgFlag(0), Argument::Arg(1), Argument::Arg(2)]
    );
}

#[test]
fn a_flag_with_argument_at_the_end_of_the_line() {
    let state = state_with(vec![mv()]);
    let mut parser = ArgumentParser::new();
    parser.reinit(Some("mv".to_string()), &state);
    assert_eq!(walk(&parser, "mv -h"), vec![Argument::Arg(0), Argument::ArgFlag(0)]);
    assert_eq!(kinds("mv -h", &parser, &state), vec![ArgType::Executable, ArgType::Text]);
}

#[test]
fn a_flag_comes_before_a_positional_argument() {
    let state = state_with(vec![mv()]);
    let mut parser = ArgumentParser::new();
    parser.reinit(Some("mv".to_string()), &state);
    assert_eq!(
        kinds("mv -v a b c", &parser, &state),
        vec![ArgType::Executable, ArgType::Text, ArgType::Path, ArgType::Path, ArgType::Text]
    );
}

#[test]
fn positions_that_are_not_declared_are_text() {
    let mut command = mv();
    command.args = vec![slot(ArgType::Executable, "", 0), slot(ArgType::Path, "dst", 2)];
    let state = state_with(vec![command]);
    let mut parser = ArgumentParser::new();
    parser.reinit(Some("mv".to_string()), &state);
    assert_eq!(kinds("mv a b", &parser, &state), vec![ArgType::Executable, ArgType::Text, ArgType::Text]);
}

#[test]
fn a_description_without_arguments_gives_other_for_the_command() {
    let mut command = mv();
    command.args = vec![];
    let state = state_with(vec![command]);
    let mut parser = ArgumentParser::new();
    parser.reinit(Some("mv".to_string()), &state);
    assert_eq!(walk(&parser, "mv a"), vec![Argument::Other, Argument::Other]);
    assert_eq!(kinds("mv a", &parser, &state), vec![ArgType::Executable, ArgType::Text]);
}

#[test]
fn without_a_description_the_first_word_is_an_executable_and_the_rest_paths() {
    let state = state_with(vec![mv()]);
    let mut parser = ArgumentParser::new();
    parser.reinit(Some("foo".to_string()), &state);
    assert_eq!(
        kinds("foo bar baz", &parser, &state),
        vec![ArgType::Executable, ArgType::Path, ArgType::Path]
    );
}

#[test]
fn grammar_of_mv_classifies_its_line() {
    let command = ConfigCommand {
        exe_name: "mv".to_string(),
        exe_to: "mv".to_string(),
        execute_before: None,
        execute_after: None,
        args: vec![
            slot(ArgType::Executable, "", 0),
            slot(ArgType::Path, "src", 1),
            slot(ArgType::Path, "dst", 2),
        ],
        flags: vec![flag("-f", "-f")],
        arg_flags: vec![pair("-h", "-h", ArgType::Executable, "")],
    };
    let state = state_with(vec![command]);
    let mut parser = ArgumentParser::new();
    parser.reinit(Some("mv".to_string()), &state);
    assert_eq!(
        kinds("mv -f somewhere -h aahhhhh tohere", &parser, &state),
        vec![
            ArgType::Executable,
            ArgType::Text,
            ArgType::Path,
            ArgType::Text,
            ArgType::Executable,
            ArgType::Path,
        ]
    );
}

#[test]
fn search_passes_over_excluded_entries() {
    let flags = vec![flag("-a", "a"), flag("-b", "b"), flag("-b", "c")];
    assert!(names_sorted(&flags));
    for sorted in [false, true] {
        assert_eq!(binary_search_with_exclude(&"-b".to_string(), &flags, &[], sorted), Some(1));
        assert_eq!(binary_search_with_exclude(&"-b".to_string(), &flags, &[1], sorted), Some(2));
        assert_eq!(binary_search_with_exclude(&"-b".to_string(), &flags, &[0], sorted), Some(1));
        assert_eq!(binary_search_with_exclude(&"-b".to_string(), &flags, &[1, 2], sorted), None);
        assert_eq!(binary_search_with_exclude(&"-a".to_string(), &flags, &[], sorted), Some(0));
        assert_eq!(binary_search_with_exclude(&"-a".to_string(), &flags, &[0], sorted), None);
        assert_eq!(binary_search_with_exclude(&"-c".to_string(), &flags, &[], sorted), None);
        assert_eq!(binary_search_with_exclude(&"-".to_string(), &flags, &[], sorted), None);
        assert_eq!(binary_search_with_exclude(&"-ab".to_string(), &flags, &[], sorted), None);
        let none: Vec<Flag> = vec![];
        assert_eq!(binary_search_with_exclude(&"-a".to_string(), &none, &[], sorted), None);
    }
}

#[test]
fn search_in_a_table_that_is_not_in_order() {
    let flags = vec![flag("-v", "a"), flag("-a", "b"), flag("-f", "c"), flag("-a", "d")];
    assert!(!names_sorted(&flags));
    assert_eq!(binary_search_with_exclude(&"-a".to_string(), &flags, &[], false), Some(1));
    assert_eq!(binary_search_with_exclude(&"-a".to_string(), &flags, &[1], false), Some(3));
    assert_eq!(binary_search_with_exclude(&"-f".to_string(), &flags, &[1], false), Some(2));
    assert_eq!(binary_search_with_exclude(&"-v".to_string(), &flags, &[2], false), Some(0));
    assert_eq!(binary_search_with_exclude(&"-x".to_string(), &flags, &[], false), None);
}

#[test]
fn search_in_a_long_table() {
    let names: Vec<String> = (0..200).map(|i| format!("--flag{:03}", i)).collect();
    let flags: Vec<Flag> = names.iter().map(|n| flag(n, n)).collect();
    assert!(names_sorted(&flags));
    for (i, name) in names.iter().enumerate() {
        assert_eq!(binary_search_with_exclude(name, &flags, &[], true), Some(i));
        assert_eq!(binary_search_with_exclude(name, &flags, &[], false), Some(i));
        assert_eq!(binary_search_with_exclude(name, &flags, &[i], true), None);
    }
    assert_eq!(binary_search_with_exclude(&"--flag".to_string(), &flags, &[], true), None);
    assert_eq!(binary_search_with_exclude(&"--flag200".to_string(), &flags, &[], true), None);
}

#[test]
fn flags_are_found_in_any_order_of_the_table() {
    let mut command = mv();
    command.flags = vec![flag("-v", "--verbose"), flag("-f", "--force")];
    let state = state_with(vec![command]);
    let mut parser = ArgumentParser::new();
    parser.reinit(Some("mv".to_string()), &state);
    assert_eq!(
        walk(&parser, "mv -f -v -f"),
        vec![Argument::Arg(0), Argument::Flag(1), Argument::Flag(0), Argument::Arg(1)]
    );
}

#[test]
fn accessors_of_the_description() {
    let command = mv();
    assert_eq!(command.args[1].arg_type(), ArgType::Path);
    assert_eq!(command.args[1].arg_hint(), "src");
    assert_eq!(command.flags[0].flag_name(), "-f");
    assert_eq!(command.arg_flags[0].flag_name(), "-h");
    assert_eq!(command.arg_flags[0].arg_type(), ArgType::Executable);
    assert_eq!(command.arg_flags[0].arg_hint(), "subcommand");
    let copy = command.clone();
    assert_eq!(copy.exe_to, "move");
    assert_eq!(copy.args.len(), 3);
    assert_eq!(copy.flags[1].flag_to, "--verbose");
    assert_eq!(ArgType::default(), ArgType::Text);
    assert_eq!(Shell::default(), Shell::Bash);
}
