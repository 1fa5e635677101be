use whale_rs::config::command::{check_positions, create_defaults, ConfigCommand, Flag, FlagArgPair, SingleArg};
use whale_rs::config::general::ConfigCore;
use whale_rs::config::gui::ConfigGUI;
use whale_rs::config::history::ConfigHistory;
use whale_rs::config::theme::{Color, ConfigTheme, Formatter, Style, StylePair};
use whale_rs::config::FullConfig;
use whale_rs::enums::{ArgType, Shell};

#[test]
fn codes_of_the_formatters_and_colors() {
    assert_eq!(Formatter::Bold.generate_code(), "1");
    assert_eq!(Formatter::Dim.generate_code(), "2");
    assert_eq!(Formatter::Italic.generate_code(), "3");
    assert_eq!(Formatter::Underline.generate_code(), "4");
    assert_eq!(Formatter::Blink.generate_code(), "5");
    assert_eq!(Formatter::Reverse.generate_code(), "7");
    assert_eq!(Formatter::Hidden.generate_code(), "8");
    assert_eq!(Formatter::Strike.generate_code(), "9");
    assert_eq!(Color::Black.foreground_code(), "30");
    assert_eq!(Color::White.foreground_code(), "37");
    assert_eq!(Color::Magenta.foreground_code(), "35");
    assert_eq!(Color::Black.background_code(), "40");
    assert_eq!(Color::Cyan.background_code(), "46");
    assert_eq!(Color::Red.background_code(), "41");
}

#[test]
fn escape_sequence_of_a_style() {
    let mut style = Style::new(vec![Formatter::Bold], Color::Yellow, Some(Color::Red));
    assert_eq!(style.escape_sequence, "");
    style.generate_escape_sequence();
    assert_eq!(style.escape_sequence, "\x1b[1;33;41m");
    let mut style = Style::new(vec![], Color::Green, None);
    style.generate_escape_sequence();
    assert_eq!(style.escape_sequence, "\x1b[32m");
    let mut style = Style::new(vec![Formatter::Bold, Formatter::Italic], Color::Green, None);
    style.generate_escape_sequence();
    assert_eq!(style.escape_sequence, "\x1b[1;3;32m");
    let mut style = Style::new(vec![], Color::Blue, Some(Color::White));
    style.generate_escape_sequence();
    style.generate_escape_sequence();
    assert_eq!(style.escape_sequence, "\x1b[34;47m");
}

#[test]
fn escape_sequences_of_the_theme() {
    let mut pair = StylePair::new(
        Style::new(vec![], Color::Cyan, None),
        Style::new(vec![], Color::Cyan, Some(Color::Black)),
    );
    pair.generate_escape_sequences();
    assert_eq!(pair.normal.escape_sequence, "\x1b[36m");
    assert_eq!(pair.highlighted.escape_sequence, "\x1b[36;40m");
    let mut theme = ConfigTheme::default();
    assert_eq!(theme.executable.normal.escape_sequence, "");
    theme.generate_escape_sequences();
    assert_eq!(theme.executable.normal.escape_sequence, "\x1b[32m");
    assert_eq!(theme.executable.highlighted.escape_sequence, "\x1b[32;47m");
    assert_eq!(theme.path.normal.escape_sequence, "\x1b[34m");
    assert_eq!(theme.path.highlighted.escape_sequence, "\x1b[34;41m");
    assert_eq!(theme.flag.highlighted.escape_sequence, "\x1b[35;46m");
    assert_eq!(theme.arg.highlighted.escape_sequence, "\x1b[33;44m");
    assert_eq!(theme.text.highlighted.escape_sequence, "\x1b[37;40m");
    assert_eq!(theme.console_main.normal.escape_sequence, "\x1b[1;33m");
    assert_eq!(theme.console_main.highlighted.escape_sequence, "\x1b[1;33;41m");
    assert_eq!(theme.console_secondary.normal.escape_sequence, "\x1b[3;36m");
    assert_eq!(theme.console_secondary.highlighted.escape_sequence, "\x1b[3;36;47m");
    assert_eq!(theme.error.normal.escape_sequence, "\x1b[1;31m");
    assert_eq!(theme.error.highlighted.escape_sequence, "\x1b[1;31;43m");
}

#[test]
fn defaults_of_the_configuration() {
    let config = FullConfig::default();
    assert!(config.commands.is_empty());
    assert_eq!(config.core.default_shell, Shell::Bash);
    assert_eq!(config.core.data_dir, "data");
    assert_eq!(config.core.config_dir, "");
    assert_eq!(config.history.history_fp, "whale.history");
    assert_eq!(config.history.max_file_size_bytes, 256 * 1024);
    assert_eq!(config.gui.table.max_field_len, 20);
    assert_eq!(config.gui.dropdown.max_rows, 10);
    assert_eq!(ConfigCore::default().data_dir, "data");
    assert_eq!(ConfigHistory::default().max_file_size_bytes, 262144);
    assert_eq!(ConfigGUI::default().dropdown.max_rows, 10);
}

#[test]
fn the_default_description_is_for_mv() {
    let defaults = create_defaults();
    assert_eq!(defaults.len(), 1);
    let mv = &defaults[0];
    assert_eq!(mv.exe_name, "mv");
    assert_eq!(mv.exe_to, "move");
    assert_eq!(mv.execute_before, None);
    assert_eq!(mv.args.len(), 2);
    assert_eq!(mv.args[0].arg_type, ArgType::Path);
    assert_eq!(mv.args[0].arg_hint, "src");
    assert_eq!(mv.args[0].arg_pos, 1);
    assert_eq!(mv.args[1].arg_hint, "dst");
    assert_eq!(mv.args[1].arg_pos, 2);
    assert!(mv.flags.is_empty());
    assert!(mv.arg_flags.is_empty());
}

fn slot(pos: usize, hint: &str) -> SingleArg {
    SingleArg { arg_type: ArgType::Path, arg_hint: hint.to_string(), arg_pos: pos }
}

fn flag(name: &str) -> Flag {
    Flag { flag_name: name.to_string(), flag_to: name.to_string(), execute_before: None, execute_after: None }
}

fn pair(name: &str) -> FlagArgPair {
    FlagArgPair {
        flag_name: name.to_string(),
        flag_to: name.to_string(),
        arg_type: ArgType::Text,
        arg_hint: String::new(),
        execute_before: None,
        execute_after: None,
    }
}

fn read(args: Vec<SingleArg>) -> ConfigCommand {
    ConfigCommand {
        exe_name: String::new(),
        exe_to: "copy".to_string(),
        execute_before: None,
        execute_after: Some("ls".to_string()),
        args,
        flags: vec![flag("-v"), flag("-a"), flag("--all"), flag("-f")],
        arg_flags: vec![pair("-t"), pair("-S")],
    }
}

#[test]
fn a_description_is_made_ready() {
    let ready = read(vec![slot(2, "dst"), slot(1, "src")]).prepare("cp".to_string()).unwrap();
    assert_eq!(ready.exe_name, "cp");
    assert_eq!(ready.exe_to, "copy");
    assert_eq!(ready.execute_after, Some("ls".to_string()));
    let positions: Vec<usize> = ready.args.iter().map(|a| a.arg_pos).collect();
    assert_eq!(positions, vec![0, 1, 2]);
    assert_eq!(ready.args[0].arg_type, ArgType::Executable);
    assert_eq!(ready.args[1].arg_hint, "src");
    let names: Vec<&str> = ready.flags.iter().map(|f| f.flag_name.as_str()).collect();
    assert_eq!(names, vec!["--all", "-a", "-f", "-v"]);
    let names: Vec<&str> = ready.arg_flags.iter().map(|f| f.flag_name.as_str()).collect();
    assert_eq!(names, vec!["-S", "-t"]);
}

#[test]
fn two_arguments_for_one_position_are_refused() {
    assert!(read(vec![slot(1, "a"), slot(1, "b")]).prepare("cp".to_string()).is_none());
    assert!(read(vec![slot(0, "a")]).prepare("cp".to_string()).is_none());
    assert!(read(vec![]).prepare("cp".to_string()).is_some());
    assert!(check_positions(&[slot(1, "a"), slot(2, "b"), slot(5, "c")]));
    assert!(!check_positions(&[slot(1, "a"), slot(3, "b"), slot(2, "c")]));
    assert!(!check_positions(&[slot(1, "a"), slot(1, "b")]));
    assert!(check_positions(&[]));
}
