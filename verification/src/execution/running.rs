use vstd::prelude::*;
use crate::buffer::{BufferView, InputBuffer};
use crate::config::command::CommandView;
use crate::execution::{cd_cmd, strip_quotes, use_cmd, with_directory, ReservedFuncReturn};
use crate::enums::shell_named;
use crate::hints::filesystem::answers;
use crate::parser::{next_spec, start_state, Argument, ArgumentIterator, ArgumentParser, IterState, ParserView};
use crate::state::ProgramState;
use crate::utils::{from_chars, to_chars};
use crate::utils::numbers::{decimal_value, parse_decimal};
use crate::utils::paths::{append_joined, joined_with, split, split_chars};

verus! {

/// The line on which a command ends.
pub type NewTerminalLine = u16;

/// Whether `s` has two dots at `i`.
pub open spec fn dots_at(s: Seq<char>, i: int) -> bool {
    0 <= i && i + 1 < s.len() && s[i] == '.' && s[i + 1] == '.'
}

/// The least index at or after `from` at which `s` has two dots.
pub open spec fn first_dots_from(s: Seq<char>, from: int) -> Option<int>
    decreases s.len() - from,
{
    if from < 0 || from + 1 >= s.len() {
        None
    } else if dots_at(s, from) {
        Some(from)
    } else {
        first_dots_from(s, from + 1)
    }
}

/// The number that `s` writes, where it is small enough to be an index.
pub open spec fn index_value(s: Seq<char>) -> Option<int> {
    match decimal_value(s) {
        Some(v) => if v <= usize::MAX {
            Some(v as int)
        } else {
            None
        },
        None => None,
    }
}

/// `i`, or `n` where `i` is greater.
pub open spec fn at_most(i: int, n: int) -> int {
    if i <= n {
        i
    } else {
        n
    }
}

/// The range of arguments that the text behind a `$` stands for, among
/// `n` arguments: `..` for all of them, `..b` for those before `b`, `a..`
/// for those from `a` on, `a..b` for those from `a` up to `b`, and `a` for
/// the one at `a`. A range ends with the arguments at the latest, and one
/// that would start behind its end is empty. A text of no such form
/// stands for no range.
pub open spec fn range_of(argv: Seq<char>, n: int) -> Option<(int, int)> {
    let len = argv.len() as int;
    let starts = dots_at(argv, 0);
    let ends = dots_at(argv, len - 2);
    if starts && ends {
        Some((0, n))
    } else if starts {
        match index_value(argv.skip(2)) {
            Some(b) => Some((0, at_most(b, n))),
            None => None,
        }
    } else if ends {
        match index_value(argv.take(len - 2)) {
            Some(a) => Some((at_most(a, n), n)),
            None => None,
        }
    } else {
        match first_dots_from(argv, 0) {
            Some(p) => match (index_value(argv.take(p)), index_value(argv.skip(p + 2))) {
                (Some(a), Some(b)) => Some((at_most(at_most(a, b), n), at_most(b, n))),
                _ => None,
            },
            None => match index_value(argv) {
                Some(a) => Some((at_most(a, n), at_most(a + 1, n))),
                None => None,
            },
        }
    }
}

/// What a word of a template becomes: a word that starts with `$` and
/// stands for a range of arguments becomes those arguments, with a space
/// between each two; any other word stays.
pub open spec fn expand_word(word: Seq<char>, args: Seq<Seq<char>>) -> Seq<char> {
    if word.len() > 0 && word[0] == '$' {
        match range_of(word.skip(1), args.len() as int) {
            Some((a, b)) => joined_with(args.subrange(a, b), ' '),
            None => word,
        }
    } else {
        word
    }
}

/// The words of a template, each as `expand_word` leaves it.
pub open spec fn expand_words(words: Seq<Seq<char>>, args: Seq<Seq<char>>) -> Seq<Seq<char>> {
    Seq::new(words.len(), |i: int| expand_word(words[i], args))
}

/// The command that the template `command` stands for with the arguments
/// `args`: the words of the template are those that a space parts.
pub open spec fn expand_template(command: Seq<char>, args: Seq<Seq<char>>) -> Seq<char> {
    joined_with(expand_words(split(command, ' '), args), ' ')
}

/// The number that `s` writes, where it is small enough to be an index.
fn parse_index(s: &[char]) -> (r: Option<usize>)
    ensures
        match r {
            Some(v) => index_value(s@) == Some(v as int),
            None => index_value(s@) is None,
        },
{
    match parse_decimal(s, usize::MAX as u64) {
        Some(v) => Some(v as usize),
        None => None,
    }
}

/// Whether two dots stand at `i` of `s`.
fn has_dots_at(s: &[char], i: usize) -> (r: bool)
    ensures
        r == dots_at(s@, i as int),
{
    i < s.len() && s.len() - i > 1 && s[i] == '.' && s[i + 1] == '.'
}

/// The range of arguments that `argv` stands for among `n` arguments.
fn parse_range(argv: &[char], n: usize) -> (r: Option<(usize, usize)>)
    ensures
        match r {
            Some((a, b)) => range_of(argv@, n as int) == Some((a as int, b as int)) && a <= b <= n,
            None => range_of(argv@, n as int) is None,
        },
{
    let len = argv.len();
    let starts = has_dots_at(argv, 0);
    let ends = len >= 2 && has_dots_at(argv, len - 2);
    if starts && ends {
        return Some((0, n));
    }
    if starts {
        let rest = vstd::slice::slice_subrange(argv, 2, len);
        return match parse_index(rest) {
            Some(b) => Some((0, if b <= n { b } else { n })),
            None => None,
        };
    }
    if ends {
        let rest = vstd::slice::slice_subrange(argv, 0, len - 2);
        return match parse_index(rest) {
            Some(a) => Some((if a <= n { a } else { n }, n)),
            None => None,
        };
    }
    let mut p: usize = 0;
    while p < len && !has_dots_at(argv, p)
        invariant
            p <= len == argv@.len(),
            first_dots_from(argv@, 0) == first_dots_from(argv@, p as int),
        decreases len - p,
    {
        p += 1;
    }
    if p < len {
        let head = vstd::slice::slice_subrange(argv, 0, p);
        let tail = vstd::slice::slice_subrange(argv, p + 2, len);
        match (parse_index(head), parse_index(tail)) {
            (Some(a), Some(b)) => {
                let a = if a <= b { a } else { b };
                Some((if a <= n { a } else { n }, if b <= n { b } else { n }))
            },
            _ => None,
        }
    } else {
        match parse_index(argv) {
            Some(a) => {
                if a < n {
                    Some((a, a + 1))
                } else {
                    Some((n, n))
                }
            },
            None => None,
        }
    }
}

/// The characters of each of `items`.
fn chars_of_all(items: &[String]) -> (r: Vec<Vec<char>>)
    ensures
        r.deep_view() == items.deep_view(),
{
    let mut r: Vec<Vec<char>> = Vec::new();
    let mut i: usize = 0;
    while i < items.len()
        invariant
            i <= items@.len(),
            r@.len() == i,
            forall|j: int| 0 <= j < i ==> r@[j]@ == items@[j]@,
        decreases items@.len() - i,
    {
        r.push(to_chars(items[i].as_str()));
        i += 1;
    }
    assert forall|j: int| 0 <= j < r@.len() implies r.deep_view()[j] == items.deep_view()[j] by {
    }
    r
}

/// The command that the template `command` stands for with the arguments
/// `args`.
pub fn parse_execution_cmd(args: &Vec<String>, command: &str) -> (r: String)
    ensures
        r@ == expand_template(command@, args.deep_view()),
{
    let arg_chars = chars_of_all(args.as_slice());
    let words = split_chars(to_chars(command).as_slice(), ' ');
    let ghost given = args.deep_view();
    let ghost expanded = expand_words(words.deep_view(), given);
    let mut cmd: Vec<char> = Vec::new();
    let mut i: usize = 0;
    while i < words.len()
        invariant
            i <= words@.len(),
            given == args.deep_view(),
            arg_chars.deep_view() == given,
            expanded == expand_words(words.deep_view(), given),
            cmd@ == joined_with(expanded.take(i as int), ' '),
        decreases words@.len() - i,
    {
        let word = &words[i];
        assert(words.deep_view()[i as int] == word@);
        assert(expanded.take(i + 1).drop_last() =~= expanded.take(i as int));
        if i > 0 {
            cmd.push(' ');
        }
        let ghost base = cmd@;
        let mut range: Option<(usize, usize)> = None;
        if word.len() > 0 && word[0] == '$' {
            let argv = vstd::slice::slice_subrange(word.as_slice(), 1, word.len());
            range = parse_range(argv, arg_chars.len());
        }
        match range {
            Some((a, b)) => {
                let all = arg_chars.as_slice();
                append_joined(&mut cmd, all, a, b, ' ');
            },
            None => {
                let mut j: usize = 0;
                while j < word.len()
                    invariant
                        j <= word@.len(),
                        cmd@ == base + word@.take(j as int),
                    decreases word@.len() - j,
                {
                    cmd.push(word[j]);
                    j += 1;
                }
            },
        }
        i += 1;
    }
    assert(expanded.take(i as int) =~= expanded);
    let r = from_chars(cmd.as_slice(), 0, cmd.len());
    r
}

/// What the commands of the shell itself make of the line: `exit` leaves
/// the program, `cd` changes the working directory, `use` changes the
/// shell, and any other first word is none of them.
pub fn reserved_commands<D: Fn(&String) -> bool>(
    program_state: &mut ProgramState,
    buffer: &InputBuffer,
    is_dir: &D,
) -> (r: Option<ReservedFuncReturn>)
    requires
        buffer@.wf(),
        forall|p: &String| #[trigger] is_dir.requires((p,)),
    ensures
        ({
            let first = if buffer@.num_args() > 0 {
                buffer@.arg_text(0)
            } else {
                Seq::empty()
            };
            if first == seq!['e', 'x', 'i', 't'] {
                r == Some(ReservedFuncReturn::Exit(0)) && *final(program_state) == *old(program_state)
            } else if first == seq!['c', 'd'] {
                r is Some && cd_done(*old(program_state), *final(program_state), buffer@, is_dir, r.unwrap())
            } else if first == seq!['u', 's', 'e'] {
                r is Some && use_done(*old(program_state), *final(program_state), buffer@, r.unwrap())
            } else {
                r is None && *final(program_state) == *old(program_state)
            }
        }),
{
    let first_arg = match buffer.first_arg() {
        Some(arg) => arg,
        None => String::new(),
    };
    let first = to_chars(first_arg.as_str());
    let n = first.len();
    if n == 4 && first[0] == 'e' && first[1] == 'x' && first[2] == 'i' && first[3] == 't' {
        assert(first@ =~= seq!['e', 'x', 'i', 't']);
        return Some(ReservedFuncReturn::Exit(0));
    }
    if n == 2 && first[0] == 'c' && first[1] == 'd' {
        assert(first@ =~= seq!['c', 'd']);
        return Some(cd_cmd(program_state, buffer, is_dir));
    }
    if n == 3 && first[0] == 'u' && first[1] == 's' && first[2] == 'e' {
        assert(first@ =~= seq!['u', 's', 'e']);
        return Some(use_cmd(program_state, buffer));
    }
    None
}

/// `r` and `after` are what `cd` makes of the line `line` and the state
/// `state`.
pub open spec fn cd_done<D: Fn(&String) -> bool>(
    state: ProgramState,
    after: ProgramState,
    line: BufferView,
    is_dir: &D,
    r: ReservedFuncReturn,
) -> bool {
    if line.num_args() < 2 {
        after == state && r == ReservedFuncReturn::DontExecute(0)
    } else {
        let dir = strip_quotes(line.arg_text(1));
        ||| {
            &&& answers(is_dir, dir, true)
            &&& with_directory(state, after, dir)
            &&& r == ReservedFuncReturn::DontExecute(0)
        }
        ||| {
            &&& answers(is_dir, dir, false)
            &&& after == state
            &&& r == ReservedFuncReturn::DontExecute(1)
        }
    }
}

/// `r` and `after` are what `use` makes of the line `line` and the state
/// `state`.
pub open spec fn use_done(state: ProgramState, after: ProgramState, line: BufferView, r: ReservedFuncReturn) -> bool {
    &&& after.config == state.config
    &&& after.current_working_directory == state.current_working_directory
    &&& after.executables == state.executables
    &&& if line.num_args() < 2 {
        after.current_shell == state.current_shell && r == ReservedFuncReturn::DontExecute(0)
    } else {
        match shell_named(strip_quotes(line.arg_text(1))) {
            Some(shell) => after.current_shell == shell && r == ReservedFuncReturn::DontExecute(0),
            None => after.current_shell == state.current_shell && r == ReservedFuncReturn::DontExecute(1),
        }
    }
}

/// The words that are run for the words that one step of the walk
/// passes: the command itself is run as the description says, a flag too,
/// and every other word as it was typed.
pub open spec fn words_of(
    cmd: CommandView,
    argument: Argument,
    tokens: Seq<Seq<char>>,
    index: int,
) -> Seq<Seq<char>> {
    if index == 0 {
        seq![cmd.exe_to]
    } else {
        match argument {
            Argument::Other => seq![tokens[index]],
            Argument::Arg(_) => seq![tokens[index]],
            Argument::Flag(k) => seq![cmd.flags[k as int].flag_to],
            Argument::ArgFlag(k) => if index + 1 < tokens.len() {
                seq![cmd.arg_flags[k as int].flag_to, tokens[index + 1]]
            } else {
                seq![cmd.arg_flags[k as int].flag_to]
            },
        }
    }
}

/// The words that are run for the words of the line from the state `st`
/// on.
pub open spec fn command_words_from(cmd: CommandView, tokens: Seq<Seq<char>>, st: IterState) -> Seq<Seq<char>>
    decreases tokens.len() - st.arg_ind,
{
    match next_spec(cmd, tokens, st) {
        None => Seq::empty(),
        Some((argument, next)) => words_of(cmd, argument, tokens, st.arg_ind as int) + command_words_from(
            cmd,
            tokens,
            next,
        ),
    }
}

/// The command of a hook, if the description has one.
pub open spec fn hook_line(template: Option<Seq<char>>, tokens: Seq<Seq<char>>) -> Seq<Seq<char>> {
    match template {
        Some(t) => seq![expand_template(t, tokens)],
        None => Seq::empty(),
    }
}

/// The commands to hand to the shell for a line, in the order in which
/// they are to run. An empty line gives none. A line without a
/// description gives its words as they were typed, with one space between
/// each two. A line with one gives the command that the description has
/// run before it, if any; then its words, of which the command itself and
/// the flags are run as the description says; then the command that the
/// description has run after it, if any.
pub open spec fn command_lines_of(line: BufferView, parser: ParserView) -> Seq<Seq<char>> {
    let tokens = line.tokens();
    if line.content.len() == 0 {
        Seq::empty()
    } else if !parser.has_command {
        seq![joined_with(tokens, ' ')]
    } else {
        hook_line(parser.cmd.execute_before, tokens).push(
            joined_with(command_words_from(parser.cmd, tokens, start_state()), ' '),
        ) + hook_line(parser.cmd.execute_after, tokens)
    }
}

/// The commands to hand to the shell for the line, in the order in which
/// they are to run.
pub fn command_lines(buffer: &InputBuffer, arg_parser: &ArgumentParser) -> (r: Vec<String>)
    requires
        buffer@.wf(),
    ensures
        r.deep_view() == command_lines_of(buffer@, arg_parser@),
{
    let mut lines: Vec<String> = Vec::new();
    if buffer.len() == 0 {
        return lines;
    }
    let ghost tokens = buffer@.tokens();
    let num_args = buffer.num_args();
    let mut args: Vec<String> = Vec::new();
    let mut k: usize = 0;
    while k < num_args
        invariant
            k <= num_args == tokens.len(),
            buffer@.wf(),
            tokens == buffer@.tokens(),
            args@.len() == k,
            forall|j: int| 0 <= j < k ==> args@[j]@ == tokens[j],
        decreases num_args - k,
    {
        args.push(buffer.arg_text(k));
        k += 1;
    }
    assert(args.deep_view() =~= tokens);
    if !arg_parser.has_command() {
        let arg_chars = chars_of_all(args.as_slice());
        let all = arg_chars.as_slice();
        let mut out: Vec<char> = Vec::new();
        append_joined(&mut out, all, 0, all.len(), ' ');
        assert(tokens.subrange(0, tokens.len() as int) =~= tokens);
        let line = from_chars(out.as_slice(), 0, out.len());
        assert(out@.subrange(0, out@.len() as int) =~= out@);
        lines.push(line);
        return lines;
    }
    let cmd = arg_parser.cmd();
    if let Some(template) = &cmd.execute_before {
        lines.push(parse_execution_cmd(&args, template.as_str()));
    }
    let mut iter = ArgumentIterator::new(arg_parser);
    iter.reinit(crate::utils::clone_strings(args.as_slice()));
    let ghost total = command_words_from(cmd@, tokens, start_state());
    let mut words: Vec<Vec<char>> = Vec::new();
    let mut i: usize = 0;
    while i < num_args
        invariant
            i <= num_args == tokens.len(),
            args.deep_view() == tokens,
            cmd@ == arg_parser@.cmd,
            cmd@.args.len() <= usize::MAX,
            cmd@.flags.len() <= usize::MAX,
            cmd@.arg_flags.len() <= usize::MAX,
            iter.wf(),
            iter@.cmd == cmd@,
            iter@.args == tokens,
            iter@.state.arg_ind == i,
            total == words.deep_view() + command_words_from(cmd@, tokens, iter@.state),
        decreases num_args - i,
    {
        let ghost state = iter@.state;
        let ghost (argument, next) = next_spec(cmd@, tokens, state).unwrap();
        proof {
            crate::parser::lemma_next_in_tables(cmd@, tokens, state);
        }
        match iter.next() {
            None => {},
            Some(arg) => {
                let word = if i == 0 {
                    to_chars(cmd.exe_to.as_str())
                } else {
                    match arg {
                        Argument::Other => to_chars(args[i].as_str()),
                        Argument::Arg(_) => to_chars(args[i].as_str()),
                        Argument::Flag(k) => {
                            to_chars(cmd.flags[k].flag_to.as_str())
                        },
                        Argument::ArgFlag(k) => {
                            to_chars(cmd.arg_flags[k].flag_to.as_str())
                        },
                    }
                };
                let ghost first = word@;
                assert(word.deep_view() =~= first);
                words.push(word);
                if i > 0 && i + 1 < num_args {
                    if let Argument::ArgFlag(_) = arg {
                        i += 1;
                        let value = to_chars(args[i].as_str());
                        let ghost second = value@;
                        assert(value.deep_view() =~= second);
                        words.push(value);
                    }
                }
                i += 1;
            },
        }
    }
    let all = words.as_slice();
    let mut out: Vec<char> = Vec::new();
    append_joined(&mut out, all, 0, all.len(), ' ');
    assert(total.subrange(0, total.len() as int) =~= total);
    let line = from_chars(out.as_slice(), 0, out.len());
    assert(out@.subrange(0, out@.len() as int) =~= out@);
    lines.push(line);
    if let Some(template) = &cmd.execute_after {
        let hook = parse_execution_cmd(&args, template.as_str());
        lines.push(hook);
    }
    lines
}

} // verus!
