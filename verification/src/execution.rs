use vstd::prelude::*;
use vstd::string::StrSliceExecFns;
use crate::buffer::InputBuffer;
use crate::enums::{shell_named, Shell};
use crate::hints::filesystem::answers;
use crate::hints::opt_view;
use crate::state::ProgramState;
use crate::utils::to_chars;

pub mod running;

verus! {

pub type StatusCode = i32;

/// What is to be done with the line after a command of the shell itself
/// has looked at it.
#[derive(Debug, Clone, Copy, PartialEq, Eq, Structural)]
pub enum ReservedFuncReturn {
    /// Run the line.
    Proceed,
    /// Run the line; the command ended with this status.
    Status(StatusCode),
    /// Do not run the line; the command ended with this status.
    DontExecute(StatusCode),
    /// Leave the program with this status.
    Exit(StatusCode),
}

/// `s` without one quote character at its start and one at its end.
pub open spec fn strip_quotes(s: Seq<char>) -> Seq<char> {
    let rest = if s.len() > 0 && s[0] == '"' {
        s.skip(1)
    } else {
        s
    };
    if rest.len() > 0 && rest.last() == '"' {
        rest.drop_last()
    } else {
        rest
    }
}

/// The `n`th argument of the line, counted from 1.
pub fn get_nth(n: usize, buf: &InputBuffer) -> (r: Option<String>)
    requires
        n > 0,
        buf@.wf(),
    ensures
        opt_view(r) == if n > buf@.num_args() {
            None
        } else {
            Some(buf@.arg_text(n - 1))
        },
{
    if n > buf.num_args() {
        None
    } else {
        Some(buf.arg_text(n - 1))
    }
}

/// `s` without the quote characters around it.
pub fn remove_quotes(s: &str) -> (r: &str)
    ensures
        r@ == strip_quotes(s@),
{
    let chars = to_chars(s);
    let len = chars.len();
    let mut start: usize = 0;
    let mut stop: usize = len;
    if len > 0 && chars[0] == '"' {
        start = 1;
    }
    if stop > start && chars[stop - 1] == '"' {
        stop = stop - 1;
    }
    let r = s.substring_char(start, stop);
    r
}

/// The state with another working directory.
pub open spec fn with_directory(state: ProgramState, after: ProgramState, dir: Seq<char>) -> bool {
    &&& after.config == state.config
    &&& after.current_shell == state.current_shell
    &&& after.executables == state.executables
    &&& after.current_working_directory@ == dir
}

/// `cd`: makes the second argument of the line, without the quotes around
/// it, the working directory, where `is_dir` calls it a directory. The
/// line is not run; the status is 0, and 1 where the argument is no
/// directory.
pub fn cd_cmd<D: Fn(&String) -> bool>(program_state: &mut ProgramState, buf: &InputBuffer, is_dir: &D) -> (r:
    ReservedFuncReturn)
    requires
        buf@.wf(),
        forall|p: &String| #[trigger] is_dir.requires((p,)),
    ensures
        if buf@.num_args() < 2 {
            *final(program_state) == *old(program_state) && r == ReservedFuncReturn::DontExecute(0)
        } else {
            let dir = strip_quotes(buf@.arg_text(1));
            ||| {
                &&& answers(is_dir, dir, true)
                &&& with_directory(*old(program_state), *final(program_state), dir)
                &&& r == ReservedFuncReturn::DontExecute(0)
            }
            ||| {
                &&& answers(is_dir, dir, false)
                &&& *final(program_state) == *old(program_state)
                &&& r == ReservedFuncReturn::DontExecute(1)
            }
        },
{
    if let Some(dir) = get_nth(2, buf) {
        let clean = remove_quotes(dir.as_str());
        let target = clean.to_owned();
        if is_dir(&target) {
            program_state.current_working_directory = target;
        } else {
            return ReservedFuncReturn::DontExecute(1);
        }
    }
    ReservedFuncReturn::DontExecute(0)
}

/// `use`: makes the shell that the second argument of the line names,
/// without the quotes around it, the one that runs the lines. The line is
/// not run; the status is 0, and 1 where the argument names no shell.
pub fn use_cmd(program_state: &mut ProgramState, buf: &InputBuffer) -> (r: ReservedFuncReturn)
    requires
        buf@.wf(),
    ensures
        final(program_state).config == old(program_state).config,
        final(program_state).current_working_directory == old(program_state).current_working_directory,
        final(program_state).executables == old(program_state).executables,
        if buf@.num_args() < 2 {
            final(program_state).current_shell == old(program_state).current_shell && r
                == ReservedFuncReturn::DontExecute(0)
        } else {
            match shell_named(strip_quotes(buf@.arg_text(1))) {
                Some(shell) => final(program_state).current_shell == shell && r
                    == ReservedFuncReturn::DontExecute(0),
                None => final(program_state).current_shell == old(program_state).current_shell && r
                    == ReservedFuncReturn::DontExecute(1),
            }
        },
{
    if let Some(shell) = get_nth(2, buf) {
        let cleaned = remove_quotes(shell.as_str());
        match Shell::from_name(cleaned) {
            Some(s) => {
                program_state.current_shell = s;
            },
            None => {
                return ReservedFuncReturn::DontExecute(1);
            },
        }
    }
    ReservedFuncReturn::DontExecute(0)
}

} // verus!
