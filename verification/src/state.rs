use vstd::prelude::*;
use crate::config::FullConfig;
use crate::enums::Shell;

verus! {

/// What the whole program shares while it runs.
#[derive(Debug)]
pub struct ProgramState {
    pub config: FullConfig,
    /// The directory that relative paths on the command line start from.
    pub current_working_directory: String,
    pub current_shell: Shell,
    /// The names of the executables on the search path, sorted. They are
    /// listed once, when the program starts.
    pub executables: Vec<String>,
}

impl ProgramState {
    pub fn init(config: FullConfig, current_working_directory: String, current_shell: Shell) -> (r: Self)
        ensures
            r.config == config,
            r.current_working_directory == current_working_directory,
            r.current_shell == current_shell,
            r.executables@.len() == 0,
    {
        Self { config, current_working_directory, current_shell, executables: Vec::new() }
    }
}

} // verus!
