use vstd::prelude::*;
use vstd::string::StringExecFns;
use crate::enums::Shell;

verus! {

#[derive(Debug)]
pub struct ConfigCore {
    pub default_shell: Shell,
    /// Where the configuration files lie.
    pub config_dir: String,
    /// Where the program keeps its data.
    pub data_dir: String,
}

impl Default for ConfigCore {
    fn default() -> (r: Self)
        ensures
            r.default_shell == Shell::Bash,
            r.config_dir@ == Seq::<char>::empty(),
            r.data_dir@ == "data"@,
    {
        Self {
            default_shell: Shell::default(),
            config_dir: String::new(),
            data_dir: String::from_str("data"),
        }
    }
}

} // verus!
