use vstd::prelude::*;
use vstd::string::StringExecFns;

verus! {

#[derive(Debug)]
pub struct ConfigHistory {
    /// The history file, relative to the data directory.
    pub history_fp: String,
    pub max_file_size_bytes: u64,
}

impl Default for ConfigHistory {
    fn default() -> (r: Self)
        ensures
            r.history_fp@ == "whale.history"@,
            r.max_file_size_bytes == 256 * 1024,
    {
        Self { history_fp: String::from_str("whale.history"), max_file_size_bytes: 256 * 1024 }
    }
}

} // verus!
