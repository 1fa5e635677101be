use vstd::prelude::*;

verus! {

/// The shell that runs the command lines.
#[derive(Debug, Clone, Copy, PartialEq, Eq, Structural)]
pub enum Shell {
    Bash,
    Zsh,
    Fish,
    /// No shell: the command line is run as it stands.
    NoShell,
}

impl Default for Shell {
    fn default() -> (r: Self)
        ensures
            r == Shell::Bash,
    {
        Shell::Bash
    }
}

/// The name by which each shell is started; no shell has the name `none`.
pub open spec fn shell_named(name: Seq<char>) -> Option<Shell> {
    if name == seq!['b', 'a', 's', 'h'] {
        Some(Shell::Bash)
    } else if name == seq!['z', 's', 'h'] {
        Some(Shell::Zsh)
    } else if name == seq!['f', 'i', 's', 'h'] {
        Some(Shell::Fish)
    } else if name == seq!['n', 'o', 'n', 'e'] {
        Some(Shell::NoShell)
    } else {
        None
    }
}

/// Whether `a` holds the characters of `b`.
fn same_chars(a: &[char], b: &[char]) -> (r: bool)
    ensures
        r == (a@ == b@),
{
    if a.len() != b.len() {
        return false;
    }
    let mut i: usize = 0;
    while i < a.len()
        invariant
            i <= a@.len() == b@.len(),
            forall|j: int| 0 <= j < i ==> a@[j] == b@[j],
        decreases a@.len() - i,
    {
        if a[i] != b[i] {
            return false;
        }
        i += 1;
    }
    assert(a@ =~= b@);
    true
}

impl Shell {
    /// The shell with the name `name`.
    pub fn from_name(name: &str) -> (r: Option<Shell>)
        ensures
            r == shell_named(name@),
    {
        let chars = crate::utils::to_chars(name);
        let bash = ['b', 'a', 's', 'h'];
        let zsh = ['z', 's', 'h'];
        let fish = ['f', 'i', 's', 'h'];
        let none = ['n', 'o', 'n', 'e'];
        if same_chars(chars.as_slice(), bash.as_slice()) {
            Some(Shell::Bash)
        } else if same_chars(chars.as_slice(), zsh.as_slice()) {
            Some(Shell::Zsh)
        } else if same_chars(chars.as_slice(), fish.as_slice()) {
            Some(Shell::Fish)
        } else if same_chars(chars.as_slice(), none.as_slice()) {
            Some(Shell::NoShell)
        } else {
            None
        }
    }
}

/// The kind of an argument on the command line; it decides which
/// completions are offered for it.
#[derive(Debug, Clone, Copy, PartialEq, Eq, Structural)]
pub enum ArgType {
    /// Completed from the entries of a directory.
    Path,
    /// Completed from the executables on the search path.
    Executable,
    /// Never completed.
    Text,
}

impl Default for ArgType {
    fn default() -> (r: Self)
        ensures
            r == ArgType::Text,
    {
        ArgType::Text
    }
}

} // verus!
