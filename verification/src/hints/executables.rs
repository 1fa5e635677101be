use vstd::prelude::*;
use crate::hints::{closest_match_of, empty_hint, insert_sorted, sorted, strings_of, Hint, HintView};
use crate::utils::{clone_strings, to_chars};

verus! {

/// Where the file name that is open behind the first `n` characters of
/// `s` starts: just behind the last `/` or line break among them, or at 0.
pub open spec fn name_start(s: Seq<char>, n: int) -> int
    decreases n,
{
    if n <= 0 {
        0
    } else if s[n - 1] == '/' || s[n - 1] == '\n' {
        n
    } else {
        name_start(s, n - 1)
    }
}

/// The file names of the lines that end among the first `n` characters
/// of `s`, without the empty ones.
pub open spec fn listed_names(s: Seq<char>, n: int) -> Seq<Seq<char>>
    decreases n,
{
    if n <= 0 {
        Seq::empty()
    } else if s[n - 1] == '\n' && name_start(s, n - 1) < n - 1 {
        listed_names(s, n - 1).push(s.subrange(name_start(s, n - 1), n - 1))
    } else {
        listed_names(s, n - 1)
    }
}

/// The file names that a listing of paths holds, one path on each line:
/// of each line what stands behind its last `/`, unless that is nothing.
pub open spec fn executable_names(s: Seq<char>) -> Seq<Seq<char>> {
    let n = s.len() as int;
    if name_start(s, n) < n {
        listed_names(s, n).push(s.subrange(name_start(s, n), n))
    } else {
        listed_names(s, n)
    }
}

/// The names of the executables that `output` lists, sorted. `output`
/// holds the path of one executable on each line.
pub fn get_executables(output: &str) -> (r: Vec<String>)
    ensures
        sorted(r.deep_view()),
        r.deep_view().to_multiset() == executable_names(output@).to_multiset(),
{
    let text = to_chars(output);
    let mut names: Vec<Vec<char>> = Vec::new();
    let mut current: Vec<char> = Vec::new();
    let mut i: usize = 0;
    proof {
        assert(names.deep_view() =~= Seq::empty());
    }
    while i < text.len()
        invariant
            i <= text@.len(),
            sorted(names.deep_view()),
            names.deep_view().to_multiset() == listed_names(text@, i as int).to_multiset(),
            0 <= name_start(text@, i as int) <= i,
            current@ == text@.subrange(name_start(text@, i as int), i as int),
        decreases text@.len() - i,
    {
        let c = text[i];
        if c == '\n' {
            if current.len() > 0 {
                let mut name: Vec<char> = Vec::new();
                std::mem::swap(&mut name, &mut current);
                proof {
                    vstd::seq_lib::to_multiset_build(listed_names(text@, i as int), name@);
                }
                insert_sorted(&mut names, name);
            }
            current = Vec::new();
        } else if c == '/' {
            current = Vec::new();
        } else {
            current.push(c);
        }
        i += 1;
    }
    if current.len() > 0 {
        proof {
            vstd::seq_lib::to_multiset_build(listed_names(text@, i as int), current@);
        }
        insert_sorted(&mut names, current);
    }
    strings_of(&names)
}

/// A fresh hint for an executable argument: it offers every known
/// executable, and its closest match is computed against `arg` at once.
pub fn make_executables_hint(executables: &[String], arg: &str) -> (r: Hint)
    ensures
        r@ == (HintView {
            selection: executables.deep_view(),
            last_closest_match: closest_match_of(executables.deep_view(), None, arg@),
            ..empty_hint()
        }),
{
    let mut hint = Hint::new(clone_strings(executables), None);
    hint.closest_match(arg);
    hint
}

/// Refreshes the closest match of an executable hint; the candidates do
/// not change while the program runs.
pub fn update_executables_hint(arg: &str, hint: &mut Hint)
    ensures
        final(hint)@ == (HintView {
            last_closest_match: closest_match_of(old(hint)@.selection, old(hint)@.inlay, arg@),
            ..old(hint)@
        }),
{
    hint.closest_match(arg);
}

} // verus!
