use vstd::prelude::*;
use crate::hints::{
    closest_match_of, empty_hint, opt_view, sort_candidates, sorted, Disregard, Hint, HintView,
};
use crate::utils::paths::{parent_path, path_text, piece_start, resolved_path};

verus! {

/// A directory to take candidates from, how many characters of the
/// argument are its directory portion, and the text typed behind that.
pub type Target = Option<(Seq<char>, nat, Seq<char>)>;

/// The view of a target.
pub open spec fn target_view(dir: Option<(String, Disregard, String)>) -> Target {
    match dir {
        Some((d, disregard, arg)) => Some((d@, disregard as nat, arg@)),
        None => None,
    }
}

/// `answer` is what `is_dir` may say when asked whether `path` is a
/// directory.
pub open spec fn answers<D: Fn(&String) -> bool>(is_dir: &D, path: Seq<char>, answer: bool) -> bool {
    exists|p: String| p@ == path && #[trigger] is_dir.ensures((&p,), answer)
}

/// `listing` is what `list_dir` may answer when asked for the entries of
/// the directory `dir`.
pub open spec fn listed_from<L: Fn(&String) -> Vec<String>>(
    list_dir: &L,
    dir: Seq<char>,
    listing: Seq<Seq<char>>,
) -> bool {
    exists|d: String, l: Vec<String>|
        d@ == dir && l.deep_view() == listing && #[trigger] list_dir.ensures((&d,), l)
}

/// `selection` holds what `list_dir` may answer when asked for the
/// entries of the directory `dir`, each entry as often as the answer
/// holds it, in the order of a dictionary.
pub open spec fn candidates_from<L: Fn(&String) -> Vec<String>>(
    list_dir: &L,
    dir: Seq<char>,
    selection: Seq<Seq<char>>,
) -> bool {
    &&& sorted(selection)
    &&& exists|listing: Seq<Seq<char>>| #[trigger]
        listed_from(list_dir, dir, listing) && selection.to_multiset() == listing.to_multiset()
}

/// `target` is where the candidates for the path argument `token`, typed
/// in the directory `cwd`, come from. The directory portion of the token
/// ends behind its last `/`. The candidates come from the path that the
/// token names, where `is_dir` calls that a directory; else from the
/// directory that holds it, where that is one; else from nowhere.
pub open spec fn located<D: Fn(&String) -> bool>(
    is_dir: &D,
    cwd: Seq<char>,
    token: Seq<char>,
    target: Target,
) -> bool {
    let path = resolved_path(cwd, token);
    let at = piece_start(token, '/', token.len() as int);
    match target {
        Some((dir, disregard, partial)) => {
            &&& disregard == at
            &&& partial == token.skip(at)
            &&& {
                ||| dir == path_text(path) && answers(is_dir, path_text(path), true)
                ||| {
                    &&& path.parts.len() > 0
                    &&& dir == path_text(parent_path(path))
                    &&& answers(is_dir, path_text(path), false)
                    &&& answers(is_dir, path_text(parent_path(path)), true)
                }
            }
        },
        None => {
            &&& answers(is_dir, path_text(path), false)
            &&& path.parts.len() > 0 ==> answers(is_dir, path_text(parent_path(path)), false)
        },
    }
}

/// `hint` is a fresh hint for a path argument. Without a target it offers
/// nothing. With one, its candidates are what `list_dir` answered for the
/// directory, sorted; it remembers the directory and the disregard
/// offset, and its closest match is the one for the text typed so far.
pub open spec fn directory_hint_made<L: Fn(&String) -> Vec<String>>(
    list_dir: &L,
    target: Target,
    inlay: Option<Seq<char>>,
    hint: HintView,
) -> bool {
    match target {
        None => hint == (HintView { inlay, ..empty_hint() }),
        Some((dir, disregard, partial)) => {
            &&& candidates_from(list_dir, dir, hint.selection)
            &&& hint == (HintView {
                selection: hint.selection,
                inlay,
                set_using: dir,
                disregard,
                last_closest_match: closest_match_of(hint.selection, inlay, partial),
            })
        },
    }
}

/// `hint` is `before` brought up to date. Without a target it offers
/// nothing any more. With the directory that `before` was listed from, the
/// candidates are those of `before`; with another, they are what
/// `list_dir` answered for it, sorted. In both cases the hint remembers the
/// directory and the disregard offset, and its closest match is the one
/// for the text typed so far.
pub open spec fn directory_hint_updated<L: Fn(&String) -> Vec<String>>(
    list_dir: &L,
    target: Target,
    before: HintView,
    hint: HintView,
) -> bool {
    match target {
        None => hint == (HintView { inlay: before.inlay, ..empty_hint() }),
        Some((dir, disregard, partial)) => {
            &&& dir == before.set_using ==> hint.selection == before.selection
            &&& dir != before.set_using ==> candidates_from(list_dir, dir, hint.selection)
            &&& hint == (HintView {
                selection: hint.selection,
                inlay: before.inlay,
                set_using: dir,
                disregard,
                last_closest_match: closest_match_of(hint.selection, before.inlay, partial),
            })
        },
    }
}

/// A hint that was brought up to date for a directory, and is brought up
/// to date for the same directory and the same text once more, keeps its
/// candidates and everything else: the directory is not listed again.
pub proof fn lemma_second_update_keeps_hint<L: Fn(&String) -> Vec<String>>(
    list_dir: &L,
    target: Target,
    before: HintView,
    once: HintView,
    twice: HintView,
)
    requires
        target is Some,
        directory_hint_updated(list_dir, target, before, once),
        directory_hint_updated(list_dir, target, once, twice),
    ensures
        twice.selection == once.selection,
        twice == once,
{
}

/// A hint that is brought up to date for another directory than the one
/// it was listed from gets the candidates that `list_dir` answers for
/// that directory, sorted, and remembers it.
pub proof fn lemma_update_for_other_directory<L: Fn(&String) -> Vec<String>>(
    list_dir: &L,
    dir: Seq<char>,
    disregard: nat,
    partial: Seq<char>,
    before: HintView,
    hint: HintView,
)
    requires
        dir != before.set_using,
        directory_hint_updated(list_dir, Some((dir, disregard, partial)), before, hint),
    ensures
        candidates_from(list_dir, dir, hint.selection),
        hint.set_using == dir,
{
}

/// A fresh hint for a path argument. `list_dir` is asked once for the
/// entries of the directory, if there is one, and they are sorted.
pub fn make_directory_hints<L: Fn(&String) -> Vec<String>>(
    dir: Option<(String, Disregard, String)>,
    inlay: Option<String>,
    list_dir: &L,
) -> (r: Hint)
    requires
        forall|p: &String| #[trigger] list_dir.requires((p,)),
    ensures
        directory_hint_made(list_dir, target_view(dir), opt_view(inlay), r@),
{
    match dir {
        None => {
            let hint = Hint::new(Vec::new(), inlay);
            assert(hint@.selection =~= Seq::empty());
            hint
        },
        Some((d, disregard, arg)) => {
            let listing = list_dir(&d);
            assert(listed_from(list_dir, d@, listing.deep_view()));
            let available_files = sort_candidates(listing);
            let mut hint = Hint::new(available_files, inlay);
            hint.set_set_using(d);
            hint.set_disregard(disregard);
            hint.closest_match(arg.as_str());
            hint
        },
    }
}

/// Brings the hint of a path argument up to date. `list_dir` is asked
/// only where the directory is not the one that the candidates were last
/// listed from, and what it answers is sorted.
pub fn update_directory_hints<L: Fn(&String) -> Vec<String>>(
    new_dir: &Option<(String, Disregard, String)>,
    hints: &mut Hint,
    list_dir: &L,
)
    requires
        forall|p: &String| #[trigger] list_dir.requires((p,)),
    ensures
        directory_hint_updated(list_dir, target_view(*new_dir), old(hints)@, final(hints)@),
{
    match new_dir {
        None => {
            hints.set_selection(Vec::new());
            hints.set_set_using(String::new());
            hints.set_disregard(0);
            assert(hints@.selection =~= Seq::empty());
        },
        Some((d, disregard, arg)) => {
            hints.set_disregard(*disregard);
            if *d != *hints.set_using() {
                let listing = list_dir(d);
                assert(listed_from(list_dir, d@, listing.deep_view()));
                hints.set_selection(sort_candidates(listing));
                hints.set_set_using(d.clone());
            }
            hints.closest_match(arg.as_str());
        },
    }
}

} // verus!
