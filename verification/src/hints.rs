use vstd::prelude::*;
use crate::utils::order::{chars_le, lemma_lex_total, lemma_lex_transitive, lex_le};
use crate::utils::{first_item, first_with_prefix, from_chars, starts_with_chars, to_chars};

pub mod executables;
pub mod filesystem;

verus! {

/// How many leading characters of an argument take no part in matching
/// (the directory portion of a path).
pub type Disregard = usize;

/// The completion state kept for one argument of the command line.
#[derive(Debug)]
pub struct Hint {
    /// The candidates, assumed sorted.
    selection: Vec<String>,
    /// Placeholder shown while nothing has been typed.
    inlay: Option<String>,
    /// The directory that `selection` was last listed from; empty when it
    /// was listed from no directory.
    set_using: String,
    disregard: Disregard,
    last_closest_match: Option<String>,
}

/// What a `Hint` holds, as mathematical values.
pub ghost struct HintView {
    pub selection: Seq<Seq<char>>,
    pub inlay: Option<Seq<char>>,
    pub set_using: Seq<char>,
    pub disregard: nat,
    pub last_closest_match: Option<Seq<char>>,
}

/// The view of an optional string.
pub open spec fn opt_view(s: Option<String>) -> Option<Seq<char>> {
    match s {
        Some(s) => Some(s@),
        None => None,
    }
}

/// The candidate that completes `partial`: with nothing typed, the
/// placeholder if there is one and else the first candidate; otherwise the
/// first candidate that begins with `partial`.
pub open spec fn closest_match_of(
    selection: Seq<Seq<char>>,
    inlay: Option<Seq<char>>,
    partial: Seq<char>,
) -> Option<Seq<char>> {
    if partial.len() == 0 && inlay is Some {
        inlay
    } else if partial.len() == 0 {
        if selection.len() > 0 {
            Some(selection[0])
        } else {
            None
        }
    } else {
        match first_with_prefix(selection, partial) {
            Some(i) => Some(selection[i]),
            None => None,
        }
    }
}

/// The view of a hint that offers nothing.
pub open spec fn empty_hint() -> HintView {
    HintView {
        selection: Seq::empty(),
        inlay: None,
        set_using: Seq::empty(),
        disregard: 0,
        last_closest_match: None,
    }
}

/// No string of `names` comes behind a later one.
pub open spec fn sorted(names: Seq<Seq<char>>) -> bool {
    forall|i: int, j: int| 0 <= i <= j < names.len() ==> lex_le(names[i], names[j])
}

/// Puts `name` into the sorted `names`, behind every string that does
/// not come behind it.
pub fn insert_sorted(names: &mut Vec<Vec<char>>, name: Vec<char>)
    requires
        sorted(old(names).deep_view()),
    ensures
        sorted(final(names).deep_view()),
        final(names).deep_view().to_multiset() == old(names).deep_view().to_multiset().insert(name@),
{
    let ghost before = names.deep_view();
    let mut at: usize = 0;
    while at < names.len() && chars_le(names[at].as_slice(), name.as_slice())
        invariant
            at <= names@.len(),
            names.deep_view() == before,
            forall|i: int| 0 <= i < at ==> lex_le(before[i], name@),
        decreases names@.len() - at,
    {
        assert(before[at as int] == names@[at as int]@);
        at += 1;
    }
    let ghost added = name@;
    proof {
        if at < names.len() {
            assert(before[at as int] == names@[at as int]@);
            lemma_lex_total(before[at as int], added);
        }
        assert(name.deep_view() =~= added);
    }
    names.insert(at, name);
    proof {
        let after = names.deep_view();
        assert(after =~= before.insert(at as int, added));
        assert forall|i: int, j: int| 0 <= i <= j < after.len() implies lex_le(after[i], after[j]) by {
            if i == j {
                lemma_lex_total(after[i], after[i]);
            } else if i == at {
                lemma_lex_transitive(added, before[at as int], before[j - 1]);
            }
        }
        assert(after.remove(at as int) =~= before);
        vstd::seq_lib::to_multiset_remove(after, at as int);
        after.to_multiset_ensures();
    }
}

/// The strings that `names` holds the characters of.
pub fn strings_of(names: &Vec<Vec<char>>) -> (r: Vec<String>)
    ensures
        r.deep_view() == names.deep_view(),
{
    let mut r: Vec<String> = Vec::new();
    let mut k: usize = 0;
    while k < names.len()
        invariant
            k <= names@.len(),
            r@.len() == k,
            forall|j: int| 0 <= j < k ==> r@[j]@ == names@[j]@,
        decreases names@.len() - k,
    {
        let name = from_chars(names[k].as_slice(), 0, names[k].len());
        assert(names@[k as int]@.subrange(0, names@[k as int]@.len() as int) =~= names@[k as int]@);
        r.push(name);
        k += 1;
    }
    assert forall|j: int| 0 <= j < names@.len() implies r.deep_view()[j] == names.deep_view()[j] by {
        assert(names@[j].deep_view() =~= names@[j]@);
    }
    assert(r.deep_view() =~= names.deep_view());
    r
}

/// The candidates of `listing`, put in the order of a dictionary.
pub fn sort_candidates(listing: Vec<String>) -> (r: Vec<String>)
    ensures
        sorted(r.deep_view()),
        r.deep_view().to_multiset() == listing.deep_view().to_multiset(),
{
    let ghost all = listing.deep_view();
    let mut names: Vec<Vec<char>> = Vec::new();
    let mut i: usize = 0;
    assert(names.deep_view() =~= all.take(0));
    while i < listing.len()
        invariant
            i <= listing@.len(),
            all == listing.deep_view(),
            sorted(names.deep_view()),
            names.deep_view().to_multiset() == all.take(i as int).to_multiset(),
        decreases listing@.len() - i,
    {
        let name = to_chars(listing[i].as_str());
        proof {
            assert(all[i as int] == listing@[i as int]@);
            assert(all.take(i + 1) =~= all.take(i as int).push(name@));
            vstd::seq_lib::to_multiset_build(all.take(i as int), name@);
        }
        insert_sorted(&mut names, name);
        i += 1;
    }
    assert(all.take(i as int) =~= all);
    strings_of(&names)
}

impl View for Hint {
    type V = HintView;

    closed spec fn view(&self) -> HintView {
        HintView {
            selection: self.selection.deep_view(),
            inlay: opt_view(self.inlay),
            set_using: self.set_using@,
            disregard: self.disregard as nat,
            last_closest_match: opt_view(self.last_closest_match),
        }
    }
}

impl Hint {
    pub fn new(selection: Vec<String>, inlay: Option<String>) -> (r: Self)
        ensures
            r@ == (HintView {
                selection: selection.deep_view(),
                inlay: opt_view(inlay),
                ..empty_hint()
            }),
    {
        Self { selection, inlay, set_using: String::new(), disregard: 0, last_closest_match: None }
    }

    /// Replaces the candidates and forgets the closest match.
    pub fn set_selection(&mut self, selection: Vec<String>)
        ensures
            final(self)@ == (HintView {
                selection: selection.deep_view(),
                last_closest_match: None,
                ..old(self)@
            }),
    {
        self.last_closest_match = None;
        self.selection = selection;
    }

    pub fn get_selection(&self) -> (r: &[String])
        ensures
            r.deep_view() == self@.selection,
    {
        let r = self.selection.as_slice();
        r
    }

    /// The directory the candidates were listed from.
    pub fn set_using(&self) -> (r: &String)
        ensures
            r@ == self@.set_using,
    {
        &self.set_using
    }

    pub fn set_set_using(&mut self, set_using: String)
        ensures
            final(self)@ == (HintView { set_using: set_using@, ..old(self)@ }),
    {
        self.set_using = set_using;
    }

    pub fn set_inlay(&mut self, inlay: Option<String>)
        ensures
            final(self)@ == (HintView { inlay: opt_view(inlay), ..old(self)@ }),
    {
        self.inlay = inlay;
    }

    pub fn set_disregard(&mut self, disregard: Disregard)
        ensures
            final(self)@ == (HintView { disregard: disregard as nat, ..old(self)@ }),
    {
        self.disregard = disregard;
    }

    pub fn disregard(&self) -> (r: Disregard)
        ensures
            r == self@.disregard,
    {
        self.disregard
    }

    pub fn last_closest_match(&self) -> (r: Option<&String>)
        ensures
            match r {
                Some(s) => self@.last_closest_match == Some(s@),
                None => self@.last_closest_match is None,
            },
    {
        self.last_closest_match.as_ref()
    }

    /// Recomputes the closest match for the text `s` typed so far.
    pub fn closest_match(&mut self, s: &str)
        ensures
            final(self)@ == (HintView {
                last_closest_match: closest_match_of(old(self)@.selection, old(self)@.inlay, s@),
                ..old(self)@
            }),
    {
        let typed = to_chars(s);
        let x = if typed.len() == 0 && self.inlay.is_some() {
            match &self.inlay {
                Some(inlay) => Some(inlay.clone()),
                None => None,
            }
        } else if typed.len() == 0 {
            if self.selection.len() > 0 {
                Some(self.selection[0].clone())
            } else {
                None
            }
        } else {
            let items = self.selection.as_slice();
            match first_item(items, s) {
                Some(ind) => {
                    proof {
                        crate::utils::lemma_first_with_prefix_from(self.selection.deep_view(), s@, 0);
                    }
                    Some(self.selection[ind].clone())
                },
                None => None,
            }
        };
        self.last_closest_match = x;
    }

    /// Forces the closest match, as when a candidate is picked by hand.
    pub fn set_closest_match(&mut self, s: String)
        ensures
            final(self)@ == (HintView { last_closest_match: Some(s@), ..old(self)@ }),
    {
        self.last_closest_match = Some(s);
    }

    /// The candidates that begin with `s`, in order.
    pub fn filtered_items(&self, s: &str) -> (r: Vec<String>)
        ensures
            r.deep_view() == self@.selection.filter(|v: Seq<char>| s@.is_prefix_of(v)),
    {
        let prefix = to_chars(s);
        let ghost pred = |v: Seq<char>| s@.is_prefix_of(v);
        let mut r: Vec<String> = Vec::new();
        let mut i: usize = 0;
        proof {
            reveal(Seq::filter);
        }
        while i < self.selection.len()
            invariant
                i <= self.selection@.len(),
                prefix@ == s@,
                pred == (|v: Seq<char>| s@.is_prefix_of(v)),
                r.deep_view() == self.selection.deep_view().take(i as int).filter(pred),
            decreases self.selection@.len() - i,
        {
            let ghost items = self.selection.deep_view();
            proof {
                reveal(Seq::filter);
                assert(items.take(i + 1).drop_last() =~= items.take(i as int));
            }
            if starts_with_chars(self.selection[i].as_str(), prefix.as_slice()) {
                r.push(self.selection[i].clone());
            }
            i += 1;
        }
        assert(self.selection.deep_view().take(i as int) =~= self.selection.deep_view());
        r
    }
}

impl Default for Hint {
    fn default() -> (r: Self)
        ensures
            r@ == empty_hint(),
    {
        let r = Self {
            selection: Vec::new(),
            inlay: None,
            set_using: String::new(),
            disregard: 0,
            last_closest_match: None,
        };
        assert(r@.selection =~= Seq::empty());
        r
    }
}

} // verus!
