use vstd::prelude::*;
use crate::utils::order::{chars_le, lemma_lex_antisymmetric, lemma_lex_total, lemma_lex_transitive, lex_le};
use crate::utils::paths::{is_absolute, split, split_chars};

pub mod numbers;
pub mod order;
pub mod paths;
pub mod search;

pub use crate::utils::search::binary_search;

verus! {

/// The item at the index `i`.
pub open spec fn item_at<T>(items: Seq<T>, i: usize) -> T {
    items[i as int]
}

/// `std::string::String::push`: appends one character to the end of the
/// string and leaves what was there untouched.
#[verifier::external_body]
pub(crate) fn push_char(s: &mut String, c: char)
    ensures
        final(s)@ == old(s)@.push(c),
{
    s.push(c)
}

/// The characters of `s`, in order.
pub fn to_chars(s: &str) -> (r: Vec<char>)
    ensures
        r@ == s@,
{
    let mut r: Vec<char> = Vec::new();
    for c in it: s.chars()
        invariant
            it.seq() == s@,
            r@ =~= s@.take(it.index() as int),
    {
        r.push(c);
    }
    r
}

/// The string made of `chars[start..stop]`.
pub fn from_chars(chars: &[char], start: usize, stop: usize) -> (r: String)
    requires
        start <= stop <= chars@.len(),
    ensures
        r@ == chars@.subrange(start as int, stop as int),
{
    let mut r = String::new();
    let mut i: usize = start;
    while i < stop
        invariant
            start <= i <= stop <= chars@.len(),
            r@ =~= chars@.subrange(start as int, i as int),
        decreases stop - i,
    {
        push_char(&mut r, chars[i]);
        i += 1;
    }
    r
}

/// A copy of `items`.
pub fn clone_strings(items: &[String]) -> (r: Vec<String>)
    ensures
        r.deep_view() == items.deep_view(),
{
    let mut r: Vec<String> = Vec::new();
    let mut i: usize = 0;
    while i < items.len()
        invariant
            i <= items@.len(),
            r@.len() == i,
            forall|j: int| 0 <= j < i ==> r@[j]@ == items@[j]@,
        decreases items@.len() - i,
    {
        r.push(items[i].clone());
        i += 1;
    }
    r
}

/// Whether `s` begins with the characters of `prefix`.
pub fn starts_with_chars(s: &str, prefix: &[char]) -> (r: bool)
    ensures
        r == prefix@.is_prefix_of(s@),
{
    let chars = to_chars(s);
    if prefix.len() > chars.len() {
        return false;
    }
    let mut i: usize = 0;
    while i < prefix.len()
        invariant
            i <= prefix@.len() <= chars@.len(),
            chars@ == s@,
            forall|j: int| 0 <= j < i ==> chars@[j] == prefix@[j],
        decreases prefix@.len() - i,
    {
        if chars[i] != prefix[i] {
            return false;
        }
        i += 1;
    }
    true
}

/// The least index at or after `from` at which an item of `items` begins with
/// `target`, if there is one.
pub open spec fn first_with_prefix_from(items: Seq<Seq<char>>, target: Seq<char>, from: int) -> Option<int>
    decreases items.len() - from,
{
    if from < 0 || from >= items.len() {
        None
    } else if target.is_prefix_of(items[from]) {
        Some(from)
    } else {
        first_with_prefix_from(items, target, from + 1)
    }
}

/// The least index at which an item of `items` begins with `target`.
pub open spec fn first_with_prefix(items: Seq<Seq<char>>, target: Seq<char>) -> Option<int> {
    first_with_prefix_from(items, target, 0)
}

/// `first_with_prefix_from` finds the least matching index at or after `from`,
/// and finds nothing exactly when no item from there on begins with `target`.
pub proof fn lemma_first_with_prefix_from(items: Seq<Seq<char>>, target: Seq<char>, from: int)
    requires
        0 <= from,
    ensures
        match first_with_prefix_from(items, target, from) {
            Some(i) => {
                &&& from <= i < items.len()
                &&& target.is_prefix_of(items[i])
                &&& forall|j: int| from <= j < i ==> !target.is_prefix_of(#[trigger] items[j])
            },
            None => forall|j: int| from <= j < items.len() ==> !target.is_prefix_of(#[trigger] items[j]),
        },
    decreases items.len() - from,
{
    if from < items.len() && !target.is_prefix_of(items[from]) {
        lemma_first_with_prefix_from(items, target, from + 1);
    }
}

/// The index of the first item that begins with `target`.
pub fn first_item(array: &[String], target: &str) -> (r: Option<usize>)
    ensures
        match r {
            Some(i) => first_with_prefix(array.deep_view(), target@) == Some(i as int),
            None => first_with_prefix(array.deep_view(), target@) is None,
        },
{
    let prefix = to_chars(target);
    let mut i: usize = 0;
    while i < array.len()
        invariant
            i <= array@.len(),
            prefix@ == target@,
            first_with_prefix(array.deep_view(), target@) == first_with_prefix_from(
                array.deep_view(),
                target@,
                i as int,
            ),
        decreases array@.len() - i,
    {
        if starts_with_chars(array[i].as_str(), prefix.as_slice()) {
            return Some(i);
        }
        i += 1;
    }
    None
}

/// Something that is looked up by its name.
pub trait Named {
    spec fn spec_name(&self) -> Seq<char>;

    fn name(&self) -> (r: &String)
        ensures
            r@ == self.spec_name(),
    ;
}

/// The names of `items`, in order.
pub open spec fn names_of<T: Named>(items: Seq<T>) -> Seq<Seq<char>> {
    Seq::new(items.len(), |i: int| items[i].spec_name())
}

/// For each name, whether it is `key`.
pub open spec fn name_hits(names: Seq<Seq<char>>, key: Seq<char>) -> Seq<bool> {
    Seq::new(names.len(), |i: int| names[i] == key)
}

/// The least index at or after `from` that is a hit and is not in `skips`.
pub open spec fn first_free_from(hits: Seq<bool>, skips: Seq<usize>, from: int) -> Option<int>
    decreases hits.len() - from,
{
    if from < 0 || from >= hits.len() {
        None
    } else if hits[from] && !skips.contains(from as usize) {
        Some(from)
    } else {
        first_free_from(hits, skips, from + 1)
    }
}

/// The least index that is a hit and is not in `skips`.
pub open spec fn first_free(hits: Seq<bool>, skips: Seq<usize>) -> Option<int> {
    first_free_from(hits, skips, 0)
}

/// `first_free_from` finds the least index at or after `from` that is a hit
/// outside `skips`, and nothing exactly when there is none.
pub proof fn lemma_first_free_from(hits: Seq<bool>, skips: Seq<usize>, from: int)
    requires
        0 <= from,
        hits.len() <= usize::MAX,
    ensures
        match first_free_from(hits, skips, from) {
            Some(i) => {
                &&& from <= i < hits.len()
                &&& hits[i]
                &&& !skips.contains(i as usize)
                &&& forall|j: int| from <= j < i ==> !(#[trigger] hits[j] && !skips.contains(j as usize))
            },
            None => forall|j: int|
                from <= j < hits.len() ==> !(#[trigger] hits[j] && !skips.contains(j as usize)),
        },
    decreases hits.len() - from,
{
    if from < hits.len() && !(hits[from] && !skips.contains(from as usize)) {
        lemma_first_free_from(hits, skips, from + 1);
    }
}

/// Whether `x` is among `items`.
pub fn contains_index(items: &[usize], x: usize) -> (r: bool)
    ensures
        r == items@.contains(x),
{
    let mut i: usize = 0;
    while i < items.len()
        invariant
            i <= items@.len(),
            forall|j: int| 0 <= j < i ==> items@[j] != x,
        decreases items@.len() - i,
    {
        if items[i] == x {
            return true;
        }
        i += 1;
    }
    false
}

/// No name comes behind a later one in the order of a dictionary.
pub open spec fn names_in_order(names: Seq<Seq<char>>) -> bool {
    forall|i: int, j: int| 0 <= i <= j < names.len() ==> lex_le(names[i], names[j])
}

/// Whether the names of `items` are in the order of a dictionary.
pub fn names_sorted<T: Named>(items: &[T]) -> (r: bool)
    ensures
        r == names_in_order(names_of(items@)),
{
    let ghost names = names_of(items@);
    let mut i: usize = 1;
    while i < items.len()
        invariant
            1 <= i,
            names == names_of(items@),
            forall|a: int, b: int| 0 <= a < b < i && b < names.len() ==> lex_le(names[a], names[b]),
        decreases items@.len() - i,
    {
        let before = to_chars(items[i - 1].name().as_str());
        let here = to_chars(items[i].name().as_str());
        if !chars_le(before.as_slice(), here.as_slice()) {
            assert(!lex_le(names[i - 1], names[i as int]));
            return false;
        }
        assert forall|a: int, b: int| 0 <= a < b < i + 1 && b < names.len() implies lex_le(
            names[a],
            names[b],
        ) by {
            if b == i && a < i - 1 {
                lemma_lex_transitive(names[a], names[i - 1], names[i as int]);
            }
        }
        i += 1;
    }
    assert forall|a: int, b: int| 0 <= a <= b < names.len() implies lex_le(names[a], names[b]) by {
        if a == b {
            lemma_lex_total(names[a], names[a]);
        }
    }
    true
}

/// Where nothing before `from` is a hit, the first free hit is the first
/// one from `from` on.
pub proof fn lemma_first_free_skips_misses(hits: Seq<bool>, skips: Seq<usize>, from: int, at: int)
    requires
        0 <= at <= from,
        forall|i: int| 0 <= i < from && i < hits.len() ==> !hits[i],
    ensures
        first_free_from(hits, skips, at) == first_free_from(hits, skips, from),
    decreases from - at,
{
    if at < from {
        lemma_first_free_skips_misses(hits, skips, from, at + 1);
    }
}

/// Where nothing from `from` on is a hit, there is no free hit from there.
pub proof fn lemma_first_free_of_misses(hits: Seq<bool>, skips: Seq<usize>, from: int)
    requires
        forall|i: int| from <= i < hits.len() ==> !hits[i],
    ensures
        first_free_from(hits, skips, from) is None,
    decreases hits.len() - from,
{
    if 0 <= from < hits.len() {
        lemma_first_free_of_misses(hits, skips, from + 1);
    }
}

/// The least index of a name of `items` that does not come before `key`,
/// for names that are in order.
fn lower_bound<T: Named>(key: &[char], items: &[T]) -> (r: usize)
    requires
        names_in_order(names_of(items@)),
    ensures
        r <= items@.len(),
        forall|i: int| 0 <= i < r ==> !lex_le(key@, #[trigger] names_of(items@)[i]),
        forall|i: int| r <= i < items@.len() ==> lex_le(key@, #[trigger] names_of(items@)[i]),
{
    let ghost names = names_of(items@);
    let mut low: usize = 0;
    let mut high: usize = items.len();
    while low < high
        invariant
            low <= high <= items@.len(),
            names == names_of(items@),
            names_in_order(names),
            forall|i: int| 0 <= i < low ==> !lex_le(key@, #[trigger] names[i]),
            forall|i: int| high <= i < names.len() ==> lex_le(key@, #[trigger] names[i]),
        decreases high - low,
    {
        let middle = low + (high - low) / 2;
        let name = to_chars(items[middle].name().as_str());
        if chars_le(key, name.as_slice()) {
            assert forall|i: int| middle <= i < names.len() implies lex_le(key@, #[trigger] names[i]) by {
                lemma_lex_transitive(key@, names[middle as int], names[i]);
            }
            high = middle;
        } else {
            assert forall|i: int| 0 <= i <= middle implies !lex_le(key@, #[trigger] names[i]) by {
                if lex_le(key@, names[i]) {
                    lemma_lex_transitive(key@, names[i], names[middle as int]);
                }
            }
            low = middle + 1;
        }
    }
    low
}

/// Looks `k` up among the names of `items` and passes over every index in
/// `exclude`: the answer is the least index outside `exclude` whose name is
/// `k`. Where `sorted` says that the names are in the order of a
/// dictionary, the place of `k` among them is found by halving the table,
/// and the search ends behind the last name that is `k`; otherwise the
/// table is walked from its start to its end. The answer is the same.
pub fn binary_search_with_exclude<T: Named>(k: &String, items: &[T], exclude: &[usize], sorted: bool) -> (r:
    Option<usize>)
    requires
        sorted ==> names_in_order(names_of(items@)),
    ensures
        match r {
            Some(i) => first_free(name_hits(names_of(items@), k@), exclude@) == Some(i as int),
            None => first_free(name_hits(names_of(items@), k@), exclude@) is None,
        },
{
    let ghost names = names_of(items@);
    let ghost hits = name_hits(names, k@);
    let key = to_chars(k.as_str());
    let mut i: usize = 0;
    if sorted {
        i = lower_bound(key.as_slice(), items);
        proof {
            assert forall|j: int| 0 <= j < i && j < hits.len() implies !hits[j] by {
                lemma_lex_total(k@, k@);
            }
            lemma_first_free_skips_misses(hits, exclude@, i as int, 0);
        }
    }
    while i < items.len()
        invariant
            i <= items@.len(),
            names == names_of(items@),
            hits == name_hits(names, k@),
            sorted ==> names_in_order(names),
            sorted ==> forall|j: int| i <= j < names.len() ==> lex_le(k@, #[trigger] names[j]),
            first_free(hits, exclude@) == first_free_from(hits, exclude@, i as int),
        decreases items@.len() - i,
    {
        if *items[i].name() == *k {
            if !contains_index(exclude, i) {
                return Some(i);
            }
        } else if sorted {
            proof {
                assert forall|j: int| i <= j < hits.len() implies !hits[j] by {
                    if hits[j] {
                        lemma_lex_antisymmetric(names[i as int], k@);
                    }
                }
                lemma_first_free_of_misses(hits, exclude@, i as int);
            }
            return None;
        }
        i += 1;
    }
    None
}

/// The steps of a path: the root, for a path that starts at it, and then
/// every segment of the path that is not empty. Here the steps among the
/// first `n` segments.
pub open spec fn path_steps(path: Seq<char>, n: int) -> Seq<Seq<char>>
    decreases n,
{
    if n <= 0 {
        if is_absolute(path) {
            seq![seq!['/']]
        } else {
            Seq::empty()
        }
    } else if split(path, '/')[n - 1].len() > 0 {
        path_steps(path, n - 1).push(split(path, '/')[n - 1])
    } else {
        path_steps(path, n - 1)
    }
}

/// The first character of each of the steps `from..to`, each with a `/`
/// behind it.
pub open spec fn initials(steps: Seq<Seq<char>>, from: int, to: int) -> Seq<char>
    decreases to - from,
{
    if to <= from {
        Seq::empty()
    } else {
        initials(steps, from, to - 1) + steps[to - 1].take(1).push('/')
    }
}

/// The prompt for the directory `path`: its first two characters and a
/// `/`; of each step behind the second but the last its first character
/// and a `/`; the last step in full; and ` > `.
pub open spec fn short_path_text(path: Seq<char>) -> Seq<char> {
    let steps = path_steps(path, split(path, '/').len() as int);
    let head = if path.len() >= 2 {
        path.take(2)
    } else {
        path
    };
    let last = if steps.len() > 0 {
        steps.last()
    } else {
        Seq::empty()
    };
    head.push('/') + initials(steps, 2, steps.len() - 1) + last + seq![' ', '>', ' ']
}

/// The prompt for the directory `full_path`.
pub fn short_path(full_path: &str) -> (r: String)
    ensures
        r@ == short_path_text(full_path@),
{
    let path = to_chars(full_path);
    let pieces = split_chars(path.as_slice(), '/');
    let ghost cut = split(path@, '/');
    let mut steps: Vec<Vec<char>> = Vec::new();
    if path.len() > 0 && path[0] == '/' {
        let mut root: Vec<char> = Vec::new();
        root.push('/');
        assert(root.deep_view() =~= seq!['/']);
        steps.push(root);
    }
    let mut i: usize = 0;
    while i < pieces.len()
        invariant
            i <= pieces@.len(),
            pieces.deep_view() == cut,
            cut == split(path@, '/'),
            steps.deep_view() == path_steps(path@, i as int),
            forall|k: int| 0 <= k < steps@.len() ==> (#[trigger] steps@[k])@.len() > 0,
        decreases pieces@.len() - i,
    {
        if pieces[i].len() > 0 {
            let mut step: Vec<char> = Vec::new();
            let mut j: usize = 0;
            while j < pieces[i].len()
                invariant
                    i < pieces@.len(),
                    j <= pieces@[i as int]@.len(),
                    step@ == pieces@[i as int]@.take(j as int),
                decreases pieces@[i as int]@.len() - j,
            {
                step.push(pieces[i][j]);
                assert(step@ =~= pieces@[i as int]@.take(j + 1));
                j += 1;
            }
            assert(step@ =~= pieces@[i as int]@);
            steps.push(step);
        }
        i += 1;
    }
    let ghost all = steps.deep_view();
    let mut out: Vec<char> = Vec::new();
    if path.len() >= 2 {
        out.push(path[0]);
        out.push(path[1]);
    } else if path.len() == 1 {
        out.push(path[0]);
    }
    out.push('/');
    let ghost head = out@;
    let n = steps.len();
    let mut k: usize = 2;
    while n > 0 && k < n - 1
        invariant
            2 <= k,
            n == steps@.len(),
            all == steps.deep_view(),
            forall|k: int| 0 <= k < steps@.len() ==> (#[trigger] steps@[k])@.len() > 0,
            n > 0 && k < n - 1 || out@ == head + initials(all, 2, n - 1),
            n > 0 && k <= n - 1 ==> out@ == head + initials(all, 2, k as int),
        decreases n - k,
    {
        let step = &steps[k];
        out.push(step[0]);
        out.push('/');
        k += 1;
    }
    let ghost middle = out@;
    if n > 0 {
        let last = &steps[n - 1];
        let mut j: usize = 0;
        while j < last.len()
            invariant
                j <= last@.len(),
                out@ == middle + last@.take(j as int),
            decreases last@.len() - j,
        {
            out.push(last[j]);
            j += 1;
        }
    }
    out.push(' ');
    out.push('>');
    out.push(' ');
    let r = from_chars(out.as_slice(), 0, out.len());
    r
}

} // verus!
