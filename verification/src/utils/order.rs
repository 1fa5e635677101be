use vstd::prelude::*;

verus! {

/// Whether `a` does not come behind `b` in the order of a dictionary:
/// the strings are compared character by character, and a string comes
/// before every string that it begins.
pub open spec fn lex_le(a: Seq<char>, b: Seq<char>) -> bool
    decreases a.len(),
{
    if a.len() == 0 {
        true
    } else if b.len() == 0 {
        false
    } else if a[0] != b[0] {
        (a[0] as int) < (b[0] as int)
    } else {
        lex_le(a.drop_first(), b.drop_first())
    }
}

/// Of two strings, one does not come behind the other.
pub proof fn lemma_lex_total(a: Seq<char>, b: Seq<char>)
    ensures
        lex_le(a, b) || lex_le(b, a),
    decreases a.len(),
{
    if a.len() > 0 && b.len() > 0 && a[0] == b[0] {
        lemma_lex_total(a.drop_first(), b.drop_first());
    }
}

/// Two strings of which neither comes behind the other are the same.
pub proof fn lemma_lex_antisymmetric(a: Seq<char>, b: Seq<char>)
    requires
        lex_le(a, b),
        lex_le(b, a),
    ensures
        a == b,
    decreases a.len(),
{
    if a.len() > 0 && b.len() > 0 {
        lemma_lex_antisymmetric(a.drop_first(), b.drop_first());
        assert(a =~= seq![a[0]] + a.drop_first());
        assert(b =~= seq![b[0]] + b.drop_first());
    } else {
        assert(a =~= b);
    }
}

/// The order of the dictionary is transitive.
pub proof fn lemma_lex_transitive(a: Seq<char>, b: Seq<char>, c: Seq<char>)
    requires
        lex_le(a, b),
        lex_le(b, c),
    ensures
        lex_le(a, c),
    decreases a.len(),
{
    if a.len() > 0 && b.len() > 0 && c.len() > 0 && a[0] == b[0] && b[0] == c[0] {
        lemma_lex_transitive(a.drop_first(), b.drop_first(), c.drop_first());
    }
}

/// Two strings that begin alike are in the order of what follows.
proof fn lemma_lex_skip(a: Seq<char>, b: Seq<char>, i: int)
    requires
        0 <= i <= a.len(),
        i <= b.len(),
        a.take(i) == b.take(i),
    ensures
        lex_le(a, b) == lex_le(a.skip(i), b.skip(i)),
    decreases i,
{
    if i > 0 {
        assert(a[0] == a.take(i)[0]);
        assert(a.drop_first().take(i - 1) =~= a.take(i).drop_first());
        assert(b.drop_first().take(i - 1) =~= b.take(i).drop_first());
        lemma_lex_skip(a.drop_first(), b.drop_first(), i - 1);
        assert(a.drop_first().skip(i - 1) =~= a.skip(i));
        assert(b.drop_first().skip(i - 1) =~= b.skip(i));
    } else {
        assert(a.skip(0) =~= a);
        assert(b.skip(0) =~= b);
    }
}

/// Whether `a` does not come behind `b` in the order of a dictionary.
pub fn chars_le(a: &[char], b: &[char]) -> (r: bool)
    ensures
        r == lex_le(a@, b@),
{
    let mut i: usize = 0;
    while i < a.len() && i < b.len()
        invariant
            i <= a@.len(),
            i <= b@.len(),
            a@.take(i as int) == b@.take(i as int),
        decreases a@.len() - i,
    {
        proof {
            lemma_lex_skip(a@, b@, i as int);
        }
        if a[i] != b[i] {
            return a[i] < b[i];
        }
        i += 1;
    }
    proof {
        lemma_lex_skip(a@, b@, i as int);
    }
    i == a.len()
}

/// Something that is put in order by a key.
pub trait Keyed: Sized {
    /// Whether the key of `self` does not come behind the key of `other`.
    spec fn key_le(&self, other: &Self) -> bool;

    fn le(&self, other: &Self) -> (r: bool)
        ensures
            r == self.key_le(other),
    ;

    /// Of two keys, one does not come behind the other.
    proof fn lemma_total(a: &Self, b: &Self)
        ensures
            a.key_le(b) || b.key_le(a),
    ;

    proof fn lemma_transitive(a: &Self, b: &Self, c: &Self)
        requires
            a.key_le(b),
            b.key_le(c),
        ensures
            a.key_le(c),
    ;
}

/// No item comes behind a later one.
pub open spec fn in_order<T: Keyed>(items: Seq<T>) -> bool {
    forall|i: int, j: int| 0 <= i <= j < items.len() ==> #[trigger] items[i].key_le(&items[j])
}

/// Puts `item` into `items`, which are in order, behind every item that
/// does not come behind it.
pub fn insert_in_order<T: Keyed>(items: &mut Vec<T>, item: T)
    requires
        in_order(old(items)@),
    ensures
        in_order(final(items)@),
        final(items)@.to_multiset() == old(items)@.to_multiset().insert(item),
{
    let ghost before = items@;
    let mut at: usize = 0;
    while at < items.len() && items[at].le(&item)
        invariant
            at <= items@.len(),
            items@ == before,
            forall|i: int| 0 <= i < at ==> before[i].key_le(&item),
        decreases items@.len() - at,
    {
        at += 1;
    }
    proof {
        if at < items.len() {
            T::lemma_total(&before[at as int], &item);
        }
    }
    items.insert(at, item);
    proof {
        let after = items@;
        assert forall|i: int, j: int| 0 <= i <= j < after.len() implies #[trigger] after[i].key_le(
            &after[j],
        ) by {
            if i == j {
                T::lemma_total(&after[i], &after[i]);
            } else if i == at {
                T::lemma_transitive(&item, &before[at as int], &before[j - 1]);
            }
        }
        assert(after.remove(at as int) =~= before);
        vstd::seq_lib::to_multiset_remove(after, at as int);
        after.to_multiset_ensures();
    }
}

/// The items of `items`, in order.
pub fn sort_by_key<T: Keyed>(items: Vec<T>) -> (r: Vec<T>)
    ensures
        in_order(r@),
        r@.to_multiset() == items@.to_multiset(),
{
    let ghost all = items@;
    let mut items = items;
    let mut sorted: Vec<T> = Vec::new();
    proof {
        sorted@.to_multiset_ensures();
    }
    loop
        invariant_except_break
            in_order(sorted@),
            sorted@.to_multiset().add(items@.to_multiset()) == all.to_multiset(),
        ensures
            in_order(sorted@),
            sorted@.to_multiset() == all.to_multiset(),
        decreases items@.len(),
    {
        let ghost left = items@;
        match items.pop() {
            None => {
                proof {
                    left.to_multiset_ensures();
                }
                break ;
            },
            Some(item) => {
                proof {
                    vstd::seq_lib::to_multiset_remove(left, left.len() - 1);
                    left.to_multiset_ensures();
                }
                insert_in_order(&mut sorted, item);
            },
        }
    }
    sorted
}

} // verus!
