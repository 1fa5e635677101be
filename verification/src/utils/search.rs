use vstd::prelude::*;
use vstd::laws_cmp::obeys_cmp;
use vstd::std_specs::cmp::{OrdSpec, PartialEqSpec, PartialOrdSpec};
use core::cmp::Ordering;

verus! {

/// No item of `items` is greater than a later one.
pub open spec fn ascending<T: Ord>(items: Seq<T>) -> bool {
    forall|i: int, j: int|
        0 <= i < j < items.len() ==> #[trigger] items[i].partial_cmp_spec(&items[j]) != Some(
            Ordering::Greater,
        )
}

/// An index at which the ascending `items` hold an item equal to `k`,
/// if they hold one.
pub fn binary_search<T: Ord>(k: T, items: &[T]) -> (r: Option<usize>)
    requires
        obeys_cmp::<T>(),
        ascending(items@),
    ensures
        match r {
            Some(i) => i < items@.len() && crate::utils::item_at(items@, i).eq_spec(&k),
            None => forall|i: int| 0 <= i < items@.len() ==> !(#[trigger] items@[i]).eq_spec(&k),
        },
{
    let mut low: usize = 0;
    let mut high: usize = items.len();
    proof {
        reveal(vstd::laws_cmp::obeys_partial_cmp_spec_properties);
        reveal(vstd::laws_cmp::obeys_cmp_partial_ord);
        reveal(vstd::laws_cmp::obeys_cmp_ord);
        reveal(vstd::laws_eq::obeys_eq_spec_properties);
    }
    while low < high
        invariant
            low <= high <= items@.len(),
            obeys_cmp::<T>(),
            ascending(items@),
            forall|i: int| 0 <= i < low ==> (#[trigger] items@[i]).partial_cmp_spec(&k) == Some(Ordering::Less),
            forall|i: int|
                high <= i < items@.len() ==> (#[trigger] items@[i]).partial_cmp_spec(&k) == Some(
                    Ordering::Greater,
                ),
        decreases high - low,
    {
        proof {
            reveal(vstd::laws_cmp::obeys_partial_cmp_spec_properties);
            reveal(vstd::laws_cmp::obeys_cmp_partial_ord);
            reveal(vstd::laws_cmp::obeys_cmp_ord);
            reveal(vstd::laws_eq::obeys_eq_spec_properties);
        }
        let middle = low + (high - low) / 2;
        let current = &items[middle];
        if *current == k {
            return Some(middle);
        }
        if *current > k {
            high = middle;
        } else {
            low = middle + 1;
        }
    }
    proof {
        reveal(vstd::laws_cmp::obeys_partial_cmp_spec_properties);
        reveal(vstd::laws_cmp::obeys_cmp_partial_ord);
        reveal(vstd::laws_cmp::obeys_cmp_ord);
        reveal(vstd::laws_eq::obeys_eq_spec_properties);
    }
    None
}

} // verus!
