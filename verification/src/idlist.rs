//! Lists of identifiers kept in ascending order: sorting a list and looking
//! an identifier up in a sorted one.

use crate::number::Number;
use vstd::prelude::*;
use vstd::seq_lib::{to_multiset_build, to_multiset_insert};

verus! {

/// Whether `s` stands in ascending order.
pub open spec fn sorted<T: Number>(s: Seq<T>) -> bool {
    forall|i: int, j: int| 0 <= i <= j < s.len() ==> s[i].value() <= s[j].value()
}

/// Whether `after` is `before` with one occurrence of `id` taken out.
pub open spec fn without_one<T>(before: Seq<T>, id: T, after: Seq<T>) -> bool {
    exists|i: int| 0 <= i < before.len() && before[i] == id && after == #[trigger] before.remove(i)
}

/// The same identifiers in ascending order.
pub fn sort<T: Number>(list: &Vec<T>) -> (ordered: Vec<T>)
    ensures
        sorted(ordered@),
        ordered@.to_multiset() == list@.to_multiset(),
{
    let mut ordered: Vec<T> = Vec::new();
    let mut i: usize = 0;
    assert(list@.take(0) =~= ordered@);
    while i < list.len()
        invariant
            i <= list.len(),
            sorted(ordered@),
            ordered@.to_multiset() == list@.take(i as int).to_multiset(),
        decreases list.len() - i,
    {
        let x = list[i];
        let mut j: usize = 0;
        while j < ordered.len() && !x.below(ordered[j])
            invariant
                j <= ordered.len(),
                forall|k: int| 0 <= k < j ==> ordered[k].value() <= x.value(),
            decreases ordered.len() - j,
        {
            j += 1;
        }
        let ghost before = ordered@;
        ordered.insert(j, x);
        proof {
            to_multiset_insert(before, j as int, x);
            to_multiset_build(list@.take(i as int), x);
            assert(list@.take(i + 1) =~= list@.take(i as int).push(x));
            assert forall|a: int, b: int| 0 <= a <= b < ordered@.len() implies ordered@[a].value()
                <= ordered@[b].value() by {
                if a < j && b > j {
                    assert(ordered@[b] == before[b - 1]);
                    assert(before[j as int].value() <= before[b - 1].value());
                } else if a > j {
                    assert(ordered@[a] == before[a - 1]);
                    assert(ordered@[b] == before[b - 1]);
                } else if a == j && b > j {
                    assert(ordered@[b] == before[b - 1]);
                    assert(before[j as int].value() <= before[b - 1].value());
                }
            }
        }
        i += 1;
    }
    assert(list@.take(list.len() as int) =~= list@);
    ordered
}

/// Looks `x` up by halving. A place that is returned holds `x`. In a sorted
/// list `x` is found whenever it is there; in a list that is not sorted it
/// may be missed.
pub fn find<T: Number>(list: &Vec<T>, x: T) -> (place: Option<usize>)
    ensures
        place matches Some(i) ==> i < list.len() && list[i as int] == x,
        place is None && sorted(list@) ==> !list@.contains(x),
{
    let mut low: usize = 0;
    let mut high: usize = list.len();
    while low < high
        invariant
            low <= high <= list.len(),
            sorted(list@) ==> forall|k: int| 0 <= k < low ==> list[k].value() < x.value(),
            sorted(list@) ==> forall|k: int| high <= k < list.len() ==> x.value() < list[k].value(),
        decreases high - low,
    {
        let middle = low + (high - low) / 2;
        let y = list[middle];
        if y.below(x) {
            low = middle + 1;
        } else if x.below(y) {
            high = middle;
        } else {
            proof {
                T::lemma_value_tells_apart(x, y);
            }
            return Some(middle);
        }
    }
    assert(sorted(list@) ==> !list@.contains(x)) by {
        if sorted(list@) && list@.contains(x) {
            let k = choose|k: int| 0 <= k < list@.len() && list@[k] == x;
            assert(list[k].value() == x.value());
        }
    }
    None
}

} // verus!
