//! Counting ids in lists that may name one entity several times.

use vstd::prelude::*;
use crate::text::str_eq;

verus! {

/// The texts behind a sequence of string slices.
pub open spec fn strs(items: Seq<&str>) -> Seq<Seq<char>> {
    Seq::new(items.len(), |i: int| items[i]@)
}

/// How often `id` stands in `ids`.
pub open spec fn occurrences(ids: Seq<Seq<char>>, id: Seq<char>) -> nat
    decreases ids.len(),
{
    if ids.len() == 0 {
        0
    } else if ids.last() == id {
        occurrences(ids.drop_last(), id) + 1
    } else {
        occurrences(ids.drop_last(), id)
    }
}

/// The ids without repetitions, each where it first stands.
pub open spec fn distinct(ids: Seq<Seq<char>>) -> Seq<Seq<char>>
    decreases ids.len(),
{
    if ids.len() == 0 {
        Seq::empty()
    } else {
        let rest = distinct(ids.drop_last());
        if rest.contains(ids.last()) {
            rest
        } else {
            rest.push(ids.last())
        }
    }
}

/// Counts how often `id` stands among the items.
pub fn count_occurrences(items: &Vec<&str>, id: &str) -> (n: usize)
    ensures
        n == occurrences(strs(items@), id@),
{
    let ghost all = strs(items@);
    let mut n: usize = 0;
    let mut i: usize = 0;
    assert(all.take(0) =~= Seq::<Seq<char>>::empty());
    while i < items.len()
        invariant
            all == strs(items@),
            i <= items.len(),
            n == occurrences(all.take(i as int), id@),
            n <= i,
        decreases items.len() - i,
    {
        proof {
            assert(all.take(i + 1).drop_last() == all.take(i as int));
            assert(all.take(i + 1).last() == items@[i as int]@);
        }
        if str_eq(items[i], id) {
            n += 1;
        }
        i += 1;
    }
    assert(all.take(items.len() as int) == all);
    n
}

/// The items without repetitions, each where it first stands.
pub fn distinct_items<'a>(items: &Vec<&'a str>) -> (seen: Vec<&'a str>)
    ensures
        strs(seen@) == distinct(strs(items@)),
{
    let ghost all = strs(items@);
    let mut seen: Vec<&'a str> = Vec::new();
    let mut i: usize = 0;
    assert(all.take(0) =~= Seq::<Seq<char>>::empty());
    assert(strs(seen@) =~= Seq::<Seq<char>>::empty());
    while i < items.len()
        invariant
            all == strs(items@),
            i <= items.len(),
            strs(seen@) == distinct(all.take(i as int)),
        decreases items.len() - i,
    {
        proof {
            assert(all.take(i + 1).drop_last() == all.take(i as int));
            assert(all.take(i + 1).last() == items@[i as int]@);
        }
        let item = items[i];
        let mut known = false;
        let mut j: usize = 0;
        while j < seen.len()
            invariant
                j <= seen.len(),
                known <==> exists|a: int| 0 <= a < j && strs(seen@)[a] == item@,
            decreases seen.len() - j,
        {
            if str_eq(seen[j], item) {
                assert(strs(seen@)[j as int] == item@);
                known = true;
            }
            j += 1;
        }
        if !known {
            let ghost before = strs(seen@);
            seen.push(item);
            assert(strs(seen@) =~= before.push(item@));
        }
        i += 1;
    }
    assert(all.take(items.len() as int) == all);
    seen
}

} // verus!
