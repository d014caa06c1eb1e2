use crate::text::joined;
use std::collections::HashSet;
use vstd::prelude::*;
use vstd::std_specs::iter::IteratorSpec;

verus! {

broadcast use vstd::std_specs::hash::group_hash_axioms;

/// The place in `items` of the first item that is `wanted`.
pub open spec fn first_where<A>(items: Seq<A>, wanted: spec_fn(A) -> bool) -> Option<int>
    decreases items.len(),
{
    if items.len() == 0 {
        None
    } else if wanted(items[0]) {
        Some(0)
    } else {
        match first_where(items.drop_first(), wanted) {
            Some(k) => Some(k + 1),
            None => None,
        }
    }
}

/// Where no item before place `upto` is wanted, the first wanted item is the
/// first one from `upto` on.
pub proof fn lemma_first_where_from<A>(items: Seq<A>, wanted: spec_fn(A) -> bool, upto: int)
    requires
        0 <= upto <= items.len(),
        forall|k: int| 0 <= k < upto ==> !wanted(#[trigger] items[k]),
    ensures
        first_where(items, wanted) == match first_where(items.skip(upto), wanted) {
            Some(k) => Some(k + upto),
            None => None,
        },
    decreases upto,
{
    if upto == 0 {
        assert(items.skip(0) =~= items);
    } else {
        let rest = items.drop_first();
        assert forall|k: int| 0 <= k < upto - 1 implies !wanted(#[trigger] rest[k]) by {
        }
        lemma_first_where_from(rest, wanted, upto - 1);
        assert(rest.skip(upto - 1) =~= items.skip(upto));
    }
}

/// What [`first_where`] finds is wanted, and nothing before it is; where it
/// finds nothing, nothing is wanted.
pub proof fn lemma_first_where<A>(items: Seq<A>, wanted: spec_fn(A) -> bool)
    ensures
        match first_where(items, wanted) {
            Some(i) => {
                &&& 0 <= i < items.len()
                &&& wanted(items[i])
                &&& forall|k: int| 0 <= k < i ==> !wanted(#[trigger] items[k])
            },
            None => forall|k: int| 0 <= k < items.len() ==> !wanted(#[trigger] items[k]),
        },
    decreases items.len(),
{
    if items.len() > 0 && !wanted(items[0]) {
        let rest = items.drop_first();
        lemma_first_where(rest, wanted);
        match first_where(rest, wanted) {
            Some(i) => {
                assert forall|k: int| 0 <= k < i + 1 implies !wanted(#[trigger] items[k]) by {
                    if k > 0 {
                        assert(rest[k - 1] == items[k]);
                    }
                }
            },
            None => {
                assert forall|k: int| 0 <= k < items.len() implies !wanted(#[trigger] items[k]) by {
                    if k > 0 {
                        assert(rest[k - 1] == items[k]);
                    }
                }
            },
        }
    }
}

/// Whether `found` lists, in ascending order, exactly the places of those of
/// `items` for which `predicate` answers yes.
pub open spec fn are_positions<T, F: Fn(T) -> bool>(
    items: Seq<T>,
    predicate: F,
    found: Seq<usize>,
) -> bool {
    &&& forall|j: int|
        0 <= j < found.len() ==> (#[trigger] found[j]) < items.len() && call_ensures(
            predicate,
            (items[found[j] as int],),
            true,
        )
    &&& forall|i: int|
        0 <= i < items.len() && !found.contains(i as usize) ==> call_ensures(
            predicate,
            (#[trigger] items[i],),
            false,
        )
    &&& forall|j: int, k: int| 0 <= j < k < found.len() ==> found[j] < found[k]
}

/// What can be made of everything that an iterator yields. The iterator
/// has to be one that ends.
pub trait IterExt<T>: Iterator<Item = T> + Sized {
    /// All that the iterator yields, in its order.
    fn collect_vec(self) -> (items: Vec<T>)
        requires
            self.obeys_prophetic_iter_laws(),
            self.decrease() is Some,
        ensures
            items@ == self.remaining(),
    ;

    /// All that the iterator yields, each thing once.
    fn collect_hashset(self) -> (items: HashSet<T>) where T: Eq + std::hash::Hash
        requires
            self.obeys_prophetic_iter_laws(),
            self.decrease() is Some,
        ensures
            vstd::std_specs::hash::obeys_key_model::<T>() ==> items@ == self.remaining().to_set(),
    ;

    /// Returns the indices of elements where `predicate` returns true, in
    /// ascending order.
    fn positions<F: Fn(T) -> bool>(self, predicate: F) -> (found: Vec<usize>)
        requires
            self.obeys_prophetic_iter_laws(),
            self.decrease() is Some,
            self.remaining().len() <= usize::MAX,
            forall|i: int|
                0 <= i < self.remaining().len() ==> call_requires(
                    predicate,
                    (#[trigger] self.remaining()[i],),
                ),
        ensures
            are_positions(self.remaining(), predicate, found@),
    ;

    /// Delimits elements of `self` with `sep` and returns a single string:
    /// the texts that the elements show themselves as, `sep` between each
    /// two.
    fn display(self, sep: &str) -> (shown: String) where T: std::fmt::Display
        requires
            self.obeys_prophetic_iter_laws(),
            self.decrease() is Some,
        ensures
            exists|texts: Seq<String>|
                {
                    &&& texts.len() == self.remaining().len()
                    &&& forall|i: int|
                        0 <= i < texts.len() ==> vstd::string::to_string_from_display_ensures::<T>(
                            &self.remaining()[i],
                            #[trigger] texts[i],
                        )
                    &&& shown@ == joined(texts.map_values(|text: String| text@), sep@)
                },
    ;
}

impl<T, I: Iterator<Item = T>> IterExt<T> for I {
    fn collect_vec(self) -> (items: Vec<T>) {
        let mut iter = self;
        let mut items: Vec<T> = Vec::new();
        loop
            invariant
                iter.obeys_prophetic_iter_laws(),
                iter.decrease() is Some,
                items@ + iter.remaining() == self.remaining(),
            ensures
                items@ == self.remaining(),
            decreases iter.decrease()->0,
        {
            match iter.next() {
                Some(item) => {
                    items.push(item);
                },
                None => {
                    break ;
                },
            }
        }
        items
    }

    fn collect_hashset(self) -> (items: HashSet<T>) where T: Eq + std::hash::Hash {
        let mut iter = self;
        let mut items: HashSet<T> = HashSet::new();
        let ghost mut done: Seq<T> = Seq::empty();
        loop
            invariant
                iter.obeys_prophetic_iter_laws(),
                iter.decrease() is Some,
                done + iter.remaining() == self.remaining(),
                vstd::std_specs::hash::obeys_key_model::<T>() ==> items@ == done.to_set(),
            ensures
                vstd::std_specs::hash::obeys_key_model::<T>() ==> items@
                    == self.remaining().to_set(),
            decreases iter.decrease()->0,
        {
            match iter.next() {
                Some(item) => {
                    items.insert(item);
                    proof {
                        let more = done.push(item);
                        assert(more.to_set() =~= done.to_set().insert(item)) by {
                            assert forall|x: T| more.to_set().contains(x) implies done.to_set().insert(
                                item,
                            ).contains(x) by {
                                let j = choose|j: int| 0 <= j < more.len() && more[j] == x;
                                assert(j < done.len() ==> done[j] == x);
                            }
                            assert forall|x: T|
                                done.to_set().insert(item).contains(x) implies more.to_set().contains(
                                x,
                            ) by {
                                if x == item {
                                    assert(more[done.len() as int] == x);
                                } else {
                                    let j = choose|j: int| 0 <= j < done.len() && done[j] == x;
                                    assert(more[j] == x);
                                }
                            }
                        }
                        done = more;
                    }
                },
                None => {
                    break ;
                },
            }
        }
        items
    }

    fn positions<F: Fn(T) -> bool>(self, predicate: F) -> (found: Vec<usize>) {
        let mut iter = self;
        let mut found: Vec<usize> = Vec::new();
        let mut i: usize = 0;
        let ghost all = self.remaining();
        loop
            invariant
                iter.obeys_prophetic_iter_laws(),
                iter.decrease() is Some,
                all == self.remaining(),
                all.len() <= usize::MAX,
                i <= all.len(),
                iter.remaining() == all.skip(i as int),
                forall|k: int|
                    0 <= k < all.len() ==> call_requires(predicate, (#[trigger] all[k],)),
                are_positions(all.take(i as int), predicate, found@),
            ensures
                are_positions(all, predicate, found@),
            decreases iter.decrease()->0,
        {
            let ghost before = found@;
            match iter.next() {
                Some(item) => {
                    let keep = predicate(item);
                    if keep {
                        found.push(i);
                    }
                    proof {
                        let more = all.take(i + 1);
                        assert forall|j: int| 0 <= j < found@.len() implies (#[trigger] found@[j])
                            < more.len() && call_ensures(
                            predicate,
                            (more[found@[j] as int],),
                            true,
                        ) by {
                        }
                        assert forall|k: int|
                            0 <= k < more.len() && !found@.contains(k as usize) implies call_ensures(
                            predicate,
                            (#[trigger] more[k],),
                            false,
                        ) by {
                            if k < i {
                                if before.contains(k as usize) {
                                    let j = choose|j: int|
                                        0 <= j < before.len() && before[j] == k as usize;
                                    assert(found@[j] == k as usize);
                                }
                            } else if keep {
                                assert(found@[before.len() as int] == i);
                            }
                        }
                    }
                    i += 1;
                },
                None => {
                    assert(all.take(i as int) =~= all);
                    break ;
                },
            }
        }
        found
    }

    fn display(self, sep: &str) -> (shown: String) where T: std::fmt::Display {
        let mut iter = self;
        let mut shown = String::new();
        let ghost mut texts: Seq<String> = Seq::empty();
        let ghost all = self.remaining();
        let mut first = true;
        loop
            invariant
                iter.obeys_prophetic_iter_laws(),
                iter.decrease() is Some,
                all == self.remaining(),
                texts.len() <= all.len(),
                iter.remaining() == all.skip(texts.len() as int),
                first == (texts.len() == 0),
                forall|i: int|
                    0 <= i < texts.len() ==> vstd::string::to_string_from_display_ensures::<T>(
                        &all[i],
                        #[trigger] texts[i],
                    ),
                shown@ == joined(texts.map_values(|text: String| text@), sep@),
            ensures
                texts.len() == all.len(),
                forall|i: int|
                    0 <= i < texts.len() ==> vstd::string::to_string_from_display_ensures::<T>(
                        &all[i],
                        #[trigger] texts[i],
                    ),
                shown@ == joined(texts.map_values(|text: String| text@), sep@),
            decreases iter.decrease()->0,
        {
            match iter.next() {
                Some(item) => {
                    let text = item.to_string();
                    if !first {
                        shown.append(sep);
                    }
                    shown.append(text.as_str());
                    first = false;
                    proof {
                        let views = texts.map_values(|text: String| text@);
                        let more = texts.push(text);
                        let more_views = more.map_values(|text: String| text@);
                        assert(more_views.drop_last() =~= views);
                        texts = more;
                    }
                },
                None => {
                    break ;
                },
            }
        }
        shown
    }
}

} // verus!
