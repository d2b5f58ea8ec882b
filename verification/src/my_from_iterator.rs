//! Building a collection out of an iterator.

use crate::my_iterator::steps_through;
use crate::my_iterator::yields_exactly;
use crate::my_iterator::MyIterator;
use std::collections::HashSet;
use vstd::prelude::*;

verus! {

/// How a collection is created from an iterator: the iterator yields
/// some exact sequence of items (`yields_exactly`), and the finished
/// collection is built from that sequence as the implementor's
/// `built_from` says.
pub trait MyFromIterator<T>: Sized {
    /// How the finished collection relates to the yielded items.
    spec fn built_from(items: Seq<T>, r: Self) -> bool;

    fn my_from_iter<I: MyIterator<Item = T>>(iter: I) -> (r: Self)
        requires
            iter.next_req(),
        ensures
            exists|items: Seq<T>|
                #[trigger] yields_exactly::<I>(iter, items) && Self::built_from(items, r),
    ;
}

impl<T> MyFromIterator<T> for Vec<T> {
    /// A vector holds every yielded item, in yield order.
    open spec fn built_from(items: Seq<T>, r: Self) -> bool {
        r@ == items
    }

    fn my_from_iter<I: MyIterator<Item = T>>(iter: I) -> (r: Self) {
        let ghost start = iter;
        let mut it = iter;
        let ghost mut states: Seq<I> = seq![start];
        let mut items: Vec<T> = Vec::new();
        loop
            invariant_except_break
                states[states.len() - 1] == it,
            invariant
                it.next_req(),
                steps_through(states, items@),
                states[0] == start,
            ensures
                yields_exactly::<I>(start, items@),
            decreases it.measure(),
        {
            let ghost head = it;
            let ghost prev = states;
            let step = it.next();
            match step {
                Some(x) => {
                    items.push(x);
                    proof {
                        states = states.push(it);
                        assert(I::next_ens(head, it, Some(x)));
                        assert forall|j: int|
                            0 <= j < items@.len() implies #[trigger] I::next_ens(
                            states[j],
                            states[j + 1],
                            Some(items@[j]),
                        ) by {
                            if j < items@.len() - 1 {
                                assert(states[j] == prev[j]);
                                assert(states[j + 1] == prev[j + 1]);
                            } else {
                                assert(states[j] == prev[j]);
                                assert(states[j + 1] == it);
                            }
                        };
                    }
                },
                None => {
                    proof {
                        assert(steps_through(states, items@));
                        assert(I::next_ens(states[items@.len() as int], it, Option::<T>::None));
                        assert(yields_exactly::<I>(start, items@));
                    }
                    break;
                },
            }
        }
        proof {
            assert(yields_exactly::<I>(iter, items@));
        }
        items
    }
}

impl<T: Eq + std::hash::Hash> MyFromIterator<T> for HashSet<T> {
    /// A hash set holds the yielded items with duplicates collapsed,
    /// as far as the standard library's hash-table model reaches.
    open spec fn built_from(items: Seq<T>, r: Self) -> bool {
        (vstd::std_specs::hash::obeys_key_model::<T>()
            && vstd::std_specs::hash::builds_valid_hashers::<std::hash::RandomState>()) ==> r@
            == items.to_set()
    }

    fn my_from_iter<I: MyIterator<Item = T>>(iter: I) -> (r: Self) {
        let ghost start = iter;
        let mut it = iter;
        let ghost mut states: Seq<I> = seq![start];
        let ghost mut items: Seq<T> = Seq::empty();
        let mut collected: HashSet<T> = HashSet::new();
        loop
            invariant_except_break
                states[states.len() - 1] == it,
            invariant
                it.next_req(),
                steps_through(states, items),
                states[0] == start,
                (vstd::std_specs::hash::obeys_key_model::<T>()
                    && vstd::std_specs::hash::builds_valid_hashers::<std::hash::RandomState>())
                    ==> collected@ == items.to_set(),
            ensures
                yields_exactly::<I>(start, items),
                (vstd::std_specs::hash::obeys_key_model::<T>()
                    && vstd::std_specs::hash::builds_valid_hashers::<std::hash::RandomState>())
                    ==> collected@ == items.to_set(),
            decreases it.measure(),
        {
            let ghost head = it;
            let ghost prev = states;
            let ghost prev_items = items;
            let step = it.next();
            match step {
                Some(x) => {
                    collected.insert(x);
                    proof {
                        states = states.push(it);
                        items = items.push(x);
                        assert(I::next_ens(head, it, Some(x)));
                        assert forall|j: int|
                            0 <= j < items.len() implies #[trigger] I::next_ens(
                            states[j],
                            states[j + 1],
                            Some(items[j]),
                        ) by {
                            if j < items.len() - 1 {
                                assert(states[j] == prev[j]);
                                assert(states[j + 1] == prev[j + 1]);
                                assert(items[j] == prev_items[j]);
                            } else {
                                assert(states[j] == prev[j]);
                                assert(states[j + 1] == it);
                            }
                        };
                        assert(items.to_set() =~= prev_items.to_set().insert(x)) by {
                            assert forall|y: T|
                                items.contains(y) <==> (prev_items.contains(y) || y == x) by {
                                if items.contains(y) {
                                    let i = choose|i: int| 0 <= i < items.len() && items[i] == y;
                                    if i < items.len() - 1 {
                                        assert(prev_items[i] == y);
                                    }
                                }
                                if prev_items.contains(y) {
                                    let i = choose|i: int|
                                        0 <= i < prev_items.len() && prev_items[i] == y;
                                    assert(items[i] == y);
                                }
                                if y == x {
                                    assert(items[items.len() - 1] == y);
                                }
                            };
                        };
                    }
                },
                None => {
                    proof {
                        assert(steps_through(states, items));
                        assert(I::next_ens(states[items.len() as int], it, Option::<T>::None));
                        assert(yields_exactly::<I>(start, items));
                    }
                    break;
                },
            }
        }
        proof {
            assert(yields_exactly::<I>(iter, items));
        }
        collected
    }
}

} // verus!
