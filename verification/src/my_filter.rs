//! An iterator that filters the items of another iterator.

use crate::my_from_iterator::MyFromIterator;
use crate::my_iterator::MyIterator;
use vstd::prelude::*;

verus! {

/// `states` is a chain of inner-iterator states in which the `j`-th
/// step yields `skipped[j]`, an item the predicate rejects: the run of
/// items a filter consumes and drops before it can yield.
pub open spec fn rejected_run<I: MyIterator, P: Fn(&<I as MyIterator>::Item) -> bool>(
    p: P,
    states: Seq<I>,
    skipped: Seq<<I as MyIterator>::Item>,
) -> bool {
    &&& states.len() == skipped.len() + 1
    &&& forall|j: int|
        0 <= j < skipped.len() ==> #[trigger] I::next_ens(states[j], states[j + 1], Some(skipped[j]))
            && call_ensures(p, (&skipped[j],), false)
}

/// A filter may call `next` once its predicate accepts every item the
/// underlying iterator can yield; this lemma assembles that
/// precondition from its two parts.
pub proof fn lemma_filter_next_req<I: MyIterator, P: Fn(&<I as MyIterator>::Item) -> bool>(
    f: MyFilter<I, P>,
)
    requires
        f.spec_iter().next_req(),
        forall|x: &<I as MyIterator>::Item| #[trigger] call_requires(f.spec_filter_fn(), (x,)),
    ensures
        f.next_req(),
{
}

/// One step of a rejected run: the inner iterator stepped and yielded
/// an item the predicate rejects.
pub proof fn lemma_rejected_run_index<I: MyIterator, P: Fn(&<I as MyIterator>::Item) -> bool>(
    p: P,
    states: Seq<I>,
    skipped: Seq<<I as MyIterator>::Item>,
    j: int,
)
    requires
        rejected_run(p, states, skipped),
        0 <= j < skipped.len(),
    ensures
        I::next_ens(states[j], states[j + 1], Some(skipped[j])),
        call_ensures(p, (&skipped[j],), false),
{
    assert(I::next_ens(states[j], states[j + 1], Some(skipped[j])) && call_ensures(
        p,
        (&skipped[j],),
        false,
    ));
}

/// Extract the run a successful `next` certifies: the rejected items,
/// the inner states they stepped through, and the final step that
/// yielded `x`.
pub proof fn lemma_filter_some_run<I: MyIterator, P: Fn(&<I as MyIterator>::Item) -> bool>(
    pre: MyFilter<I, P>,
    post: MyFilter<I, P>,
    r: Option<<I as MyIterator>::Item>,
) -> (w: (Seq<I>, Seq<<I as MyIterator>::Item>))
    requires
        MyFilter::next_ens(pre, post, r),
        r is Some,
    ensures
        ({
            let (states, skipped) = w;
            let x = r->Some_0;
            &&& rejected_run(pre.spec_filter_fn(), states, skipped)
            &&& states[0] == pre.spec_iter()
            &&& I::next_ens(states[skipped.len() as int], post.spec_iter(), Some(x))
            &&& call_ensures(pre.spec_filter_fn(), (&x,), true)
        }),
{
    let x = r->Some_0;
    let (states, skipped) = choose|states: Seq<I>, skipped: Seq<<I as MyIterator>::Item>|
        {
            &&& rejected_run(pre.spec_filter_fn(), states, skipped)
            &&& states[0] == pre.spec_iter()
            &&& I::next_ens(states[skipped.len() as int], post.spec_iter(), Some(x))
        };
    (states, skipped)
}

/// Extract the run an exhausted `next` certifies: the rejected items,
/// the inner states they stepped through, and the final step that
/// reported end of stream.
pub proof fn lemma_filter_none_run<I: MyIterator, P: Fn(&<I as MyIterator>::Item) -> bool>(
    pre: MyFilter<I, P>,
    post: MyFilter<I, P>,
    r: Option<<I as MyIterator>::Item>,
) -> (w: (Seq<I>, Seq<<I as MyIterator>::Item>))
    requires
        MyFilter::next_ens(pre, post, r),
        r is None,
    ensures
        ({
            let (states, skipped) = w;
            &&& rejected_run(pre.spec_filter_fn(), states, skipped)
            &&& states[0] == pre.spec_iter()
            &&& I::next_ens(
                states[skipped.len() as int],
                post.spec_iter(),
                Option::<<I as MyIterator>::Item>::None,
            )
        }),
{
    let (states, skipped) = choose|states: Seq<I>, skipped: Seq<<I as MyIterator>::Item>|
        {
            &&& rejected_run(pre.spec_filter_fn(), states, skipped)
            &&& states[0] == pre.spec_iter()
            &&& I::next_ens(
                states[skipped.len() as int],
                post.spec_iter(),
                Option::<<I as MyIterator>::Item>::None,
            )
        };
    (states, skipped)
}

/// Yields only the items of `iter` for which `filter_fn` returns true.
pub struct MyFilter<I, P> where I: MyIterator {
    iter: I,
    filter_fn: P,
}

impl<I, P> MyFilter<I, P> where I: MyIterator {
    pub closed spec fn spec_iter(self) -> I {
        self.iter
    }

    pub closed spec fn spec_filter_fn(self) -> P {
        self.filter_fn
    }

    pub fn new(iter: I, filter_fn: P) -> (r: Self)
        ensures
            r.spec_iter() == iter,
            r.spec_filter_fn() == filter_fn,
    {
        MyFilter { iter, filter_fn }
    }
}

impl<I, P> MyFilter<I, P> where I: MyIterator, P: Fn(&I::Item) -> bool {
    /// Gather every remaining item into a collection.
    pub fn collect<C: MyFromIterator<I::Item>>(self) -> (r: C)
        requires
            self.next_req(),
        ensures
            exists|items: Seq<I::Item>|
                #[trigger] crate::my_iterator::yields_exactly(self, items) && C::built_from(
                    items,
                    r,
                ),
    {
        C::my_from_iter(self)
    }

    /// Wrap this iterator so that each item passes through `map_fn`.
    pub fn map<B2, F2: Fn(I::Item) -> B2>(self, map_fn: F2) -> (r: crate::my_map::MyMap<
        Self,
        F2,
    >)
        ensures
            r.spec_iter() == self,
            r.spec_map_fn() == map_fn,
    {
        crate::my_map::MyMap::new(self, map_fn)
    }

    /// Wrap this iterator so that only items satisfying `filter_fn` are
    /// yielded.
    pub fn filter<P2: Fn(&I::Item) -> bool>(self, filter_fn: P2) -> (r: crate::my_filter::MyFilter<
        Self,
        P2,
    >)
        ensures
            r.spec_iter() == self,
            r.spec_filter_fn() == filter_fn,
    {
        crate::my_filter::MyFilter::new(self, filter_fn)
    }

}

impl<I, P> MyIterator for MyFilter<I, P> where I: MyIterator, P: Fn(&I::Item) -> bool {
    /// The item type is that of the underlying iterator.
    type Item = I::Item;

    open spec fn next_req(&self) -> bool {
        &&& self.spec_iter().next_req()
        &&& forall|x: &I::Item| #[trigger] call_requires(self.spec_filter_fn(), (x,))
    }

    open spec fn next_ens(pre: Self, post: Self, r: Option<I::Item>) -> bool {
        &&& post.spec_filter_fn() == pre.spec_filter_fn()
        &&& match r {
            // the inner iterator stepped through a run of rejected items
            // and then yielded `x`, the first item passing the predicate
            Some(x) => call_ensures(pre.spec_filter_fn(), (&x,), true) && (exists|
                states: Seq<I>,
                skipped: Seq<I::Item>,
            |
                #![trigger rejected_run(pre.spec_filter_fn(), states, skipped)]
                {
                    &&& rejected_run(pre.spec_filter_fn(), states, skipped)
                    &&& states[0] == pre.spec_iter()
                    &&& I::next_ens(states[skipped.len() as int], post.spec_iter(), Some(x))
                }),
            // the inner iterator stepped through a run of rejected items
            // and then reported exhaustion
            None => exists|states: Seq<I>, skipped: Seq<I::Item>|
                #![trigger rejected_run(pre.spec_filter_fn(), states, skipped)]
                {
                    &&& rejected_run(pre.spec_filter_fn(), states, skipped)
                    &&& states[0] == pre.spec_iter()
                    &&& I::next_ens(
                        states[skipped.len() as int],
                        post.spec_iter(),
                        Option::<I::Item>::None,
                    )
                },
        }
    }

    open spec fn measure(&self) -> nat {
        self.spec_iter().measure()
    }

    fn next(&mut self) -> (r: Option<I::Item>) {
        let ghost start = *self;
        let ghost mut states: Seq<I> = seq![start.spec_iter()];
        let ghost mut skipped: Seq<I::Item> = Seq::empty();
        // step the underlying iterator until an item passes the filter,
        // recording the rejected run in ghost state
        loop
            invariant
                start == *old(self),
                self.next_req(),
                self.spec_filter_fn() == start.spec_filter_fn(),
                self.spec_iter().measure() <= start.spec_iter().measure(),
                rejected_run(start.spec_filter_fn(), states, skipped),
                states[0] == start.spec_iter(),
                states[states.len() - 1] == self.spec_iter(),
            decreases self.spec_iter().measure(),
        {
            let ghost head = *self;
            let ghost prev = states;
            let ghost prev_skipped = skipped;
            let step = self.iter.next();
            proof {
                assert(forall|z: &I::Item| #[trigger] call_requires(
                    head.spec_filter_fn(),
                    (z,),
                ));
                assert(self.spec_filter_fn() == head.spec_filter_fn());
                assert(forall|z: &I::Item| #[trigger] call_requires(
                    self.spec_filter_fn(),
                    (z,),
                ));
            }
            match step {
                Some(x) => {
                    let keep = (self.filter_fn)(&x);
                    if keep {
                        proof {
                            assert(self.spec_filter_fn() == old(self).spec_filter_fn());
                            assert(call_ensures(old(self).spec_filter_fn(), (&x,), true));
                            assert(rejected_run(old(self).spec_filter_fn(), states, skipped));
                            assert(I::next_ens(
                                states[skipped.len() as int],
                                self.spec_iter(),
                                Some(x),
                            ));
                            assert(self.spec_iter().measure() < start.spec_iter().measure());
                        }
                        return Some(x);
                    } else {
                        proof {
                            states = states.push(self.spec_iter());
                            skipped = skipped.push(x);
                            assert(I::next_ens(head.spec_iter(), self.spec_iter(), Some(x)));
                            assert(call_ensures(start.spec_filter_fn(), (&x,), false));
                            assert forall|j: int|
                                0 <= j < skipped.len() implies #[trigger] I::next_ens(
                                states[j],
                                states[j + 1],
                                Some(skipped[j]),
                            ) && call_ensures(
                                start.spec_filter_fn(),
                                (&skipped[j],),
                                false,
                            ) by {
                                if j < skipped.len() - 1 {
                                    assert(states[j] == prev[j]);
                                    assert(states[j + 1] == prev[j + 1]);
                                    assert(skipped[j] == prev_skipped[j]);
                                } else {
                                    assert(states[j] == prev[j]);
                                    assert(states[j + 1] == self.spec_iter());
                                    assert(skipped[j] == x);
                                }
                            };
                        }
                    }
                },
                None => {
                    proof {
                        assert(rejected_run(old(self).spec_filter_fn(), states, skipped));
                        assert(I::next_ens(
                            states[skipped.len() as int],
                            self.spec_iter(),
                            Option::<I::Item>::None,
                        ));
                    }
                    return None;
                },
            }
        }
    }
}

} // verus!
