//! An iterator that applies a function to each item of another iterator.

use crate::my_from_iterator::MyFromIterator;
use crate::my_iterator::MyIterator;
use vstd::prelude::*;

verus! {

/// A map may call `next` once its function accepts every item the
/// underlying iterator can yield; this lemma assembles that
/// precondition from its two parts.
pub proof fn lemma_map_next_req<B, I: MyIterator, F: Fn(<I as MyIterator>::Item) -> B>(
    m: MyMap<I, F>,
)
    requires
        m.spec_iter().next_req(),
        forall|x: <I as MyIterator>::Item| #[trigger] call_requires(m.spec_map_fn(), (x,)),
    ensures
        m.next_req(),
{
}

/// Extract the step a successful `next` certifies: the inner item that
/// was yielded and mapped into the result.
pub proof fn lemma_map_some_step<B, I: MyIterator, F: Fn(<I as MyIterator>::Item) -> B>(
    pre: MyMap<I, F>,
    post: MyMap<I, F>,
    r: Option<B>,
) -> (x: <I as MyIterator>::Item)
    requires
        MyMap::next_ens(pre, post, r),
        r is Some,
    ensures
        I::next_ens(pre.spec_iter(), post.spec_iter(), Some(x)),
        call_ensures(pre.spec_map_fn(), (x,), r->Some_0),
{
    let y = r->Some_0;
    let x = choose|x: <I as MyIterator>::Item|
        I::next_ens(pre.spec_iter(), post.spec_iter(), Some(x)) && call_ensures(
            pre.spec_map_fn(),
            (x,),
            y,
        );
    x
}

/// Applies `map_fn` to every item `iter` yields.
pub struct MyMap<I, F> where I: MyIterator {
    iter: I,
    map_fn: F,
}

impl<I, F> MyMap<I, F> where I: MyIterator {
    pub closed spec fn spec_iter(self) -> I {
        self.iter
    }

    pub closed spec fn spec_map_fn(self) -> F {
        self.map_fn
    }

    pub fn new(iter: I, map_fn: F) -> (r: Self)
        ensures
            r.spec_iter() == iter,
            r.spec_map_fn() == map_fn,
    {
        MyMap { iter, map_fn }
    }
}

impl<B, I, F> MyMap<I, F> where I: MyIterator, F: Fn(I::Item) -> B {
    /// Gather every remaining item into a collection.
    pub fn collect<C: MyFromIterator<B>>(self) -> (r: C)
        requires
            self.next_req(),
        ensures
            exists|items: Seq<B>|
                #[trigger] crate::my_iterator::yields_exactly(self, items) && C::built_from(
                    items,
                    r,
                ),
    {
        C::my_from_iter(self)
    }

    /// Wrap this iterator so that each item passes through `map_fn`.
    pub fn map<B2, F2: Fn(B) -> B2>(self, map_fn: F2) -> (r: crate::my_map::MyMap<
        Self,
        F2,
    >)
        ensures
            r.spec_iter() == self,
            r.spec_map_fn() == map_fn,
    {
        crate::my_map::MyMap::new(self, map_fn)
    }

    /// Wrap this iterator so that only items satisfying `filter_fn` are
    /// yielded.
    pub fn filter<P2: Fn(&B) -> bool>(self, filter_fn: P2) -> (r: crate::my_filter::MyFilter<
        Self,
        P2,
    >)
        ensures
            r.spec_iter() == self,
            r.spec_filter_fn() == filter_fn,
    {
        crate::my_filter::MyFilter::new(self, filter_fn)
    }

}

impl<B, I, F> MyIterator for MyMap<I, F> where I: MyIterator, F: Fn(I::Item) -> B {
    /// The item type is whatever the mapping function returns.
    type Item = B;

    open spec fn next_req(&self) -> bool {
        &&& self.spec_iter().next_req()
        &&& forall|x: I::Item| #[trigger] call_requires(self.spec_map_fn(), (x,))
    }

    open spec fn next_ens(pre: Self, post: Self, r: Option<B>) -> bool {
        &&& post.spec_map_fn() == pre.spec_map_fn()
        &&& match r {
            Some(y) => exists|x: I::Item|
                I::next_ens(pre.spec_iter(), post.spec_iter(), Some(x)) && call_ensures(
                    pre.spec_map_fn(),
                    (x,),
                    y,
                ),
            None => I::next_ens(pre.spec_iter(), post.spec_iter(), Option::<I::Item>::None),
        }
    }

    open spec fn measure(&self) -> nat {
        self.spec_iter().measure()
    }

    fn next(&mut self) -> (r: Option<B>) {
        let step = self.iter.next();
        proof {
            assert(forall|z: I::Item| #[trigger] call_requires(old(self).spec_map_fn(), (z,)));
            assert(old(self).spec_map_fn() == self.spec_map_fn());
            assert(forall|z: I::Item| #[trigger] call_requires(self.spec_map_fn(), (z,)));
        }
        match step {
            Some(x) => {
                let y = (self.map_fn)(x);
                proof {
                    assert(I::next_ens(old(self).spec_iter(), self.spec_iter(), Some(x)));
                    assert(call_ensures(old(self).spec_map_fn(), (x,), y));
                }
                Some(y)
            },
            None => None,
        }
    }
}

} // verus!
