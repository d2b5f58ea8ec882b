//! An iterator over a slice, yielding references to its elements.

use crate::my_iterator::steps_through;
use crate::my_iterator::yields_exactly;
use crate::my_iterator::MyIterator;
use vstd::prelude::*;

verus! {

/// Stepping a slice iterator along a chain is fully determined: after
/// `j` yielding steps the position has advanced by `j`, the slice is
/// unchanged, and the items yielded so far are the slice's elements from
/// the starting position, in order.
pub proof fn lemma_slice_chain<'a, T>(
    states: Seq<SliceIterator<'a, T>>,
    items: Seq<&'a T>,
    j: int,
)
    requires
        steps_through(states, items),
        0 <= j <= items.len(),
    ensures
        states[j].spec_data() == states[0].spec_data(),
        states[j].spec_pos() == states[0].spec_pos() + j,
        j > 0 ==> states[0].spec_pos() + j <= states[0].spec_data().len(),
        forall|i: int|
            0 <= i < j ==> *items[i] == states[0].spec_data()[states[0].spec_pos() + i],
    decreases j,
{
    if j > 0 {
        let jj = j - 1;
        lemma_slice_chain(states, items, jj);
        assert(SliceIterator::next_ens(states[jj], states[jj + 1], Some(items[jj])));
        assert(states[jj + 1] == states[j]);
    }
}

/// A slice iterator started at the front yields exactly the elements of
/// its slice, in order.
pub proof fn lemma_slice_yields_exactly<'a, T>(start: SliceIterator<'a, T>, items: Seq<&'a T>)
    requires
        yields_exactly(start, items),
        start.spec_pos() == 0,
    ensures
        items.len() == start.spec_data().len(),
        forall|i: int| 0 <= i < items.len() ==> *items[i] == start.spec_data()[i],
{
    let (states, fin): (Seq<SliceIterator<'a, T>>, SliceIterator<'a, T>) = choose|
        states: Seq<SliceIterator<'a, T>>,
        fin: SliceIterator<'a, T>,
    |
        {
            &&& steps_through(states, items)
            &&& states[0] == start
            &&& SliceIterator::next_ens(states[items.len() as int], fin, Option::<&'a T>::None)
        };
    lemma_slice_chain(states, items, items.len() as int);
}

/// Steps through `data` front to back; the lifetime ties each yielded
/// reference to the slice it points into.
pub struct SliceIterator<'a, T> {
    data: &'a [T],
    pos: usize,
}

impl<'a, T> SliceIterator<'a, T> {
    /// The elements of the underlying slice.
    pub closed spec fn spec_data(self) -> Seq<T> {
        self.data@
    }

    /// How many elements have been yielded so far.
    pub closed spec fn spec_pos(self) -> int {
        self.pos as int
    }

    /// Gather every remaining item into a collection.
    pub fn collect<C: crate::my_from_iterator::MyFromIterator<&'a T>>(self) -> (r: C)
        ensures
            exists|items: Seq<&'a T>|
                #[trigger] crate::my_iterator::yields_exactly(self, items) && C::built_from(
                    items,
                    r,
                ),
    {
        C::my_from_iter(self)
    }

    /// Wrap this iterator so that each item passes through `map_fn`.
    pub fn map<B2, F2: Fn(&'a T) -> B2>(self, map_fn: F2) -> (r: crate::my_map::MyMap<
        Self,
        F2,
    >)
        ensures
            r.spec_iter() == self,
            r.spec_map_fn() == map_fn,
    {
        crate::my_map::MyMap::new(self, map_fn)
    }

    /// Wrap this iterator so that only items satisfying `filter_fn` are
    /// yielded.
    pub fn filter<P2: Fn(&&'a T) -> bool>(self, filter_fn: P2) -> (r: crate::my_filter::MyFilter<
        Self,
        P2,
    >)
        ensures
            r.spec_iter() == self,
            r.spec_filter_fn() == filter_fn,
    {
        crate::my_filter::MyFilter::new(self, filter_fn)
    }

    pub fn new(data: &'a [T]) -> (r: Self)
        ensures
            r.spec_data() == data@,
            r.spec_pos() == 0,
    {
        SliceIterator { data, pos: 0 }
    }
}

impl<'a, T> MyIterator for SliceIterator<'a, T> {
    /// A reference into the slice, which must not outlive it.
    type Item = &'a T;

    open spec fn next_req(&self) -> bool {
        true
    }

    open spec fn next_ens(pre: Self, post: Self, r: Option<&'a T>) -> bool {
        &&& post.spec_data() == pre.spec_data()
        &&& if pre.spec_pos() < pre.spec_data().len() {
            &&& r is Some
            &&& *r->Some_0 == pre.spec_data()[pre.spec_pos()]
            &&& post.spec_pos() == pre.spec_pos() + 1
        } else {
            &&& r is None
            &&& post.spec_pos() == pre.spec_pos()
        }
    }

    open spec fn measure(&self) -> nat {
        if self.spec_pos() <= self.spec_data().len() {
            (self.spec_data().len() - self.spec_pos()) as nat
        } else {
            0
        }
    }

    fn next(&mut self) -> (r: Option<&'a T>) {
        if self.pos >= self.data.len() {
            None
        } else {
            let result = Some(&self.data[self.pos]);
            self.pos = self.pos + 1;
            result
        }
    }
}

} // verus!
