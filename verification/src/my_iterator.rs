//! Main iterator trait: how a type is stepped through, one item at a time.
//!
//! Each implementor states its own stepping contract through three spec
//! functions: `next_req` says what a call of `next` needs of the state
//! (and is preserved by it), `next_ens` relates the state before, the
//! state after and the result of one step, and `measure` bounds the
//! remaining `Some` steps, so that loops over an iterator terminate.

use vstd::prelude::*;

verus! {

pub trait MyIterator: Sized {
    /// The type of the elements being iterated over.
    type Item;

    /// What `next` requires of the iterator's state.
    spec fn next_req(&self) -> bool;

    /// What one call of `next` relates: the iterator before the call, the
    /// iterator after it, and the result.
    spec fn next_ens(pre: Self, post: Self, r: Option<Self::Item>) -> bool;

    /// An upper bound on the number of remaining `Some` steps.
    spec fn measure(&self) -> nat;

    fn next(&mut self) -> (r: Option<Self::Item>)
        requires
            old(self).next_req(),
        ensures
            final(self).next_req(),
            Self::next_ens(*old(self), *final(self), r),
            r is Some ==> final(self).measure() < old(self).measure(),
            r is None ==> final(self).measure() <= old(self).measure(),
    ;

}

/// `states` is a chain of iterator states in which the `j`-th step
/// yields `items[j]`: `states[0]` steps to `states[1]` yielding
/// `items[0]`, and so on.
pub open spec fn steps_through<I: MyIterator>(states: Seq<I>, items: Seq<I::Item>) -> bool {
    &&& states.len() == items.len() + 1
    &&& forall|j: int|
        0 <= j < items.len() ==> #[trigger] I::next_ens(states[j], states[j + 1], Some(items[j]))
}

/// Stepped from `start`, the iterator yields exactly `items`, in this
/// order, and then reports exhaustion: no item is lost, added or
/// reordered on the way into a collection built from it.
pub open spec fn yields_exactly<I: MyIterator>(start: I, items: Seq<I::Item>) -> bool {
    exists|states: Seq<I>, fin: I|
        #![trigger steps_through(states, items), I::next_ens(
            states[items.len() as int],
            fin,
            Option::<I::Item>::None,
        )]
        {
            &&& steps_through(states, items)
            &&& states[0] == start
            &&& I::next_ens(states[items.len() as int], fin, Option::<I::Item>::None)
        }
}

} // verus!
