//! A FIFO channel of fixed capacity (or unbounded) with a closed flag.
//!
//! `send` reports `Full` instead of suspending and `recv` reports `Pending`
//! instead of suspending: a caller that drives the pipeline retries when the
//! other side has made progress. Once the channel is closed and drained,
//! every further `recv` yields `Done` and every `send` fails.

use vstd::prelude::*;

verus! {

/// Capacity of a channel: a fixed bound of at least one, or unbounded.
#[derive(Clone, Copy, Debug, PartialEq, Eq, Structural)]
pub enum Capacity {
    Bounded(usize),
    Unbounded,
}

impl Capacity {
    /// A bounded capacity must be at least one.
    pub open spec fn is_valid(self) -> bool {
        match self {
            Capacity::Bounded(c) => c >= 1,
            Capacity::Unbounded => true,
        }
    }

    /// Whether a buffer currently holding `len` items may take one more.
    pub open spec fn admits(self, len: nat) -> bool {
        match self {
            Capacity::Bounded(c) => len < c,
            Capacity::Unbounded => true,
        }
    }

    /// Whether a buffer holding `len` items respects this capacity.
    pub open spec fn respects(self, len: nat) -> bool {
        match self {
            Capacity::Bounded(c) => len <= c,
            Capacity::Unbounded => true,
        }
    }
}

/// What happened to a `send` attempt.
#[derive(Clone, Copy, Debug, PartialEq, Eq, Structural)]
pub enum SendOutcome {
    /// The item was appended to the buffer.
    Sent,
    /// The buffer is at capacity; the caller should retry after the
    /// reader has made progress.
    Full,
    /// The channel was closed; the item is rejected.
    Rejected,
}

/// What a `recv` attempt yielded.
#[derive(Debug, PartialEq, Eq)]
pub enum RecvOutcome<T> {
    /// The oldest buffered item.
    Item(T),
    /// Nothing buffered, but the writer may still send; retry later.
    Pending,
    /// Nothing buffered and the channel is closed: end of stream.
    Done,
}

/// A FIFO queue of capacity `capacity` with a closed flag.
///
/// Invariant: when the capacity is `Bounded(c)`, the buffer never holds
/// more than `c` items, whatever sequence of operations is applied.
pub struct Channel<T> {
    buffer: Vec<T>,
    capacity: Capacity,
    closed: bool,
}

impl<T> Channel<T> {
    /// The buffered items, oldest first.
    pub closed spec fn contents(self) -> Seq<T> {
        self.buffer@
    }

    pub closed spec fn spec_capacity(self) -> Capacity {
        self.capacity
    }

    pub closed spec fn spec_is_closed(self) -> bool {
        self.closed
    }

    /// Well-formedness: the capacity is valid and the buffer respects it.
    pub closed spec fn wf(self) -> bool {
        &&& self.capacity.is_valid()
        &&& self.capacity.respects(self.buffer@.len())
    }

    /// An open, empty channel of the given capacity.
    pub fn new(capacity: Capacity) -> (ch: Self)
        requires
            capacity.is_valid(),
        ensures
            ch.wf(),
            ch.contents() == Seq::<T>::empty(),
            ch.spec_capacity() == capacity,
            !ch.spec_is_closed(),
    {
        Channel { buffer: Vec::new(), capacity, closed: false }
    }

    /// Attempt to append `item`. Fails on a closed channel; reports `Full`
    /// (leaving the buffer unchanged) when the buffer is at capacity.
    pub fn send(&mut self, item: T) -> (r: SendOutcome)
        requires
            old(self).wf(),
        ensures
            final(self).wf(),
            final(self).spec_capacity() == old(self).spec_capacity(),
            final(self).spec_is_closed() == old(self).spec_is_closed(),
            old(self).spec_is_closed() ==> r == SendOutcome::Rejected,
            r == SendOutcome::Rejected ==> old(self).spec_is_closed(),
            r == SendOutcome::Sent ==> final(self).contents() == old(self).contents().push(item),
            r != SendOutcome::Sent ==> final(self).contents() == old(self).contents(),
            (!old(self).spec_is_closed() && old(self).spec_capacity().admits(
                old(self).contents().len(),
            )) ==> r == SendOutcome::Sent,
            r == SendOutcome::Full <==> (!old(self).spec_is_closed()
                && !old(self).spec_capacity().admits(old(self).contents().len())),
    {
        if self.closed {
            return SendOutcome::Rejected;
        }
        let has_room = match self.capacity {
            Capacity::Bounded(c) => self.buffer.len() < c,
            Capacity::Unbounded => true,
        };
        if has_room {
            self.buffer.push(item);
            SendOutcome::Sent
        } else {
            SendOutcome::Full
        }
    }

    /// Take the oldest buffered item; `Pending` while empty and open,
    /// `Done` once empty and closed.
    pub fn recv(&mut self) -> (r: RecvOutcome<T>)
        requires
            old(self).wf(),
        ensures
            final(self).wf(),
            final(self).spec_capacity() == old(self).spec_capacity(),
            final(self).spec_is_closed() == old(self).spec_is_closed(),
            old(self).contents().len() > 0 ==> (r == RecvOutcome::Item(
                old(self).contents()[0],
            ) && final(self).contents() == old(self).contents().drop_first()),
            old(self).contents().len() == 0 ==> final(self).contents() == old(self).contents(),
            (old(self).contents().len() == 0 && !old(self).spec_is_closed()) ==> r
                == RecvOutcome::<T>::Pending,
            (old(self).contents().len() == 0 && old(self).spec_is_closed()) ==> r
                == RecvOutcome::<T>::Done,
    {
        if self.buffer.len() == 0 {
            if self.closed {
                RecvOutcome::Done
            } else {
                RecvOutcome::Pending
            }
        } else {
            let item = self.buffer.remove(0);
            RecvOutcome::Item(item)
        }
    }

    /// Forbid further sends. Idempotent; already-buffered items stay and
    /// may still be drained.
    pub fn close(&mut self)
        requires
            old(self).wf(),
        ensures
            final(self).wf(),
            final(self).spec_capacity() == old(self).spec_capacity(),
            final(self).spec_is_closed(),
            final(self).contents() == old(self).contents(),
    {
        self.closed = true;
    }

    pub fn len(&self) -> (n: usize)
        ensures
            n == self.contents().len(),
    {
        self.buffer.len()
    }

    pub fn is_closed(&self) -> (b: bool)
        ensures
            b == self.spec_is_closed(),
    {
        self.closed
    }

    /// Backpressure bounds memory: a well-formed channel of bounded
    /// capacity `c` never buffers more than `c` items, at any observation
    /// point. `send`, `recv` and `close` all preserve `wf`, so this holds
    /// throughout a channel's life.
    pub proof fn lemma_backpressure_bound(self, c: usize)
        requires
            self.wf(),
            self.spec_capacity() == Capacity::Bounded(c),
        ensures
            self.contents().len() <= c,
    {
    }
}

} // verus!
