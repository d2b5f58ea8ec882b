//! Source and sink adapters.
//!
//! The source adapter feeds a finite sequence into the pipeline's first
//! channel, as far as the channel's capacity allows, and closes it when
//! the sequence is exhausted. The sink adapter drains the terminal
//! channel of everything it currently buffers.

use crate::channel::Channel;
use crate::channel::RecvOutcome;
use crate::channel::SendOutcome;
use vstd::prelude::*;

verus! {

/// Send `source[from..]` into the channel, stopping at the first item the
/// channel does not take; returns the index of the first item not sent.
/// A well-behaved driver calls again, from that index, once the reader
/// has drained some of the buffer.
pub fn feed_source<T: Copy>(source: &Vec<T>, from: usize, ch: &mut Channel<T>) -> (k: usize)
    requires
        old(ch).wf(),
        from <= source@.len(),
    ensures
        final(ch).wf(),
        from <= k <= source@.len(),
        final(ch).spec_capacity() == old(ch).spec_capacity(),
        final(ch).spec_is_closed() == old(ch).spec_is_closed(),
        final(ch).contents() == old(ch).contents() + source@.subrange(from as int, k as int),
        old(ch).spec_is_closed() ==> k == from,
        (k < source@.len() && !old(ch).spec_is_closed()) ==> !final(ch).spec_capacity().admits(
            final(ch).contents().len(),
        ),
{
    let mut k = from;
    while k < source.len()
        invariant
            from <= k <= source@.len(),
            ch.wf(),
            ch.spec_capacity() == old(ch).spec_capacity(),
            ch.spec_is_closed() == old(ch).spec_is_closed(),
            ch.contents() == old(ch).contents() + source@.subrange(from as int, k as int),
            old(ch).spec_is_closed() ==> k == from,
        decreases source@.len() - k,
    {
        let item = source[k];
        let outcome = ch.send(item);
        match outcome {
            SendOutcome::Sent => {
                proof {
                    assert(source@.subrange(from as int, k + 1 as int) =~= source@.subrange(
                        from as int,
                        k as int,
                    ).push(source@[k as int]));
                    assert(ch.contents() =~= old(ch).contents() + source@.subrange(
                        from as int,
                        k + 1 as int,
                    ));
                }
                k = k + 1;
            },
            _ => {
                return k;
            },
        }
    }
    k
}

/// Close the first channel once the source is exhausted: further sends
/// fail, and the reader sees end of stream after draining.
pub fn finish_source<T>(ch: &mut Channel<T>)
    requires
        old(ch).wf(),
    ensures
        final(ch).wf(),
        final(ch).spec_capacity() == old(ch).spec_capacity(),
        final(ch).spec_is_closed(),
        final(ch).contents() == old(ch).contents(),
{
    ch.close();
}

/// Drain everything the terminal channel currently buffers, oldest first.
/// After the writer has closed the channel this is the whole remaining
/// output stream.
pub fn drain_sink<T>(ch: &mut Channel<T>) -> (out: Vec<T>)
    requires
        old(ch).wf(),
    ensures
        final(ch).wf(),
        final(ch).spec_capacity() == old(ch).spec_capacity(),
        final(ch).spec_is_closed() == old(ch).spec_is_closed(),
        out@ == old(ch).contents(),
        final(ch).contents().len() == 0,
{
    let mut out: Vec<T> = Vec::new();
    while ch.len() > 0
        invariant
            ch.wf(),
            ch.spec_capacity() == old(ch).spec_capacity(),
            ch.spec_is_closed() == old(ch).spec_is_closed(),
            out@ + ch.contents() == old(ch).contents(),
        decreases ch.contents().len(),
    {
        let r = ch.recv();
        match r {
            RecvOutcome::Item(x) => {
                out.push(x);
                proof {
                    assert(out@ + ch.contents() =~= old(ch).contents());
                }
            },
            _ => {
                proof {
                    assert(false);
                }
            },
        }
    }
    proof {
        assert(out@ =~= old(ch).contents());
    }
    out
}

} // verus!
