//! The scheduling state of one stage's worker pool.
//!
//! A pool admits items one at a time, tagging each with a sequence number
//! (its admission rank). Completions may arrive in any order; the pool
//! decides what is handed downstream and when:
//!
//! - `Unordered(n)`: a completion is emitted immediately, so output order
//!   is completion order.
//! - `Ordered(n)`: a completion is held in a reorder window and emitted
//!   only once every earlier sequence number has been emitted, so output
//!   order is admission order.
//!
//! The pool tracks only sequence numbers and completed outputs; the input
//! item itself travels with the running computation, which the caller
//! identifies by the task's sequence number. Ghost state records the full
//! history (which sequence completed with which output, in which order,
//! and what was emitted), so that callers can prove the accounting laws:
//! nothing is lost, nothing is duplicated, and an ordered pool emits in
//! admission order.

use crate::policy::Concurrency;
use vstd::prelude::*;

verus! {

/// Bookkeeping shared by both policies: removing a completed rank from the
/// pending list, recording its output, and appending the rank to the
/// completion order preserves the accounting clauses of the pool invariant.
proof fn lemma_completion_bookkeeping<O>(
    pending: Seq<usize>,
    completed: Map<int, O>,
    comp_order: Seq<int>,
    next_seq: int,
    k: int,
    out: O,
)
    requires
        0 <= k < pending.len(),
        0 <= next_seq <= usize::MAX,
        forall|i: int, j: int| 0 <= i < j < pending.len() ==> pending[i] < pending[j],
        forall|i: int| 0 <= i < pending.len() ==> pending[i] < next_seq,
        forall|i: int| 0 <= i < pending.len() ==> !completed.dom().contains(pending[i] as int),
        forall|i: int, j: int| 0 <= i < j < comp_order.len() ==> comp_order[i] != comp_order[j],
        forall|i: int|
            0 <= i < comp_order.len() ==> completed.dom().contains(#[trigger] comp_order[i]),
        forall|s: int| #[trigger]
            completed.dom().contains(s) ==> 0 <= s < next_seq && comp_order.contains(s),
        forall|s: int|
            0 <= s < next_seq ==> (completed.dom().contains(s) || pending.contains(s as usize)),
    ensures
        ({
            let sq = pending[k] as int;
            let pending2 = pending.remove(k);
            let completed2 = completed.insert(sq, out);
            let comp2 = comp_order.push(sq);
            &&& forall|i: int, j: int| 0 <= i < j < pending2.len() ==> pending2[i] < pending2[j]
            &&& forall|i: int| 0 <= i < pending2.len() ==> pending2[i] < next_seq
            &&& forall|i: int|
                0 <= i < pending2.len() ==> !completed2.dom().contains(pending2[i] as int)
            &&& forall|i: int, j: int| 0 <= i < j < comp2.len() ==> comp2[i] != comp2[j]
            &&& forall|i: int|
                0 <= i < comp2.len() ==> completed2.dom().contains(#[trigger] comp2[i])
            &&& forall|s: int| #[trigger]
                completed2.dom().contains(s) ==> 0 <= s < next_seq && comp2.contains(s)
            &&& forall|s: int|
                0 <= s < next_seq ==> (completed2.dom().contains(s) || pending2.contains(
                    s as usize,
                ))
        }),
{
    let sq = pending[k] as int;
    let pending2 = pending.remove(k);
    let completed2 = completed.insert(sq, out);
    let comp2 = comp_order.push(sq);
    pending.remove_ensures(k);
    assert forall|i: int, j: int| 0 <= i < j < pending2.len() implies pending2[i] < pending2[j] by {
        if j >= k {
            assert(pending2[j] == pending[j + 1]);
        }
        if i >= k {
            assert(pending2[i] == pending[i + 1]);
        }
    };
    assert forall|i: int| 0 <= i < pending2.len() implies pending2[i] < next_seq by {
        if i >= k {
            assert(pending2[i] == pending[i + 1]);
        }
    };
    assert forall|i: int|
        0 <= i < pending2.len() implies !completed2.dom().contains(pending2[i] as int) by {
        let m: int = if i < k {
            i
        } else {
            i + 1
        };
        assert(pending2[i] == pending[m]);
        if m < k {
            assert(pending[m] < pending[k]);
        } else {
            assert(pending[k] < pending[m]);
        }
    };
    assert forall|i: int, j: int| 0 <= i < j < comp2.len() implies comp2[i] != comp2[j] by {
        if j == comp_order.len() {
            assert(completed.dom().contains(comp2[i]));
            assert(!completed.dom().contains(sq));
        }
    };
    assert forall|s: int|
        completed2.dom().contains(s) implies 0 <= s < next_seq && comp2.contains(s) by {
        if s == sq {
            assert(pending[k] < next_seq);
            assert(comp2[comp_order.len() as int] == s);
        } else {
            assert(completed.dom().contains(s));
            assert(comp_order.contains(s));
            let i = choose|i: int| 0 <= i < comp_order.len() && comp_order[i] == s;
            assert(comp2[i] == s);
        }
    };
    assert forall|s: int|
        0 <= s < next_seq implies (completed2.dom().contains(s) || pending2.contains(
        s as usize,
    )) by {
        if !completed2.dom().contains(s) {
            assert(s != sq);
            assert(!completed.dom().contains(s));
            assert(pending.contains(s as usize));
            let i = choose|i: int| 0 <= i < pending.len() && pending[i] == s as usize;
            assert(pending[i] as int == s);
            if i < k {
                assert(pending2[i] == pending[i]);
                assert(pending2.contains(s as usize));
            } else {
                assert(i != k);
                assert(pending2[i - 1] == pending[i]);
                assert(pending2.contains(s as usize));
            }
        }
    };
}

/// Scheduling state of one stage: in-flight sequence numbers, the reorder
/// window (ordered policy only), and the ghost history of completions and
/// emissions.
pub struct StagePool<O> {
    policy: Concurrency,
    /// Sequence number the next admission will get = number admitted so far.
    next_seq: usize,
    /// Number of items emitted downstream so far.
    emitted_count: usize,
    /// Sequence numbers admitted but not yet completed, in admission order.
    pending: Vec<usize>,
    /// Ordered policy only: slot `j` belongs to sequence number
    /// `emitted_count + j`; `Some` holds a completed output waiting for its
    /// turn. Empty under the unordered policy.
    waiting: Vec<Option<O>>,
    /// Everything emitted downstream, in emission order.
    emitted: Ghost<Seq<O>>,
    /// Output of every completed sequence number.
    completed: Ghost<Map<int, O>>,
    /// Sequence numbers in the order their completions were recorded.
    comp_order: Ghost<Seq<int>>,
}

impl<O> StagePool<O> {
    pub closed spec fn spec_policy(self) -> Concurrency {
        self.policy
    }

    /// Number of items admitted so far; also the next sequence number.
    pub closed spec fn admitted(self) -> int {
        self.next_seq as int
    }

    /// Everything emitted downstream so far, in emission order.
    pub closed spec fn emitted_log(self) -> Seq<O> {
        self.emitted@
    }

    /// The output each completed sequence number produced.
    pub closed spec fn completed_map(self) -> Map<int, O> {
        self.completed@
    }

    /// Sequence numbers in completion order.
    pub closed spec fn completion_order(self) -> Seq<int> {
        self.comp_order@
    }

    /// Sequence numbers admitted but not yet completed, in admission order.
    pub closed spec fn pending_seqs(self) -> Seq<usize> {
        self.pending@
    }

    /// How much of the stage's concurrency budget is occupied. Under the
    /// ordered policy a completed-but-unemitted task still occupies its
    /// window slot; under the unordered policy only uncompleted tasks count.
    pub closed spec fn spec_load(self) -> int {
        if self.policy.spec_is_ordered() {
            self.next_seq - self.emitted_count
        } else {
            self.pending@.len() as int
        }
    }

    /// The pool's invariant, preserved by every operation.
    pub closed spec fn wf(self) -> bool {
        &&& self.policy.is_valid()
        &&& self.spec_load() <= self.policy.spec_width()
        &&& self.emitted_count <= self.next_seq
        &&& self.emitted@.len() == self.emitted_count
        // pending: strictly increasing admission ranks, none completed
        &&& (forall|i: int, j: int|
            0 <= i < j < self.pending@.len() ==> self.pending@[i] < self.pending@[j])
        &&& (forall|i: int|
            0 <= i < self.pending@.len() ==> self.pending@[i] < self.next_seq)
        &&& (forall|i: int|
            0 <= i < self.pending@.len() ==> !self.completed@.dom().contains(
                self.pending@[i] as int,
            ))
        // completion order: each completed sequence number exactly once
        &&& (forall|i: int, j: int|
            0 <= i < j < self.comp_order@.len() ==> self.comp_order@[i] != self.comp_order@[j])
        &&& (forall|i: int|
            0 <= i < self.comp_order@.len() ==> self.completed@.dom().contains(
                #[trigger] self.comp_order@[i],
            ))
        &&& (forall|s: int| #[trigger]
            self.completed@.dom().contains(s) ==> 0 <= s < self.next_seq
                && self.comp_order@.contains(s))
        // every admitted sequence number is completed or still pending
        &&& (forall|s: int|
            0 <= s < self.next_seq ==> (self.completed@.dom().contains(s)
                || self.pending@.contains(s as usize)))
        &&& if self.policy.spec_is_ordered() {
            &&& self.waiting@.len() == self.next_seq - self.emitted_count
            // emitted prefix: in admission order, straight from the history
            &&& (forall|s: int|
                0 <= s < self.emitted_count ==> self.completed@.dom().contains(s))
            &&& (forall|s: int|
                0 <= s < self.emitted_count ==> self.emitted@[s] == self.completed@[s])
            // the reorder window mirrors the history
            &&& (forall|j: int|
                0 <= j < self.waiting@.len() ==> match #[trigger] self.waiting@[j] {
                    Some(o) => self.completed@.dom().contains(self.emitted_count + j)
                        && self.completed@[self.emitted_count + j] == o,
                    None => !self.completed@.dom().contains(self.emitted_count + j),
                })
            // the head of the window has not completed, else it would have
            // been emitted already
            &&& (self.emitted_count < self.next_seq ==> !self.completed@.dom().contains(
                self.emitted_count as int,
            ))
        } else {
            &&& self.waiting@.len() == 0
            // every completion was emitted at once, in completion order
            &&& self.emitted_count + self.pending@.len() == self.next_seq
            &&& self.comp_order@.len() == self.emitted@.len()
            &&& (forall|i: int|
                0 <= i < self.emitted@.len() ==> self.completed@.dom().contains(
                    #[trigger] self.comp_order@[i],
                ) && self.emitted@[i] == self.completed@[self.comp_order@[i]])
        }
    }

    /// A fresh pool with nothing admitted.
    pub fn new(policy: Concurrency) -> (pool: Self)
        requires
            policy.is_valid(),
        ensures
            pool.wf(),
            pool.spec_policy() == policy,
            pool.admitted() == 0,
            pool.emitted_log() == Seq::<O>::empty(),
            pool.completed_map() == Map::<int, O>::empty(),
            pool.completion_order() == Seq::<int>::empty(),
            pool.pending_seqs() == Seq::<usize>::empty(),
            pool.spec_load() == 0,
    {
        StagePool {
            policy,
            next_seq: 0,
            emitted_count: 0,
            pending: Vec::new(),
            waiting: Vec::new(),
            emitted: Ghost(Seq::empty()),
            completed: Ghost(Map::empty()),
            comp_order: Ghost(Seq::empty()),
        }
    }

    pub fn policy(&self) -> (p: Concurrency)
        ensures
            p == self.spec_policy(),
    {
        self.policy
    }

    /// How much of the concurrency budget is occupied.
    pub fn load(&self) -> (n: usize)
        requires
            self.wf(),
        ensures
            n == self.spec_load(),
    {
        if self.policy.is_ordered() {
            self.waiting.len()
        } else {
            self.pending.len()
        }
    }

    /// Whether a further item may be admitted under the policy's limit.
    pub fn has_slot(&self) -> (b: bool)
        requires
            self.wf(),
        ensures
            b == (self.spec_load() < self.spec_policy().spec_width()),
    {
        self.load() < self.policy.width()
    }

    pub fn pending_count(&self) -> (n: usize)
        ensures
            n == self.pending_seqs().len(),
    {
        self.pending.len()
    }

    /// The sequence number of the `k`-th task that is still running.
    pub fn pending_seq(&self, k: usize) -> (sq: usize)
        requires
            self.wf(),
            k < self.pending_seqs().len(),
        ensures
            sq == self.pending_seqs()[k as int],
            sq < self.admitted(),
    {
        self.pending[k]
    }

    /// Admit the next item: it receives the next sequence number and joins
    /// the in-flight set.
    pub fn accept(&mut self) -> (sq: usize)
        requires
            old(self).wf(),
            old(self).spec_load() < old(self).spec_policy().spec_width(),
            old(self).admitted() < usize::MAX,
        ensures
            final(self).wf(),
            sq == old(self).admitted(),
            final(self).spec_policy() == old(self).spec_policy(),
            final(self).admitted() == old(self).admitted() + 1,
            final(self).emitted_log() == old(self).emitted_log(),
            final(self).completed_map() == old(self).completed_map(),
            final(self).completion_order() == old(self).completion_order(),
            final(self).pending_seqs() == old(self).pending_seqs().push(sq),
            final(self).spec_load() == old(self).spec_load() + 1,
    {
        let sq = self.next_seq;
        self.pending.push(sq);
        if self.policy.is_ordered() {
            self.waiting.push(None);
        }
        self.next_seq = sq + 1;
        proof {
            assert forall|s: int|
                0 <= s < self.next_seq implies (self.completed@.dom().contains(s)
                || self.pending@.contains(s as usize)) by {
                if s < old(self).next_seq {
                    if old(self).pending@.contains(s as usize) {
                        let i = choose|i: int|
                            0 <= i < old(self).pending@.len() && old(self).pending@[i]
                                == s as usize;
                        assert(self.pending@[i] == s as usize);
                    }
                } else {
                    assert(self.pending@[self.pending@.len() - 1] == s as usize);
                }
            };
        }
        sq
    }

    /// Record that the `k`-th running task finished with output `out`, and
    /// return what is to be sent downstream now: under the unordered policy
    /// exactly `out`; under the ordered policy the run of consecutive
    /// completed outputs starting at the emission head (possibly empty).
    pub fn complete(&mut self, k: usize, out: O) -> (batch: Vec<O>)
        requires
            old(self).wf(),
            k < old(self).pending_seqs().len(),
        ensures
            final(self).wf(),
            final(self).spec_policy() == old(self).spec_policy(),
            final(self).admitted() == old(self).admitted(),
            final(self).pending_seqs() == old(self).pending_seqs().remove(k as int),
            final(self).completed_map() == old(self).completed_map().insert(
                old(self).pending_seqs()[k as int] as int,
                out,
            ),
            final(self).completion_order() == old(self).completion_order().push(
                old(self).pending_seqs()[k as int] as int,
            ),
            final(self).emitted_log() == old(self).emitted_log() + batch@,
            !old(self).spec_policy().spec_is_ordered() ==> batch@ == seq![out]
                && final(self).spec_load() == old(self).spec_load() - 1,
            old(self).spec_policy().spec_is_ordered() ==> final(self).spec_load() == old(
                self,
            ).spec_load() - batch@.len(),
    {
        let ghost sq_int = self.pending@[k as int] as int;
        proof {
            lemma_completion_bookkeeping(
                self.pending@,
                self.completed@,
                self.comp_order@,
                self.next_seq as int,
                k as int,
                out,
            );
        }
        let sq = self.pending.remove(k);
        proof {
            self.completed@ = self.completed@.insert(sq_int, out);
            self.comp_order@ = self.comp_order@.push(sq_int);
        }
        if !self.policy.is_ordered() {
            let mut batch: Vec<O> = Vec::new();
            batch.push(out);
            proof {
                self.emitted@ = self.emitted@.push(out);
            }
            self.emitted_count = self.emitted_count + 1;
            assert(batch@ =~= seq![out]);
            assert(final(self).emitted_log() =~= old(self).emitted_log() + batch@);
            return batch;
        }
        // ordered: park the output in its window slot, then emit the
        // consecutive completed run at the head
        proof {
            if sq < self.emitted_count {
                assert(old(self).completed_map().dom().contains(sq_int));
                assert(false);
            }
        }
        let slot = sq - self.emitted_count;
        self.waiting[slot] = Some(out);
        proof {
            assert forall|j: int|
                0 <= j < self.waiting@.len() implies match #[trigger] self.waiting@[j] {
                Some(o) => self.completed@.dom().contains(self.emitted_count + j)
                    && self.completed@[self.emitted_count + j] == o,
                None => !self.completed@.dom().contains(self.emitted_count + j),
            } by {
                if j != slot {
                    assert(self.waiting@[j] == old(self).waiting@[j]);
                    assert(self.emitted_count + j != sq_int);
                }
            };
        }
        let mut batch: Vec<O> = Vec::new();
        while self.waiting.len() > 0 && self.waiting[0].is_some()
            invariant
                self.policy.spec_is_ordered(),
                self.policy == old(self).spec_policy(),
                self.policy.is_valid(),
                self.next_seq == old(self).next_seq,
                self.emitted_count <= self.next_seq,
                old(self).emitted_log().len() <= self.emitted_count,
                self.emitted_count == old(self).emitted_log().len() + batch@.len(),
                self.waiting@.len() == self.next_seq - self.emitted_count,
                self.emitted@.len() == self.emitted_count,
                self.pending@ == old(self).pending@.remove(k as int),
                self.completed@ == old(self).completed@.insert(sq_int, out),
                self.comp_order@ == old(self).comp_order@.push(sq_int),
                self.emitted@ == old(self).emitted@ + batch@,
                forall|s: int|
                    0 <= s < self.emitted_count ==> self.completed@.dom().contains(s),
                forall|s: int|
                    0 <= s < self.emitted_count ==> self.emitted@[s] == self.completed@[s],
                forall|j: int|
                    0 <= j < self.waiting@.len() ==> match #[trigger] self.waiting@[j] {
                        Some(o) => self.completed@.dom().contains(self.emitted_count + j)
                            && self.completed@[self.emitted_count + j] == o,
                        None => !self.completed@.dom().contains(self.emitted_count + j),
                    },
            decreases self.waiting@.len(),
        {
            let o = self.waiting.remove(0);
            let o = match o {
                Some(o) => o,
                None => unreached(),
            };
            batch.push(o);
            proof {
                self.emitted@ = self.emitted@.push(o);
            }
            self.emitted_count = self.emitted_count + 1;
        }
        batch
    }

    /// The concurrency budget is respected: a well-formed pool never
    /// occupies more than its policy's in-flight limit, at any
    /// observation point, since every operation preserves `wf`.
    pub proof fn lemma_load_bounded(self)
        requires
            self.wf(),
        ensures
            0 <= self.spec_load() <= self.spec_policy().spec_width(),
    {
    }

    /// While something is still running, fewer items have been emitted
    /// than admitted: in particular, a task abandoned on failure never
    /// reaches the emitted log.
    pub proof fn lemma_in_flight_bound(self)
        requires
            self.wf(),
            self.pending_seqs().len() > 0,
        ensures
            self.emitted_log().len() < self.admitted(),
    {
        if self.policy.spec_is_ordered() {
            let s = self.pending@[0];
            if s < self.emitted_count {
                assert(self.completed@.dom().contains(s as int));
            }
        }
    }

    /// Once nothing is running, everything admitted has been emitted: no
    /// item is lost.
    pub proof fn lemma_drained(self)
        requires
            self.wf(),
            self.pending_seqs().len() == 0,
        ensures
            self.emitted_log().len() == self.admitted(),
            self.spec_load() == 0,
    {
        if self.policy.spec_is_ordered() {
            if self.emitted_count < self.next_seq {
                assert(self.pending@.contains(self.emitted_count));
            }
        }
    }

    /// An ordered pool emits in admission order: the emitted log is exactly
    /// the completed outputs, indexed by sequence number.
    pub proof fn lemma_ordered_in_order(self)
        requires
            self.wf(),
            self.spec_policy().spec_is_ordered(),
        ensures
            self.emitted_log().len() <= self.admitted(),
            forall|s: int|
                0 <= s < self.emitted_log().len() ==> self.completed_map().dom().contains(s)
                    && self.emitted_log()[s] == self.completed_map()[s],
    {
    }

    /// Every emission came from a distinct completed sequence number, in
    /// completion order under the unordered policy: nothing is duplicated.
    pub proof fn lemma_unordered_completion_order(self)
        requires
            self.wf(),
            !self.spec_policy().spec_is_ordered(),
        ensures
            self.emitted_log().len() <= self.admitted(),
            self.completion_order().len() == self.emitted_log().len(),
            forall|i: int, j: int|
                0 <= i < j < self.completion_order().len() ==> self.completion_order()[i]
                    != self.completion_order()[j],
            forall|i: int|
                0 <= i < self.emitted_log().len() ==> self.completed_map().dom().contains(
                    #[trigger] self.completion_order()[i],
                ) && self.emitted_log()[i] == self.completed_map()[self.completion_order()[i]],
            forall|i: int|
                0 <= i < self.completion_order().len() ==> 0 <= #[trigger] self.completion_order()[i]
                    < self.admitted(),
    {
        assert forall|i: int|
            0 <= i < self.completion_order().len() implies 0 <= #[trigger] self.completion_order()[i]
            < self.admitted() by {
            assert(self.completed@.dom().contains(self.comp_order@[i]));
        };
    }
}

} // verus!
