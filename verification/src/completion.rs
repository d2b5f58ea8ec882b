//! Aggregation of per-stage termination outcomes.
//!
//! Each stage ends either cleanly (its upstream was exhausted and its
//! in-flight work drained) or with a worker failure. The completion handle
//! collects one outcome per stage, in stage order, and resolves to overall
//! success or to the first failure in stage order — when several stages
//! fail, the earliest stage's failure wins.

use vstd::prelude::*;

verus! {

/// A worker function failed: the index of the stage it ran in, and the
/// error it reported.
#[derive(Debug, PartialEq, Eq)]
pub struct WorkerFailure<E> {
    pub stage: usize,
    pub error: E,
}

/// One termination outcome per stage, recorded in stage order.
/// `None` is a clean shutdown; `Some(e)` is a worker failure.
pub struct CompletionHandle<E> {
    expected: usize,
    results: Vec<Option<E>>,
}

impl<E> CompletionHandle<E> {
    /// The number of stages this handle waits for.
    pub closed spec fn spec_expected(self) -> int {
        self.expected as int
    }

    /// The outcomes recorded so far, in stage order.
    pub closed spec fn results(self) -> Seq<Option<E>> {
        self.results@
    }

    pub closed spec fn wf(self) -> bool {
        self.results@.len() <= self.expected
    }

    /// Every stage has reported; the handle may resolve.
    pub open spec fn is_complete(self) -> bool {
        self.results().len() == self.spec_expected()
    }

    pub fn new(expected: usize) -> (h: Self)
        ensures
            h.wf(),
            h.spec_expected() == expected,
            h.results() == Seq::<Option<E>>::empty(),
    {
        CompletionHandle { expected, results: Vec::new() }
    }

    /// Record the next stage's outcome, in stage order.
    pub fn record(&mut self, outcome: Option<E>)
        requires
            old(self).wf(),
            old(self).results().len() < old(self).spec_expected(),
        ensures
            final(self).wf(),
            final(self).spec_expected() == old(self).spec_expected(),
            final(self).results() == old(self).results().push(outcome),
    {
        self.results.push(outcome);
    }

    /// Resolve to overall success, or to the first failure in stage order:
    /// `Ok` exactly when every stage shut down cleanly; otherwise the
    /// earliest failing stage's index and error.
    pub fn resolve(self) -> (r: Result<(), WorkerFailure<E>>)
        requires
            self.wf(),
            self.is_complete(),
        ensures
            r is Ok <==> (forall|k: int| 0 <= k < self.results().len() ==> self.results()[k] is None),
            r is Err ==> {
                let wf = r->Err_0;
                &&& 0 <= wf.stage < self.results().len()
                &&& self.results()[wf.stage as int] is Some
                &&& wf.error == self.results()[wf.stage as int]->Some_0
                &&& forall|k: int| 0 <= k < wf.stage ==> self.results()[k] is None
            },
    {
        let CompletionHandle { expected: _, results: mut results } = self;
        let ghost all = results@;
        proof {
            assert(all == self.results());
        }
        let mut idx: usize = 0;
        let n = results.len();
        while idx < n
            invariant
                all == self.results(),
                n == all.len(),
                idx <= n,
                results@ == all,
                forall|k: int| 0 <= k < idx ==> all[k] is None,
            decreases n - idx,
        {
            if results[idx].is_some() {
                let o = results.remove(idx);
                let e = match o {
                    Some(e) => e,
                    None => unreached(),
                };
                proof {
                    assert(self.results() == all);
                    assert(all[idx as int] is Some);
                    assert(e == all[idx as int]->Some_0);
                }
                return Err(WorkerFailure { stage: idx, error: e });
            }
            idx = idx + 1;
        }
        Ok(())
    }
}

} // verus!
