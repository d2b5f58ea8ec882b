//! One stage of the pipeline, run to completion over a finite input.
//!
//! `run_stage` is the worker-pool algorithm: it keeps up to `n` tasks in
//! flight, admitting from the input while a slot is free and otherwise
//! finishing one in-flight task. Which in-flight task finishes first is not
//! the stage's choice; the `schedule` argument stands for that outside
//! decision, and every contract below holds for every schedule.
//!
//! On the first worker failure the stage stops admitting, abandons the
//! tasks still in flight, and reports the error; what was already emitted
//! stays emitted.
//!
//! Cooperative cancellation is observed at admission points only: a
//! cancel request lets the tasks in flight finish and stops new ones, so
//! a cancelled stage behaves exactly like one whose input ended at the
//! last admission. It is therefore modelled by truncating the input.

use crate::policy::Concurrency;
use crate::pool::StagePool;
use vstd::prelude::*;

verus! {

/// `sel` picks `sel.len()` distinct indices out of `0..n`.
pub open spec fn is_distinct_selection(sel: Seq<int>, n: int) -> bool {
    &&& forall|a: int, b: int| 0 <= a < b < sel.len() ==> sel[a] != sel[b]
    &&& forall|a: int| 0 <= a < sel.len() ==> 0 <= #[trigger] sel[a] < n
}

/// `perm` is a permutation of the indices `0..n`.
pub open spec fn is_index_permutation(perm: Seq<int>, n: int) -> bool {
    &&& perm.len() == n
    &&& is_distinct_selection(perm, n)
}

/// What one stage run guarantees, for every completion schedule.
///
/// Each output is a worker result (`call_ensures`) of one input, no input
/// is used twice, and with no failure every input is used exactly once:
/// in input order when `ordered`, in some permutation of the input order
/// otherwise. A reported failure is a worker error on one of the inputs;
/// an ordered stage's outputs are then a prefix of the input's results.
pub open spec fn stage_result<T, U, E, F: Fn(T) -> Result<U, E>>(
    f: F,
    ordered: bool,
    inp: Seq<T>,
    outp: Seq<U>,
    failure: Option<E>,
) -> bool {
    &&& outp.len() <= inp.len()
    &&& failure is None ==> outp.len() == inp.len()
    &&& failure is Some ==> outp.len() < inp.len()
    &&& ordered ==> forall|j: int|
        0 <= j < outp.len() ==> call_ensures(f, (inp[j],), Result::<U, E>::Ok(outp[j]))
    &&& !ordered ==> exists|sel: Seq<int>|
        is_distinct_selection(sel, inp.len() as int) && sel.len() == outp.len() && (forall|j: int|
            0 <= j < outp.len() ==> call_ensures(f, (inp[sel[j]],), Result::<U, E>::Ok(outp[j])))
    &&& failure is Some ==> exists|j: int|
        0 <= j < inp.len() && call_ensures(f, (inp[j],), Result::<U, E>::Err(failure->Some_0))
}

/// Pick which in-flight task completes next: the schedule's say, reduced
/// to a valid index among the `m` running tasks.
fn pick(schedule: &Vec<usize>, cursor: usize, m: usize) -> (idx: usize)
    requires
        m > 0,
    ensures
        idx < m,
{
    if schedule.len() == 0 {
        0
    } else {
        schedule[cursor % schedule.len()] % m
    }
}

/// Run one stage over `input` under `policy`, completing in-flight tasks
/// in the order `schedule` dictates.
///
/// With no failure, every input is processed exactly once: an ordered
/// stage returns exactly one worker result per input, in input order; an
/// unordered stage returns one worker result per input, in some
/// permutation of the input order. On a worker failure the stage stops
/// admitting, abandons what is still in flight, and reports the error;
/// the outputs already emitted (for an ordered stage, a prefix of the
/// input's results) are returned alongside it.
pub fn run_stage<T: Copy, U, E, F: Fn(T) -> Result<U, E>>(
    policy: Concurrency,
    f: F,
    input: &Vec<T>,
    schedule: &Vec<usize>,
) -> (r: (Vec<U>, Option<E>))
    requires
        policy.is_valid(),
        input@.len() < usize::MAX,
        forall|j: int| 0 <= j < input@.len() ==> call_requires(f, (#[trigger] input@[j],)),
    ensures
        stage_result(f, policy.spec_is_ordered(), input@, r.0@, r.1),
{
    let mut pool: StagePool<U> = StagePool::new(policy);
    let mut out: Vec<U> = Vec::new();
    let mut i: usize = 0;
    let mut cursor: usize = 0;
    let mut failure: Option<E> = None;
    while failure.is_none() && (i < input.len() || pool.pending_count() > 0)
        invariant
            policy.is_valid(),
            input@.len() < usize::MAX,
            forall|j: int| 0 <= j < input@.len() ==> call_requires(f, (#[trigger] input@[j],)),
            pool.wf(),
            pool.spec_policy() == policy,
            i <= input@.len(),
            pool.admitted() == i,
            cursor + pool.pending_seqs().len() <= i,
            out@ == pool.emitted_log(),
            forall|s: int| #[trigger]
                pool.completed_map().dom().contains(s) ==> call_ensures(
                    f,
                    (input@[s],),
                    Result::<U, E>::Ok(pool.completed_map()[s]),
                ),
            failure is Some ==> pool.pending_seqs().len() >= 1,
            failure is Some ==> exists|j: int|
                0 <= j < input@.len() && call_ensures(f, (input@[j],), Result::<U, E>::Err(
                    failure->Some_0,
                )),
        decreases 2 * (input@.len() - i) + pool.pending_seqs().len() + (if failure is None {
            1int
        } else {
            0int
        }),
    {
        if i < input.len() && pool.has_slot() {
            let sq = pool.accept();
            i = i + 1;
        } else {
            proof {
                if pool.pending_seqs().len() == 0 {
                    pool.lemma_drained();
                    assert(false);
                }
            }
            let k = pick(schedule, cursor, pool.pending_count());
            let sq = pool.pending_seq(k);
            let x = input[sq];
            let res = f(x);
            match res {
                Ok(o) => {
                    cursor = cursor + 1;
                    let mut batch = pool.complete(k, o);
                    out.append(&mut batch);
                },
                Err(e) => {
                    // a worker failed: stop admitting and abandon the
                    // tasks still in flight
                    failure = Some(e);
                },
            }
        }
    }
    proof {
        if failure is None {
            pool.lemma_drained();
        } else {
            pool.lemma_in_flight_bound();
        }
        if policy.spec_is_ordered() {
            pool.lemma_ordered_in_order();
        } else {
            pool.lemma_unordered_completion_order();
            assert(is_distinct_selection(pool.completion_order(), input@.len() as int));
            assert(pool.completion_order().len() == out@.len());
            assert(forall|j: int|
                0 <= j < out@.len() ==> call_ensures(
                    f,
                    (input@[pool.completion_order()[j]],),
                    Result::<U, E>::Ok(out@[j]),
                ));
        }
    }
    (out, failure)
}

} // verus!
