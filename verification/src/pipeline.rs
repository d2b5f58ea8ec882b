//! Composing stages into a pipeline.
//!
//! The builder accumulates one configuration per stage (policy plus an
//! optional backpressure capacity); `build` validates every stage before
//! anything starts and fails fast on the first misconfigured one. A built
//! pipeline runs its stages over the source, records one termination
//! outcome per stage in a completion handle, and hands back whatever
//! reached the end alongside that handle. A failed stage's emitted prefix
//! still flows through the later stages; only the handle tells failure
//! from a clean early end of stream.

use crate::completion::CompletionHandle;
use crate::policy::Concurrency;
use crate::stage::run_stage;
use crate::stage::stage_result;
use vstd::prelude::*;

verus! {

/// A stage with no explicit backpressure gets this bounded capacity for
/// its downstream channel: bounded by policy, never unbounded, so that
/// stage-latency skew cannot grow memory without limit.
pub const DEFAULT_BACKPRESSURE: usize = 64;

/// Per-stage configuration: the concurrency policy and the optional
/// backpressure capacity of the stage's downstream channel.
#[derive(Clone, Copy, Debug)]
pub struct StageConfig {
    pub policy: Concurrency,
    pub backpressure: Option<usize>,
}

impl StageConfig {
    /// Valid when the policy allows at least one task in flight and the
    /// backpressure capacity, if given, is at least one.
    pub open spec fn is_valid(self) -> bool {
        &&& self.policy.is_valid()
        &&& match self.backpressure {
            Some(c) => c >= 1,
            None => true,
        }
    }

    /// The downstream channel capacity this stage was configured with.
    pub open spec fn spec_capacity(self) -> usize {
        match self.backpressure {
            Some(c) => c,
            None => DEFAULT_BACKPRESSURE,
        }
    }
}

/// Rejected at `build` time, before any stage starts.
#[derive(Clone, Copy, Debug, PartialEq, Eq, Structural)]
pub enum BuildError {
    /// The stage at this index has a concurrency limit below one, or an
    /// explicit backpressure capacity below one.
    MisconfiguredStage(usize),
}

/// Accumulates the source and the stage configurations; nothing runs
/// until `build`.
pub struct PipelineBuilder<T> {
    source: Vec<T>,
    stages: Vec<StageConfig>,
}

/// What one full pipeline run guarantees: a chain of item sequences, one
/// per stage boundary, starting at the source and ending at the output,
/// where each adjacent pair is related by one stage's contract and each
/// stage's recorded outcome.
pub open spec fn pipeline_trace<T, E, F: Fn(T) -> Result<T, E>>(
    levels: Seq<Seq<T>>,
    workers: Seq<F>,
    stages: Seq<StageConfig>,
    source: Seq<T>,
    output: Seq<T>,
    fails: Seq<Option<E>>,
) -> bool {
    &&& levels.len() == stages.len() + 1
    &&& fails.len() == stages.len()
    &&& levels[0] == source
    &&& levels[stages.len() as int] == output
    &&& forall|k: int|
        0 <= k < stages.len() ==> stage_result(
            workers[k],
            stages[k].policy.spec_is_ordered(),
            #[trigger] levels[k],
            levels[k + 1],
            fails[k],
        )
}

impl<T> PipelineBuilder<T> {
    pub closed spec fn spec_source(self) -> Seq<T> {
        self.source@
    }

    pub closed spec fn spec_stages(self) -> Seq<StageConfig> {
        self.stages@
    }

    /// Seed a pipeline with a finite source sequence.
    pub fn from_vec(source: Vec<T>) -> (b: Self)
        ensures
            b.spec_source() == source@,
            b.spec_stages() == Seq::<StageConfig>::empty(),
    {
        PipelineBuilder { source, stages: Vec::new() }
    }

    /// Append a stage; chainable. Validation happens at `build`.
    pub fn stage(self, policy: Concurrency, backpressure: Option<usize>) -> (b: Self)
        ensures
            b.spec_source() == self.spec_source(),
            b.spec_stages() == self.spec_stages().push(
                StageConfig { policy, backpressure },
            ),
    {
        let mut stages = self.stages;
        stages.push(StageConfig { policy, backpressure });
        PipelineBuilder { source: self.source, stages }
    }

    /// Validate every stage and assemble the pipeline. Fails fast on the
    /// first misconfigured stage, before anything runs: `Ok` exactly when
    /// every stage is valid.
    pub fn build(self) -> (r: Result<Pipeline<T>, BuildError>)
        ensures
            r is Ok <==> (forall|k: int|
                0 <= k < self.spec_stages().len() ==> (#[trigger] self.spec_stages()[k]).is_valid()),
            r is Ok ==> {
                let p = r->Ok_0;
                &&& p.wf()
                &&& p.spec_source() == self.spec_source()
                &&& p.spec_stages() == self.spec_stages()
            },
            r is Err ==> {
                let k = r->Err_0->MisconfiguredStage_0;
                &&& 0 <= k < self.spec_stages().len()
                &&& !self.spec_stages()[k as int].is_valid()
                &&& forall|j: int| 0 <= j < k ==> (#[trigger] self.spec_stages()[j]).is_valid()
            },
    {
        let mut k: usize = 0;
        let n = self.stages.len();
        while k < n
            invariant
                n == self.stages@.len(),
                k <= n,
                forall|j: int| 0 <= j < k ==> (#[trigger] self.stages@[j]).is_valid(),
            decreases n - k,
        {
            let cfg = self.stages[k];
            let policy_ok = cfg.policy.width() >= 1;
            let bp_ok = match cfg.backpressure {
                Some(c) => c >= 1,
                None => true,
            };
            if !(policy_ok && bp_ok) {
                proof {
                    assert(!self.spec_stages()[k as int].is_valid());
                }
                return Err(BuildError::MisconfiguredStage(k));
            }
            k = k + 1;
        }
        Ok(Pipeline { source: self.source, stages: self.stages })
    }
}

/// A validated pipeline: the source and one valid configuration per stage.
pub struct Pipeline<T> {
    source: Vec<T>,
    stages: Vec<StageConfig>,
}

impl<T> Pipeline<T> {
    pub closed spec fn spec_source(self) -> Seq<T> {
        self.source@
    }

    pub closed spec fn spec_stages(self) -> Seq<StageConfig> {
        self.stages@
    }

    pub closed spec fn wf(self) -> bool {
        forall|k: int| 0 <= k < self.stages@.len() ==> (#[trigger] self.stages@[k]).is_valid()
    }

    pub fn stage_count(&self) -> (n: usize)
        ensures
            n == self.spec_stages().len(),
    {
        self.stages.len()
    }

    /// The concurrency policy of stage `k`.
    pub fn stage_policy(&self, k: usize) -> (p: Concurrency)
        requires
            k < self.spec_stages().len(),
        ensures
            p == self.spec_stages()[k as int].policy,
    {
        self.stages[k].policy
    }

    /// The capacity of the channel between stage `k` and its consumer:
    /// the configured backpressure, or the bounded default.
    pub fn channel_capacity(&self, k: usize) -> (c: usize)
        requires
            k < self.spec_stages().len(),
        ensures
            c == self.spec_stages()[k as int].spec_capacity(),
    {
        match self.stages[k].backpressure {
            Some(c) => c,
            None => DEFAULT_BACKPRESSURE,
        }
    }
}

impl<T: Copy> Pipeline<T> {
    /// Run every stage over the source, in stage order, handing each
    /// stage's output to the next. `workers[k]` is stage `k`'s worker
    /// function and `schedule` stands for the completion order inside
    /// each stage, which is not the pipeline's choice; the contract holds
    /// for every schedule. Returns what reached the end of the chain and
    /// a completion handle holding one outcome per stage. A stage that
    /// failed still hands its emitted prefix to the next stage; the
    /// handle, not the output, tells failure from a clean end of stream.
    pub fn run<E, F: Fn(T) -> Result<T, E> + Copy>(
        self,
        workers: &Vec<F>,
        schedule: &Vec<usize>,
    ) -> (r: (Vec<T>, CompletionHandle<E>, Ghost<Seq<Seq<T>>>))
        requires
            self.wf(),
            workers@.len() == self.spec_stages().len(),
            self.spec_source().len() < usize::MAX,
            forall|k: int, x: T|
                0 <= k < workers@.len() ==> #[trigger] call_requires(workers@[k], (x,)),
        ensures
            r.1.wf(),
            r.1.is_complete(),
            r.1.spec_expected() == self.spec_stages().len(),
            pipeline_trace(
                r.2@,
                workers@,
                self.spec_stages(),
                self.spec_source(),
                r.0@,
                r.1.results(),
            ),
    {
        let ghost src = self.spec_source();
        let ghost cfgs = self.spec_stages();
        let Pipeline { source, stages } = self;
        let n = stages.len();
        let mut handle: CompletionHandle<E> = CompletionHandle::new(n);
        let mut current = source;
        let ghost mut levels: Seq<Seq<T>> = seq![current@];
        let mut k: usize = 0;
        while k < n
            invariant
                cfgs == stages@,
                n == stages@.len(),
                workers@.len() == n,
                forall|m: int| 0 <= m < n ==> (#[trigger] stages@[m]).is_valid(),
                src.len() < usize::MAX,
                forall|m: int, x: T|
                    0 <= m < workers@.len() ==> #[trigger] call_requires(workers@[m], (x,)),
                k <= n,
                handle.wf(),
                handle.spec_expected() == n,
                handle.results().len() == k,
                levels.len() == k + 1,
                levels[0] == src,
                levels[k as int] == current@,
                current@.len() <= src.len(),
                forall|m: int|
                    0 <= m < k ==> stage_result(
                        workers@[m],
                        stages@[m].policy.spec_is_ordered(),
                        #[trigger] levels[m],
                        levels[m + 1],
                        handle.results()[m],
                    ),
            decreases n - k,
        {
            let cfg = stages[k];
            let (next, fail) = run_stage(cfg.policy, workers[k], &current, schedule);
            handle.record(fail);
            current = next;
            proof {
                levels = levels.push(current@);
            }
            k = k + 1;
        }
        proof {
            assert(pipeline_trace(levels, workers@, cfgs, src, current@, handle.results()));
        }
        (current, handle, Ghost(levels))
    }
}

} // verus!
