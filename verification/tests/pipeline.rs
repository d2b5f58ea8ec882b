use pipeline_core::drain_sink;
use pipeline_core::feed_source;
use pipeline_core::finish_source;
use pipeline_core::BuildError;
use pipeline_core::Capacity;
use pipeline_core::Channel;
use pipeline_core::CompletionHandle;
use pipeline_core::Concurrency;
use pipeline_core::PipelineBuilder;
use pipeline_core::RecvOutcome;
use pipeline_core::SendOutcome;
use pipeline_core::StagePool;
use pipeline_core::WorkerFailure;
use pipeline_core::run_stage;
use pipeline_core::DEFAULT_BACKPRESSURE;

fn worker(fail_at: u64) -> impl Fn(u64) -> Result<u64, u64> + Copy {
    move |x| {
        if x == fail_at {
            Err(x)
        } else {
            Ok(x)
        }
    }
}

const NEVER: u64 = u64::MAX;

#[test]
fn no_loss_unordered_pipeline_sum() {
    let source: Vec<u64> = (0..1000).collect();
    let pipeline = PipelineBuilder::from_vec(source)
        .stage(Concurrency::Unordered(8), None)
        .stage(Concurrency::Unordered(8), None)
        .stage(Concurrency::Unordered(8), None)
        .build()
        .unwrap();
    let workers = vec![worker(NEVER), worker(NEVER), worker(NEVER)];
    let schedule: Vec<usize> = vec![3, 1, 4, 1, 5, 9, 2, 6, 5, 3, 5, 8, 9, 7, 9, 3];
    let (out, handle, _) = pipeline.run(&workers, &schedule);
    assert!(handle.resolve().is_ok());
    assert_eq!(out.len(), 1000);
    let sum: u64 = out.iter().sum();
    assert_eq!(sum, 499500);
}

#[test]
fn ordered_stage_preserves_order() {
    // adversarial completion order: later-admitted tasks finish first
    let input: Vec<u64> = (0..50).collect();
    let schedule: Vec<usize> = vec![2, 1, 3, 0, 2, 5, 4, 1];
    let double = |x: u64| -> Result<u64, u64> { Ok(x * 2) };
    let (out, fail) = run_stage(Concurrency::Ordered(4), double, &input, &schedule);
    assert!(fail.is_none());
    let expected: Vec<u64> = (0..50).map(|x| x * 2).collect();
    assert_eq!(out, expected);
}

#[test]
fn unordered_stage_may_reorder() {
    // item 0 is slow, item 1 fast: the schedule completes task 1 first
    let input: Vec<u64> = vec![0, 1];
    let schedule: Vec<usize> = vec![1];
    let add_ten = |x: u64| -> Result<u64, u64> { Ok(x + 10) };
    let (out, fail) = run_stage(Concurrency::Unordered(2), add_ten, &input, &schedule);
    assert!(fail.is_none());
    assert_eq!(out, vec![11, 10]);
    let mut sorted = out.clone();
    sorted.sort();
    assert_eq!(sorted, vec![10, 11]);
}

#[test]
fn backpressure_bounds_buffer() {
    let source: Vec<u64> = vec![1, 2, 3, 4, 5];
    let mut ch: Channel<u64> = Channel::new(Capacity::Bounded(2));
    let k = feed_source(&source, 0, &mut ch);
    assert_eq!(k, 2);
    assert_eq!(ch.len(), 2);
    assert_eq!(ch.send(9), SendOutcome::Full);
    assert_eq!(ch.recv(), RecvOutcome::Item(1));
    let k2 = feed_source(&source, k, &mut ch);
    assert_eq!(k2, 3);
    assert_eq!(ch.len(), 2);
}

#[test]
fn graceful_shutdown_partial_source() {
    // the source stops after four of the ten intended items
    let intended: Vec<u64> = (0..10).collect();
    let produced: Vec<u64> = intended[..4].to_vec();
    let mut ch: Channel<u64> = Channel::new(Capacity::Unbounded);
    let k = feed_source(&produced, 0, &mut ch);
    assert_eq!(k, 4);
    finish_source(&mut ch);
    assert_eq!(ch.send(99), SendOutcome::Rejected);
    let staged = drain_sink(&mut ch);
    assert_eq!(ch.recv(), RecvOutcome::Done);
    let pipeline = PipelineBuilder::from_vec(staged)
        .stage(Concurrency::Ordered(3), Some(8))
        .stage(Concurrency::Unordered(2), None)
        .build()
        .unwrap();
    let workers = vec![worker(NEVER), worker(NEVER)];
    let schedule: Vec<usize> = vec![1, 0, 1];
    let (out, handle, _) = pipeline.run(&workers, &schedule);
    assert_eq!(out.len(), 4);
    assert!(handle.resolve().is_ok());
}

#[test]
fn failure_propagates_with_stage_index() {
    // the second stage's worker fails deterministically on the item 4;
    // items it completed before that still reach the sink
    let source: Vec<u64> = (0..10).collect();
    let pipeline = PipelineBuilder::from_vec(source)
        .stage(Concurrency::Ordered(2), None)
        .stage(Concurrency::Ordered(2), None)
        .build()
        .unwrap();
    let workers = vec![worker(NEVER), worker(4)];
    let schedule: Vec<usize> = Vec::new();
    let (out, handle, _) = pipeline.run(&workers, &schedule);
    assert_eq!(out, vec![0, 1, 2, 3]);
    let failure = handle.resolve().unwrap_err();
    assert_eq!(failure, WorkerFailure { stage: 1, error: 4 });
}

#[test]
fn earliest_stage_failure_wins() {
    let mut handle: CompletionHandle<u64> = CompletionHandle::new(3);
    handle.record(None);
    handle.record(Some(7));
    handle.record(Some(9));
    let failure = handle.resolve().unwrap_err();
    assert_eq!(failure, WorkerFailure { stage: 1, error: 7 });
}

#[test]
fn completion_resolves_ok_when_all_stages_clean() {
    let mut handle: CompletionHandle<u64> = CompletionHandle::new(2);
    handle.record(None);
    handle.record(None);
    assert!(handle.resolve().is_ok());
}

#[test]
fn build_rejects_zero_concurrency() {
    let r = PipelineBuilder::from_vec(vec![1u64])
        .stage(Concurrency::Unordered(0), None)
        .build();
    assert_eq!(r.err().unwrap(), BuildError::MisconfiguredStage(0));
}

#[test]
fn build_rejects_zero_backpressure() {
    let r = PipelineBuilder::from_vec(vec![1u64])
        .stage(Concurrency::Ordered(2), Some(4))
        .stage(Concurrency::Unordered(1), Some(0))
        .build();
    assert_eq!(r.err().unwrap(), BuildError::MisconfiguredStage(1));
}

#[test]
fn build_resolves_channel_capacities() {
    let p = PipelineBuilder::from_vec(vec![1u64])
        .stage(Concurrency::Ordered(2), Some(4))
        .stage(Concurrency::Unordered(1), None)
        .build()
        .unwrap();
    assert_eq!(p.stage_count(), 2);
    assert_eq!(p.channel_capacity(0), 4);
    assert_eq!(p.channel_capacity(1), DEFAULT_BACKPRESSURE);
}

#[test]
fn channel_is_fifo_and_closes_cleanly() {
    let mut ch: Channel<u64> = Channel::new(Capacity::Bounded(3));
    assert_eq!(ch.recv(), RecvOutcome::Pending);
    assert_eq!(ch.send(1), SendOutcome::Sent);
    assert_eq!(ch.send(2), SendOutcome::Sent);
    ch.close();
    ch.close(); // idempotent
    assert!(ch.is_closed());
    assert_eq!(ch.send(3), SendOutcome::Rejected);
    // buffered items still drain after close, oldest first
    assert_eq!(ch.recv(), RecvOutcome::Item(1));
    assert_eq!(ch.recv(), RecvOutcome::Item(2));
    assert_eq!(ch.recv(), RecvOutcome::Done);
    assert_eq!(ch.recv(), RecvOutcome::Done);
}

#[test]
fn pool_ordered_window_holds_early_completions() {
    let mut pool: StagePool<u64> = StagePool::new(Concurrency::Ordered(2));
    let s0 = pool.accept();
    let s1 = pool.accept();
    assert_eq!((s0, s1), (0, 1));
    assert!(!pool.has_slot());
    // the task admitted second finishes first: nothing may be emitted yet
    let batch = pool.complete(1, 11);
    assert!(batch.is_empty());
    // once the head finishes, both leave in admission order
    let batch = pool.complete(0, 10);
    assert_eq!(batch, vec![10, 11]);
}

#[test]
fn pool_unordered_emits_in_completion_order() {
    let mut pool: StagePool<u64> = StagePool::new(Concurrency::Unordered(3));
    pool.accept();
    pool.accept();
    pool.accept();
    let b1 = pool.complete(2, 22);
    let b2 = pool.complete(0, 20);
    let b3 = pool.complete(0, 21);
    assert_eq!((b1, b2, b3), (vec![22], vec![20], vec![21]));
    assert!(pool.has_slot());
}
