//! A verified model of a multi-stage concurrent pipeline: bounded FIFO
//! channels between stages, ordered / unordered worker-pool scheduling
//! within a stage, backpressure, and shutdown / failure propagation.

mod adapters;
mod channel;
mod completion;
mod laws;
pub mod magic;
mod my_filter;
mod my_from_iterator;
mod my_iterator;
mod my_map;
mod pipeline;
mod policy;
mod pool;
mod slice_iterator;
mod stage;

pub use adapters::drain_sink;
pub use adapters::feed_source;
pub use adapters::finish_source;
pub use channel::Capacity;
pub use channel::Channel;
pub use channel::RecvOutcome;
pub use channel::SendOutcome;
pub use completion::CompletionHandle;
pub use completion::WorkerFailure;
pub use laws::apply_chain;
pub use laws::lemma_ordered_stage_in_order;
pub use laws::lemma_pipeline_no_loss;
pub use laws::lemma_permutation_preserves_multiset;
pub use laws::lemma_unordered_stage_no_loss;
pub use magic::Context;
pub use magic::FromContext;
pub use magic::Handler;
pub use magic::Id;
pub use magic::Param;
pub use my_filter::lemma_filter_next_req;
pub use my_filter::lemma_filter_none_run;
pub use my_filter::lemma_filter_some_run;
pub use my_filter::lemma_rejected_run_index;
pub use my_filter::rejected_run;
pub use my_filter::MyFilter;
pub use my_from_iterator::MyFromIterator;
pub use my_iterator::steps_through;
pub use my_iterator::yields_exactly;
pub use my_iterator::MyIterator;
pub use my_map::lemma_map_next_req;
pub use my_map::lemma_map_some_step;
pub use my_map::MyMap;
pub use pipeline::BuildError;
pub use pipeline::DEFAULT_BACKPRESSURE;
pub use pipeline::Pipeline;
pub use pipeline::PipelineBuilder;
pub use pipeline::StageConfig;
pub use pipeline::pipeline_trace;
pub use policy::Concurrency;
pub use pool::StagePool;
pub use slice_iterator::lemma_slice_chain;
pub use slice_iterator::lemma_slice_yields_exactly;
pub use slice_iterator::SliceIterator;
pub use stage::is_distinct_selection;
pub use stage::is_index_permutation;
pub use stage::run_stage;
pub use stage::stage_result;
