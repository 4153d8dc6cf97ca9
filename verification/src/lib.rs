//! A bounded, thread-pooled scatter/gather pipeline.
//!
//! A lazy producer of work items feeds a fixed pool of worker threads, each
//! applying its own, independently constructed transform; the results are
//! collected into a single output sequence that the caller pulls item by
//! item.  The order of the results is *not* guaranteed to match the order of
//! the inputs: whichever worker finishes first delivers first.
//!
//! Everything a thread decides or computes is a verified function here:
//! [`producer_step`] for the producer thread, [`worker_step`] for a worker,
//! and [`ParallelIterator`] for the gather iterator that the caller drains.
//! The spawner — thin, unverifiable thread plumbing outside this library —
//! only opens the two [`handoff_channel`]s, starts threads that repeat
//! those steps, and joins each one through the callback that
//! [`ParallelIterator::next`] hands the handles to.  The two zero-argument
//! constructors the caller supplies run inside the threads that use what
//! they build, so both may capture state that cannot be shared or sent
//! between threads once constructed.
//!
//! The [`model`] module states the pipeline's design as a ghost state
//! machine and proves its conservation laws: no job is duplicated or lost,
//! the gathered output is a permutation of the sequential map, and the
//! bounded hand-off channels keep the producer from racing ahead of the
//! consumer.

mod channel;
pub mod model;
mod pipeline;

pub use pipeline::handoff_channel;
pub use pipeline::producer_step;
pub use pipeline::transform_and_send;
pub use pipeline::worker_step;
pub use pipeline::Gathered;
pub use pipeline::ParallelIterator;
pub use pipeline::Phase;
pub use pipeline::StageStep;
