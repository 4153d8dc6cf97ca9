//! The pipeline itself: producer stage, worker pool and gather iterator.
//!
//! Spawning and joining operating-system threads cannot be verified, so the
//! thin spawn/join plumbing lives outside this library, as do the two
//! unbounded thread loops, whose termination depends on the other threads.
//! Everything a thread *decides or computes* is here, verified:
//! [`producer_step`] is one full step of the producer thread,
//! [`worker_step`] one full step of a worker thread, and
//! [`ParallelIterator`] the caller-facing gather iterator, a state machine
//! that pulls results and, on the first empty receive, has every owned
//! thread handle joined before it reports a terminal signal.

use vstd::prelude::*;
use vstd::std_specs::iter::IteratorSpec;
use crate::channel;

verus! {

/// The outcome of one step of the producer or of a worker thread.
#[derive(Clone, Copy, Debug)]
pub enum StageStep {
    /// One item was moved along; the thread should take another step.
    Advanced,
    /// The stage's input is exhausted; the thread should exit cleanly.
    Finished,
    /// A blocking send found every receiver gone.  The design treats this as
    /// fatal for the thread: the spawner must report the thread as failed at
    /// join time, never swallow it.
    Fatal,
}

/// Open one hand-off channel of the design's fixed capacity.  Two of these
/// connect the stages: one jobs channel (one sender, the producer; many
/// receivers, the workers) and one results channel (many senders, the
/// workers; one receiver, the gather iterator).  The single slot enforces
/// backpressure: a stage can run at most one item ahead of the next.
pub fn handoff_channel<T>() -> (r: (crossbeam_channel::Sender<T>, crossbeam_channel::Receiver<T>)) {
    channel::bounded_channel(crate::model::HANDOFF_CAPACITY)
}

/// One full step of the producer thread: pull the next job from the
/// producer's iterator and push it into the jobs channel with a blocking
/// send.  The producer thread is exactly this, repeated on the returned
/// iterator until the step reports `Finished` or `Fatal`.
///
/// For an iterator that obeys the iterator laws, the contract pins the
/// step down: each step sends the front of the iterator's remaining
/// sequence — so jobs enter the channel in iterator order, one per step —
/// and `Finished` comes exactly when the iterator is exhausted.
pub fn producer_step<P, I>(jobs: &crossbeam_channel::Sender<I>, source: P) -> (r: (StageStep, P)) where
    P: Iterator<Item = I>,

    ensures
        source.obeys_prophetic_iter_laws() ==> r.1.obeys_prophetic_iter_laws(),
        source.obeys_prophetic_iter_laws() ==> match r.0 {
            StageStep::Finished => r.1.remaining() == source.remaining() && source.remaining().len() == 0,
            _ => source.remaining().len() > 0 && r.1.remaining() == source.remaining().drop_first(),
        },
{
    let mut it = source;
    match it.next() {
        Some(job) => {
            match channel::send(jobs, job) {
                Ok(()) => (StageStep::Advanced, it),
                Err(_) => (StageStep::Fatal, it),
            }
        },
        None => (StageStep::Finished, it),
    }
}

/// One full step of a worker thread: claim the next job from the jobs
/// channel with a blocking receive — whichever worker reaches the channel
/// first claims it, so no job is ever seen by two workers — apply this
/// worker's private transform to it, and push the result into the results
/// channel with a blocking send.  A worker thread constructs its transform
/// once and is then exactly this, repeated until it reports `Finished`
/// (jobs channel closed and drained) or `Fatal`.
pub fn worker_step<X, I, O>(
    jobs: &crossbeam_channel::Receiver<I>,
    results: &crossbeam_channel::Sender<O>,
    xform: &mut X,
) -> (r: StageStep) where
    X: FnMut(I) -> O,

    requires
        forall|i: I| call_requires(*old(xform), (i,)),
    ensures
        r is Finished ==> *final(xform) == *old(xform),
        r is Advanced || r is Fatal ==> exists|job: I, out: O|
            call_ensures(*old(xform), (job,), out),
{
    match channel::recv(jobs) {
        Some(job) => transform_and_send(job, results, xform),
        None => StageStep::Finished,
    }
}

/// The half of a worker's step that follows the claim: apply this worker's
/// private transform to the one claimed job and push the result into the
/// results channel with a blocking send.  The contract names that job: the
/// value sent is an output the transform admits for exactly this input.
pub fn transform_and_send<X, I, O>(
    job: I,
    results: &crossbeam_channel::Sender<O>,
    xform: &mut X,
) -> (r: StageStep) where
    X: FnMut(I) -> O,

    requires
        call_requires(*old(xform), (job,)),
    ensures
        !(r is Finished),
        exists|out: O| call_ensures(*old(xform), (job,), out),
{
    let out = (*xform)(job);
    match channel::send(results, out) {
        Ok(()) => StageStep::Advanced,
        Err(_) => StageStep::Fatal,
    }
}

/// What one pull on the gather iterator yields: a result, clean exhaustion,
/// or the fatal signal that some owned thread terminated abnormally.
pub enum Gathered<O> {
    /// One transformed result; order across workers is not guaranteed.
    Item(O),
    /// Every thread has exited cleanly and every result has been yielded.
    Exhausted,
    /// Some owned thread terminated abnormally; the pipeline has failed.
    Failed,
}

/// The gather iterator's phase.  `Running` may move to `Finished` or
/// `Failed` on the first empty receive; neither terminal phase is ever left
/// again.
#[derive(Clone, Copy, Debug)]
pub enum Phase {
    /// Threads may still be alive or results still buffered.
    Running,
    /// All threads joined cleanly; the pipeline is exhausted.
    Finished,
    /// Some thread terminated abnormally.
    Failed,
}

/// A handle on a running scatter/gather pipeline: the receiving end of the
/// results channel and the handle of every spawned thread (the producer's
/// and each worker's), of whatever type `H` the spawner uses.  Results are
/// pulled one at a time with [`ParallelIterator::next`].
#[verifier::reject_recursive_types(O)]
pub struct ParallelIterator<O, H> {
    results: crossbeam_channel::Receiver<O>,
    threads: Vec<H>,
    phase: Phase,
}

impl<O, H> ParallelIterator<O, H> {
    /// The phase the gather iterator is in.
    pub closed spec fn state(self) -> Phase {
        self.phase
    }

    /// The thread handles still owned, in registration order.
    pub closed spec fn handles(self) -> Seq<H> {
        self.threads@
    }

    /// The receiving end of the results channel this iterator pulls from.
    pub closed spec fn receiver(self) -> crossbeam_channel::Receiver<O> {
        self.results
    }

    /// How many thread handles are still owned (and will be joined before a
    /// terminal signal is reported).
    pub open spec fn pending_threads(self) -> nat {
        self.handles().len()
    }

    /// Once a terminal phase is reached, every owned thread has been joined.
    pub open spec fn wf(self) -> bool {
        !(self.state() is Running) ==> self.pending_threads() == 0
    }

    /// Take ownership of a freshly wired pipeline: the results receiver and
    /// one handle per spawned thread.  The pipeline starts in `Running`.
    pub fn assemble(results: crossbeam_channel::Receiver<O>, threads: Vec<H>) -> (r: Self)
        ensures
            r.state() is Running,
            r.handles() == threads@,
            r.receiver() == results,
            r.wf(),
    {
        ParallelIterator { results, threads, phase: Phase::Running }
    }

    /// Join every owned thread handle, in reverse registration order, and
    /// report whether all of them exited cleanly.  `join_one` performs the
    /// actual join of a single handle and hands back that thread's outcome.
    /// The contract accounts for every handle: each one is passed to
    /// `join_one`, and `clean` is the conjunction of the answers.
    fn join_threads<F: Fn(H) -> bool>(&mut self, join_one: &F) -> (clean: bool)
        requires
            forall|h: H| call_requires(*join_one, (h,)),
        ensures
            final(self).threads@.len() == 0,
            final(self).phase == old(self).phase,
            final(self).results == old(self).results,
            forall|k: int|
                0 <= k < old(self).threads@.len() ==> call_ensures(
                    *join_one,
                    (#[trigger] old(self).threads@[k],),
                    true,
                ) || call_ensures(*join_one, (old(self).threads@[k],), false),
            clean ==> forall|k: int|
                0 <= k < old(self).threads@.len() ==> call_ensures(
                    *join_one,
                    (#[trigger] old(self).threads@[k],),
                    true,
                ),
            !clean ==> exists|k: int|
                0 <= k < old(self).threads@.len() && call_ensures(
                    *join_one,
                    (old(self).threads@[k],),
                    false,
                ),
    {
        let mut clean: bool = true;
        while self.threads.len() != 0
            invariant
                self.phase == old(self).phase,
                self.results == old(self).results,
                forall|h: H| call_requires(*join_one, (h,)),
                self.threads@.len() <= old(self).threads@.len(),
                self.threads@ == old(self).threads@.take(self.threads@.len() as int),
                forall|k: int|
                    self.threads@.len() <= k < old(self).threads@.len() ==> call_ensures(
                        *join_one,
                        (#[trigger] old(self).threads@[k],),
                        true,
                    ) || call_ensures(*join_one, (old(self).threads@[k],), false),
                clean ==> forall|k: int|
                    self.threads@.len() <= k < old(self).threads@.len() ==> call_ensures(
                        *join_one,
                        (#[trigger] old(self).threads@[k],),
                        true,
                    ),
                !clean ==> exists|k: int|
                    0 <= k < old(self).threads@.len() && call_ensures(
                        *join_one,
                        (old(self).threads@[k],),
                        false,
                    ),
            decreases
                self.threads@.len(),
        {
            let ghost n = self.threads@.len() as int;
            if let Some(handle) = self.threads.pop() {
                proof {
                    assert(handle == old(self).threads@[n - 1]);
                    assert(self.threads@ =~= old(self).threads@.take(n - 1));
                }
                let ok = join_one(handle);
                if !ok {
                    clean = false;
                }
            }
        }
        clean
    }

    /// Pull the next result, or learn that the pipeline has terminated.
    ///
    /// While running, this blocks on the results channel; on the first empty
    /// receive every owned thread handle is passed to `join_one` — which
    /// must join that thread and report `true` exactly when it exited
    /// cleanly — before a terminal signal is returned, so no thread outlives
    /// the terminal report.  The contract holds the joins to account: clean
    /// exhaustion is reported only if every owned handle's join reported
    /// clean, and failure only if some owned handle's join reported unclean,
    /// so a failed thread is never conflated with exhaustion.  Both terminal
    /// phases are absorbing: every later call returns the same signal again
    /// and changes nothing.
    pub fn next<F: Fn(H) -> bool>(&mut self, join_one: &F) -> (r: Gathered<O>)
        requires
            old(self).wf(),
            forall|h: H| call_requires(*join_one, (h,)),
        ensures
            final(self).wf(),
            final(self).receiver() == old(self).receiver(),
            old(self).state() is Finished ==> r is Exhausted && *final(self) == *old(self),
            old(self).state() is Failed ==> r is Failed && *final(self) == *old(self),
            old(self).state() is Running ==> match r {
                Gathered::Item(_) => final(self).state() is Running && *final(self) == *old(self),
                Gathered::Exhausted => final(self).state() is Finished && final(self).pending_threads() == 0
                    && forall|k: int|
                    0 <= k < old(self).handles().len() ==> call_ensures(
                        *join_one,
                        (#[trigger] old(self).handles()[k],),
                        true,
                    ),
                Gathered::Failed => final(self).state() is Failed && final(self).pending_threads() == 0
                    && (exists|k: int|
                    0 <= k < old(self).handles().len() && call_ensures(
                        *join_one,
                        (old(self).handles()[k],),
                        false,
                    )) && forall|k: int|
                    0 <= k < old(self).handles().len() ==> call_ensures(
                        *join_one,
                        (#[trigger] old(self).handles()[k],),
                        true,
                    ) || call_ensures(*join_one, (old(self).handles()[k],), false),
            },
            final(self).state() is Running ==> old(self).state() is Running,
    {
        match self.phase {
            Phase::Running => {
                match channel::recv(&self.results) {
                    Some(item) => Gathered::Item(item),
                    None => {
                        let clean = self.join_threads(join_one);
                        proof {
                            if clean {
                                assert forall|k: int|
                                    0 <= k < old(self).handles().len() implies call_ensures(
                                    *join_one,
                                    (#[trigger] old(self).handles()[k],),
                                    true,
                                ) by {
                                    assert(old(self).handles()[k] == old(self).threads@[k]);
                                }
                            } else {
                                let k = choose|k: int|
                                    0 <= k < old(self).threads@.len() && call_ensures(
                                        *join_one,
                                        (old(self).threads@[k],),
                                        false,
                                    );
                                assert(old(self).handles()[k] == old(self).threads@[k]);
                                assert(0 <= k < old(self).handles().len() && call_ensures(
                                    *join_one,
                                    (old(self).handles()[k],),
                                    false,
                                ));
                                assert forall|j: int|
                                    0 <= j < old(self).handles().len() implies call_ensures(
                                    *join_one,
                                    (#[trigger] old(self).handles()[j],),
                                    true,
                                ) || call_ensures(
                                    *join_one,
                                    (old(self).handles()[j],),
                                    false,
                                ) by {
                                    assert(old(self).handles()[j] == old(self).threads@[j]);
                                }
                            }
                        }
                        if clean {
                            self.phase = Phase::Finished;
                            Gathered::Exhausted
                        } else {
                            self.phase = Phase::Failed;
                            Gathered::Failed
                        }
                    },
                }
            },
            Phase::Finished => Gathered::Exhausted,
            Phase::Failed => Gathered::Failed,
        }
    }

    /// How many thread handles are still owned.
    pub fn remaining_handles(&self) -> (n: usize)
        ensures
            n == self.pending_threads(),
    {
        self.threads.len()
    }
}

} // verus!
