//! A ghost model of the pipeline and proofs of its laws.
//!
//! At any instant every job of the producer's sequence is in exactly one of
//! five places: still with the producer, queued in the jobs channel, claimed
//! by a worker, ready in the results channel (as its result), or gathered by
//! the caller.  The model states each hand-off as a step over that state and
//! proves, by induction over any run, that the multiset of gathered results
//! equals the multiset of the sequential map of the jobs — scatter/gather is
//! a semantics-preserving parallelization of a sequential map, though the
//! order may differ — that exactly one result is gathered per job, and that
//! the bounded channels hold the producer's lead over the caller to one job
//! per worker plus the channels' capacity.

use vstd::prelude::*;
use vstd::multiset::Multiset;
use vstd::seq_lib::group_to_multiset_ensures;
use vstd::multiset::group_multiset_axioms;

verus! {

/// Capacity of each hand-off channel in the mature design: the producer may
/// be at most one item ahead of what the workers have accepted, and the
/// workers at most one result ahead of what the caller has consumed.
pub const HANDOFF_CAPACITY: usize = 1;

/// The places a job (or its result) can be in, at any instant, between the
/// producer's iterator and the caller.
pub struct PipelineModel<I, O> {
    /// Jobs the producer has not yet pushed, in production order.
    pub pending: Seq<I>,
    /// Jobs sitting in the jobs channel, sent but not yet claimed.
    pub queued: Seq<I>,
    /// Jobs claimed by some worker whose result has not yet been delivered.
    pub claimed: Seq<I>,
    /// Results sitting in the results channel, delivered but not yet pulled.
    pub ready: Seq<O>,
    /// Results the caller has pulled, in the order they were pulled.
    pub gathered: Seq<O>,
}

/// The initial state: every job still with the producer.
pub open spec fn init<I, O>(jobs: Seq<I>) -> PipelineModel<I, O> {
    (PipelineModel {
        pending: jobs,
        queued: Seq::empty(),
        claimed: Seq::empty(),
        ready: Seq::empty(),
        gathered: Seq::empty(),
    })
}

/// The producer pushes its next job into the jobs channel.  The send blocks
/// while the channel is full, so the step exists only below capacity.
pub open spec fn produce_step<I, O>(pre: PipelineModel<I, O>, post: PipelineModel<I, O>, cap: nat) -> bool {
    &&& pre.pending.len() > 0
    &&& pre.queued.len() < cap
    &&& post.pending == pre.pending.drop_first()
    &&& post.queued == pre.queued.push(pre.pending[0])
    &&& post.claimed == pre.claimed
    &&& post.ready == pre.ready
    &&& post.gathered == pre.gathered
}

/// Some worker claims the front job of the jobs channel.  Delivery out of
/// the channel is in sending order, and each job goes to exactly one worker.
/// A worker holds one job at a time, so a pool of `workers` threads can have
/// at most `workers` jobs under transformation at once.
pub open spec fn claim_step<I, O>(pre: PipelineModel<I, O>, post: PipelineModel<I, O>, workers: nat) -> bool {
    &&& pre.queued.len() > 0
    &&& pre.claimed.len() < workers
    &&& post.queued == pre.queued.drop_first()
    &&& post.claimed == pre.claimed.push(pre.queued[0])
    &&& post.pending == pre.pending
    &&& post.ready == pre.ready
    &&& post.gathered == pre.gathered
}

/// A worker finishes some claimed job — not necessarily the one claimed
/// first, since workers run in parallel at different speeds — and pushes the
/// transform of that job into the results channel.  The send blocks while
/// the channel is full, so the step exists only below capacity.
pub open spec fn deliver_step<I, O>(pre: PipelineModel<I, O>, post: PipelineModel<I, O>, tf: spec_fn(I) -> O, cap: nat) -> bool {
    &&& pre.ready.len() < cap
    &&& exists|k: int|
        {
            &&& 0 <= k < pre.claimed.len()
            &&& post.claimed == pre.claimed.remove(k)
            &&& post.ready == pre.ready.push(tf(pre.claimed[k]))
        }
    &&& post.pending == pre.pending
    &&& post.queued == pre.queued
    &&& post.gathered == pre.gathered
}

/// The caller pulls the front result out of the results channel.
pub open spec fn gather_step<I, O>(pre: PipelineModel<I, O>, post: PipelineModel<I, O>) -> bool {
    &&& pre.ready.len() > 0
    &&& post.ready == pre.ready.drop_first()
    &&& post.gathered == pre.gathered.push(pre.ready[0])
    &&& post.pending == pre.pending
    &&& post.queued == pre.queued
    &&& post.claimed == pre.claimed
}

/// Any one hand-off of the pipeline.
pub open spec fn step<I, O>(pre: PipelineModel<I, O>, post: PipelineModel<I, O>, tf: spec_fn(I) -> O, cap: nat, workers: nat) -> bool {
    ||| produce_step(pre, post, cap)
    ||| claim_step(pre, post, workers)
    ||| deliver_step(pre, post, tf, cap)
    ||| gather_step(pre, post)
}

/// The sum of everything in flight, results counted as they are and jobs
/// counted as the result they will become.
pub open spec fn in_flight_sum<I, O>(m: PipelineModel<I, O>, tf: spec_fn(I) -> O) -> Multiset<O> {
    m.gathered.to_multiset().add(m.ready.to_multiset()).add(
        m.claimed.map_values(tf).to_multiset(),
    ).add(m.queued.map_values(tf).to_multiset()).add(m.pending.map_values(tf).to_multiset())
}

/// Conservation: no job or result is ever duplicated or lost — the five
/// places always sum, as a multiset, to the sequential map of all jobs.
pub open spec fn conserved<I, O>(m: PipelineModel<I, O>, jobs: Seq<I>, tf: spec_fn(I) -> O) -> bool {
    in_flight_sum(m, tf) == jobs.map_values(tf).to_multiset()
}

/// Both hand-off channels hold at most their capacity, and no more jobs are
/// under transformation than there are workers to hold them.
pub open spec fn within_capacity<I, O>(m: PipelineModel<I, O>, cap: nat, workers: nat) -> bool {
    &&& m.queued.len() <= cap
    &&& m.ready.len() <= cap
    &&& m.claimed.len() <= workers
}

/// The pipeline's invariant: conservation and bounded channels.
pub open spec fn inv<I, O>(m: PipelineModel<I, O>, jobs: Seq<I>, tf: spec_fn(I) -> O, cap: nat, workers: nat) -> bool {
    &&& conserved(m, jobs, tf)
    &&& within_capacity(m, cap, workers)
}

/// A run of the pipeline: a nonempty trace that starts at the initial state
/// and moves by single hand-offs.  Workers interleave arbitrarily: any order
/// of steps the scheduler can produce is such a trace.
pub open spec fn is_run<I, O>(tr: Seq<PipelineModel<I, O>>, jobs: Seq<I>, tf: spec_fn(I) -> O, cap: nat, workers: nat) -> bool {
    &&& tr.len() > 0
    &&& tr[0] == init::<I, O>(jobs)
    &&& forall|k: int| 0 <= k < tr.len() - 1 ==> #[trigger] step(tr[k], tr[k + 1], tf, cap, workers)
}

/// Fully drained: every job was produced, claimed and delivered, and every
/// result was pulled.
pub open spec fn drained<I, O>(m: PipelineModel<I, O>) -> bool {
    &&& m.pending.len() == 0
    &&& m.queued.len() == 0
    &&& m.claimed.len() == 0
    &&& m.ready.len() == 0
}

/// A nonempty sequence is its first element inserted into the rest.
proof fn lemma_head_multiset<A>(s: Seq<A>)
    requires
        s.len() > 0,
    ensures
        s.to_multiset() == s.drop_first().to_multiset().insert(s[0]),
{
    broadcast use group_to_multiset_ensures;
    broadcast use group_multiset_axioms;

    assert(s.remove(0) =~= s.drop_first());
    assert(s.contains(s[0]));
    assert(s.to_multiset().count(s[0]) > 0);
    assert(s.drop_first().to_multiset() == s.to_multiset().remove(s[0]));
    assert(s.to_multiset() =~= s.to_multiset().remove(s[0]).insert(s[0]));
}

/// Mapping a transform over a sequence commutes with dropping the front.
proof fn lemma_map_drop_first<I, O>(s: Seq<I>, tf: spec_fn(I) -> O)
    requires
        s.len() > 0,
    ensures
        s.drop_first().map_values(tf) == s.map_values(tf).drop_first(),
{
    assert(s.drop_first().map_values(tf) =~= s.map_values(tf).drop_first());
}

/// Mapping a transform over a sequence commutes with pushing at the back.
proof fn lemma_map_push<I, O>(s: Seq<I>, tf: spec_fn(I) -> O, x: I)
    ensures
        s.push(x).map_values(tf) == s.map_values(tf).push(tf(x)),
{
    assert(s.push(x).map_values(tf) =~= s.map_values(tf).push(tf(x)));
}

/// Mapping a transform over a sequence commutes with removing an element.
proof fn lemma_map_remove<I, O>(s: Seq<I>, tf: spec_fn(I) -> O, k: int)
    requires
        0 <= k < s.len(),
    ensures
        s.remove(k).map_values(tf) == s.map_values(tf).remove(k),
{
    assert(s.remove(k).map_values(tf) =~= s.map_values(tf).remove(k));
}

/// The initial state satisfies the invariant: everything is still pending.
pub proof fn lemma_init_inv<I, O>(jobs: Seq<I>, tf: spec_fn(I) -> O, cap: nat, workers: nat)
    ensures
        inv(init::<I, O>(jobs), jobs, tf, cap, workers),
{
    broadcast use group_to_multiset_ensures;
    broadcast use group_multiset_axioms;

    let m = init::<I, O>(jobs);
    assert(Seq::<O>::empty().to_multiset() =~= Multiset::<O>::empty()) by {
        assert forall|a: O| Seq::<O>::empty().to_multiset().count(a) == 0 by {
            assert(!Seq::<O>::empty().contains(a));
        }
    }
    assert(m.claimed.map_values(tf) =~= Seq::<O>::empty());
    assert(m.queued.map_values(tf) =~= Seq::<O>::empty());
    assert(in_flight_sum(m, tf) =~= jobs.map_values(tf).to_multiset());
}

/// Every single hand-off preserves the invariant.
pub proof fn lemma_step_preserves_inv<I, O>(
    pre: PipelineModel<I, O>,
    post: PipelineModel<I, O>,
    jobs: Seq<I>,
    tf: spec_fn(I) -> O,
    cap: nat,
    workers: nat,
)
    requires
        inv(pre, jobs, tf, cap, workers),
        step(pre, post, tf, cap, workers),
    ensures
        inv(post, jobs, tf, cap, workers),
{
    broadcast use group_to_multiset_ensures;
    broadcast use group_multiset_axioms;

    if produce_step(pre, post, cap) {
        let t = tf(pre.pending[0]);
        lemma_map_push(pre.queued, tf, pre.pending[0]);
        lemma_map_drop_first(pre.pending, tf);
        lemma_head_multiset(pre.pending.map_values(tf));
        assert(pre.pending.map_values(tf)[0] == t);
        assert(in_flight_sum(post, tf) =~= in_flight_sum(pre, tf));
    } else if claim_step(pre, post, workers) {
        let t = tf(pre.queued[0]);
        lemma_map_push(pre.claimed, tf, pre.queued[0]);
        lemma_map_drop_first(pre.queued, tf);
        lemma_head_multiset(pre.queued.map_values(tf));
        assert(pre.queued.map_values(tf)[0] == t);
        assert(in_flight_sum(post, tf) =~= in_flight_sum(pre, tf));
    } else if deliver_step(pre, post, tf, cap) {
        let k = choose|k: int|
            {
                &&& 0 <= k < pre.claimed.len()
                &&& post.claimed == pre.claimed.remove(k)
                &&& post.ready == pre.ready.push(tf(pre.claimed[k]))
            };
        let t = tf(pre.claimed[k]);
        lemma_map_remove(pre.claimed, tf, k);
        assert(pre.claimed.map_values(tf)[k] == t);
        assert(pre.claimed.map_values(tf).remove(k).to_multiset() == pre.claimed.map_values(
            tf,
        ).to_multiset().remove(t));
        assert(pre.claimed.map_values(tf).to_multiset().count(t) > 0) by {
            assert(pre.claimed.map_values(tf).contains(pre.claimed.map_values(tf)[k]));
        }
        assert(in_flight_sum(post, tf) =~= in_flight_sum(pre, tf));
    } else {
        lemma_head_multiset(pre.ready);
        assert(in_flight_sum(post, tf) =~= in_flight_sum(pre, tf));
    }
}

/// The invariant holds at every state of every run.
pub proof fn lemma_run_inv<I, O>(
    tr: Seq<PipelineModel<I, O>>,
    jobs: Seq<I>,
    tf: spec_fn(I) -> O,
    cap: nat,
    workers: nat,
    k: int,
)
    requires
        is_run(tr, jobs, tf, cap, workers),
        0 <= k < tr.len(),
    ensures
        inv(tr[k], jobs, tf, cap, workers),
    decreases k,
{
    if k == 0 {
        lemma_init_inv::<I, O>(jobs, tf, cap, workers);
    } else {
        let j = k - 1;
        lemma_run_inv(tr, jobs, tf, cap, workers, j);
        assert(step(tr[j], tr[j + 1], tf, cap, workers));
        lemma_step_preserves_inv(tr[j], tr[k], jobs, tf, cap, workers);
    }
}

/// Completeness, no duplication, no loss: a run that ends fully drained has
/// gathered exactly the multiset of the sequential map of the jobs — one
/// result per job, the same results a sequential map would give, in some
/// order — for any job sequence, any transform, any channel capacity, and
/// any interleaving of the producer, the workers and the caller.
pub proof fn lemma_scatter_gather_complete<I, O>(
    tr: Seq<PipelineModel<I, O>>,
    jobs: Seq<I>,
    tf: spec_fn(I) -> O,
    cap: nat,
    workers: nat,
)
    requires
        is_run(tr, jobs, tf, cap, workers),
        drained(tr.last()),
    ensures
        tr.last().gathered.to_multiset() == jobs.map_values(tf).to_multiset(),
        tr.last().gathered.len() == jobs.len(),
{
    broadcast use group_to_multiset_ensures;
    broadcast use group_multiset_axioms;

    lemma_run_inv(tr, jobs, tf, cap, workers, tr.len() - 1);
    let m = tr.last();
    assert(Seq::<O>::empty().to_multiset() =~= Multiset::<O>::empty()) by {
        assert forall|a: O| Seq::<O>::empty().to_multiset().count(a) == 0 by {
            assert(!Seq::<O>::empty().contains(a));
        }
    }
    assert(m.ready =~= Seq::<O>::empty());
    assert(m.claimed.map_values(tf) =~= Seq::<O>::empty());
    assert(m.queued.map_values(tf) =~= Seq::<O>::empty());
    assert(m.pending.map_values(tf) =~= Seq::<O>::empty());
    assert(m.gathered.to_multiset() =~= in_flight_sum(m, tf));
    assert(jobs.map_values(tf).to_multiset().len() == jobs.map_values(tf).len());
}

/// Backpressure: at every instant of every run, each channel holds at most
/// its capacity, at most one job per worker is under transformation, and so
/// the producer's lead over the caller — jobs pushed versus results pulled —
/// never exceeds one job per worker plus the two channels' capacity.  With
/// the one-slot channels of the design the lead is at most `workers + 2`.
pub proof fn lemma_backpressure<I, O>(
    tr: Seq<PipelineModel<I, O>>,
    jobs: Seq<I>,
    tf: spec_fn(I) -> O,
    cap: nat,
    workers: nat,
    k: int,
)
    requires
        is_run(tr, jobs, tf, cap, workers),
        0 <= k < tr.len(),
    ensures
        tr[k].queued.len() <= cap,
        tr[k].ready.len() <= cap,
        tr[k].claimed.len() <= workers,
        jobs.len() <= tr[k].pending.len() + tr[k].gathered.len() + workers + 2 * cap,
{
    broadcast use group_to_multiset_ensures;
    broadcast use group_multiset_axioms;

    lemma_run_inv(tr, jobs, tf, cap, workers, k);
    let m = tr[k];
    assert(in_flight_sum(m, tf).len() == m.gathered.len() + m.ready.len() + m.claimed.len()
        + m.queued.len() + m.pending.len()) by {
        assert(m.gathered.to_multiset().len() == m.gathered.len());
        assert(m.ready.to_multiset().len() == m.ready.len());
        assert(m.claimed.map_values(tf).to_multiset().len() == m.claimed.len());
        assert(m.queued.map_values(tf).to_multiset().len() == m.queued.len());
        assert(m.pending.map_values(tf).to_multiset().len() == m.pending.len());
    }
    assert(jobs.map_values(tf).to_multiset().len() == jobs.len());
}

} // verus!
