//! Tests that run the pipeline with real threads, wired the way a spawner
//! is meant to wire it: one producer thread driving `producer_step`, N
//! worker threads driving `worker_step`, and the gather iterator joining
//! every handle before it reports a terminal signal.

use parallel_iterator::handoff_channel;
use parallel_iterator::producer_step;
use parallel_iterator::worker_step;
use parallel_iterator::Gathered;
use parallel_iterator::ParallelIterator;
use parallel_iterator::StageStep;
use std::sync::atomic::AtomicUsize;
use std::sync::atomic::Ordering;
use std::sync::Arc;

use crossbeam_channel::Receiver;
use crossbeam_channel::Sender;
use crossbeam_utils::thread::Scope;
use crossbeam_utils::thread::ScopedJoinHandle;

type Handle<'a> = ScopedJoinHandle<'a, bool>;

fn join_one(handle: Handle<'_>) -> bool {
    match handle.join() {
        Ok(clean) => clean,
        Err(_) => false,
    }
}

/// Spawn the pipeline inside `scope`: one producer thread, `workers` worker
/// threads, and the assembled gather iterator over all their handles.
fn spawn_pipeline<'env, 'scope, PC, XC, P, X, I, O>(
    scope: &'scope Scope<'env>,
    workers: usize,
    producer_ctor: PC,
    xform_ctor: XC,
) -> ParallelIterator<O, Handle<'scope>>
where
    PC: 'env + Send + FnOnce() -> P,
    XC: 'env + Send + Sync + Fn() -> X,
    X: FnMut(I) -> O,
    I: 'env + Send,
    O: 'env + Send,
    P: Iterator<Item = I>,
{
    let mut threads = Vec::new();
    let (jobs_tx, jobs_rx): (Sender<I>, Receiver<I>) = handoff_channel();
    threads.push(scope.spawn(move |_| {
        let mut source = producer_ctor();
        loop {
            let (step, rest) = producer_step(&jobs_tx, source);
            source = rest;
            match step {
                StageStep::Advanced => {}
                StageStep::Finished => return true,
                StageStep::Fatal => return false,
            }
        }
    }));
    let (results_tx, results_rx): (Sender<O>, Receiver<O>) = handoff_channel();
    let factory = Arc::new(xform_ctor);
    for _ in 0..workers {
        let tx = results_tx.clone();
        let rx = jobs_rx.clone();
        let factory = factory.clone();
        threads.push(scope.spawn(move |_| {
            let mut xform = factory();
            loop {
                match worker_step(&rx, &tx, &mut xform) {
                    StageStep::Advanced => {}
                    StageStep::Finished => return true,
                    StageStep::Fatal => return false,
                }
            }
        }));
    }
    ParallelIterator::assemble(results_rx, threads)
}

/// Drain the pipeline to its first terminal signal; `true` means clean
/// exhaustion, `false` means the pipeline reported failure.
fn drain<'a, O>(it: &mut ParallelIterator<O, Handle<'a>>) -> (Vec<O>, bool) {
    let mut out = Vec::new();
    loop {
        match it.next(&join_one) {
            Gathered::Item(o) => out.push(o),
            Gathered::Exhausted => return (out, true),
            Gathered::Failed => return (out, false),
        }
    }
}

/// Run the whole pipeline to its first terminal signal.
fn run_drain<PC, XC, P, X, I, O>(workers: usize, producer_ctor: PC, xform_ctor: XC) -> (Vec<O>, bool)
where
    PC: Send + FnOnce() -> P,
    XC: Send + Sync + Fn() -> X,
    X: FnMut(I) -> O,
    I: Send,
    O: Send,
    P: Iterator<Item = I>,
{
    crossbeam_utils::thread::scope(|s| {
        let mut it = spawn_pipeline(s, workers, producer_ctor, xform_ctor);
        drain(&mut it)
    })
    .unwrap()
}

fn do_some_work(i: u32) -> u32 {
    (0..1000).fold(i, |acc, x| acc.wrapping_add(x))
}

#[test]
fn test_parallel_vs_sequential() {
    let prod_ctor = || (0u32..100);
    let xform_ctor = || do_some_work;
    let result_xform = |acc: u32, x| acc.wrapping_add(x);
    let prod = prod_ctor();
    let (results, clean) = run_drain(num_cpus::get(), prod_ctor, xform_ctor);
    assert!(clean);
    let par_r = results.into_iter().fold(0, result_xform);
    let seq_r = prod.map(do_some_work).fold(0, &result_xform);
    assert_eq!(par_r, seq_r);
}

#[test]
fn concrete_sum_is_5050() {
    let (results, clean) = run_drain(8, || (0u32..100), || |i: u32| i + 1);
    assert!(clean);
    let sum: u32 = results.iter().sum();
    assert_eq!(sum, 5050);
}

#[test]
fn gathered_multiset_equals_sequential_map() {
    let (mut results, clean) = run_drain(3, || (0u32..50), || |i: u32| i * 2 + 1);
    assert!(clean);
    results.sort();
    let expected: Vec<u32> = (0u32..50).map(|i| i * 2 + 1).collect();
    assert_eq!(results, expected);
}

#[test]
fn exactly_one_result_per_job() {
    for workers in [1usize, 2, 8] {
        let (results, clean) = run_drain(workers, || (0u32..100), || |i: u32| i);
        assert!(clean);
        assert_eq!(results.len(), 100);
    }
}

#[test]
fn transform_constructed_once_per_worker() {
    let constructions = Arc::new(AtomicUsize::new(0));
    let ctor_count = constructions.clone();
    let workers = 4usize;
    let (results, clean) = run_drain(workers, || (0u32..200), move || {
        let id = ctor_count.fetch_add(1, Ordering::SeqCst);
        let mut handled = 0usize;
        move |i: u32| {
            handled += 1;
            (id, handled, i)
        }
    });
    assert!(clean);
    // The constructor ran exactly once per worker, not once per job.
    assert_eq!(constructions.load(Ordering::SeqCst), workers);
    assert_eq!(results.len(), 200);
    // Each instance observed only the jobs routed to it: its private counter
    // went 1, 2, 3, ... with no gaps and no interference from other workers.
    let mut per_instance: Vec<Vec<usize>> = vec![Vec::new(); workers];
    for (id, handled, _i) in &results {
        per_instance[*id].push(*handled);
    }
    let mut total = 0usize;
    for counts in &mut per_instance {
        counts.sort();
        for (pos, c) in counts.iter().enumerate() {
            assert_eq!(*c, pos + 1);
        }
        total += counts.len();
    }
    assert_eq!(total, 200);
}

#[test]
fn producer_never_races_ahead_of_consumer() {
    let produced = Arc::new(AtomicUsize::new(0));
    let counter = produced.clone();
    crossbeam_utils::thread::scope(|s| {
        let mut it = spawn_pipeline(s, 1, move || {
            (0u32..60).map(move |i| {
                counter.fetch_add(1, Ordering::SeqCst);
                i
            })
        }, || |i: u32| i);
        let mut consumed = 0usize;
        loop {
            // A deliberately slow consumer: spin a little before each pull.
            let mut spin = 0u64;
            for k in 0..100_000u64 {
                spin = spin.wrapping_add(std::hint::black_box(k));
            }
            std::hint::black_box(spin);
            match it.next(&join_one) {
                Gathered::Item(_) => {
                    consumed += 1;
                    // One job may sit in each one-slot channel, one may be
                    // held by the single worker, and one by the producer.
                    assert!(produced.load(Ordering::SeqCst) <= consumed + 4);
                }
                Gathered::Exhausted => break,
                Gathered::Failed => panic!("pipeline failed"),
            }
        }
        assert_eq!(consumed, 60);
    })
    .unwrap();
}

#[test]
fn exhaustion_is_terminal_and_joins_all_threads() {
    crossbeam_utils::thread::scope(|s| {
        let mut it = spawn_pipeline(s, 2, || (0u32..10), || |i: u32| i);
        let (results, clean) = drain(&mut it);
        assert!(clean);
        assert_eq!(results.len(), 10);
        // No thread outlives the terminal report.
        assert_eq!(it.remaining_handles(), 0);
        // The terminal state is absorbing and deterministic.
        for _ in 0..3 {
            assert!(matches!(it.next(&join_one), Gathered::Exhausted));
            assert_eq!(it.remaining_handles(), 0);
        }
    })
    .unwrap();
}

#[test]
fn panicking_transform_fails_the_pipeline() {
    crossbeam_utils::thread::scope(|s| {
        let mut it = spawn_pipeline(s, 4, || (0u32..100), || {
            |i: u32| {
                if i == 50 {
                    panic!("transform rejected this job");
                }
                i + 1
            }
        });
        let (_results, clean) = drain(&mut it);
        // Draining to completion must raise the fatal condition, not
        // silently truncate into clean exhaustion.
        assert!(!clean);
        assert_eq!(it.remaining_handles(), 0);
        // Failure, too, is absorbing.
        assert!(matches!(it.next(&join_one), Gathered::Failed));
    })
    .unwrap();
}

#[test]
fn zero_workers_yield_no_results() {
    // A degenerate but permitted configuration: nobody claims the jobs, the
    // producer's sends fail fatally once the jobs channel has no receivers,
    // and that failure is surfaced at join time.
    let (results, clean) = run_drain(0, || (0u32..5), || |i: u32| i);
    assert_eq!(results.len(), 0);
    assert!(!clean);
}

#[test]
fn zero_workers_empty_producer_exhausts_cleanly() {
    let (results, clean) = run_drain(0, || (0u32..0), || |i: u32| i);
    assert_eq!(results.len(), 0);
    assert!(clean);
}
