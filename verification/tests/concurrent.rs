use rayon::ThreadPoolBuilder;
use sched_bench::aggregator::FrequencyAggregator;
use std::sync::{Arc, Mutex};

// One simulated dispatch: `units` parallel tasks, each sampling a fake
// core id and incrementing the shared aggregator under its lock, as the
// worker pool does in a real run.
fn dispatch_units(pool_threads: usize, units: usize) -> (usize, Vec<(usize, usize)>) {
    let pool = ThreadPoolBuilder::new()
        .num_threads(pool_threads)
        .build()
        .unwrap();
    let agg = Arc::new(Mutex::new(FrequencyAggregator::new()));
    pool.install(|| {
        rayon::scope(|s| {
            for u in 0..units {
                let agg = Arc::clone(&agg);
                s.spawn(move |_| {
                    let mut a = agg.lock().unwrap();
                    a.increment(u % 7);
                });
            }
        });
    });
    let table = agg.lock().unwrap().snapshot();
    let total = table.iter().map(|&(_, n)| n).sum();
    (total, table)
}

#[test]
fn concurrent_aggregation_loses_no_update() {
    let units = 700;
    // Pool sizes one, two, and the machine's own parallelism (zero asks
    // the pool for its default, the number of available cores).
    for pool_threads in [1usize, 2, 0] {
        let (total, table) = dispatch_units(pool_threads, units);
        assert_eq!(total, units);
        for &(core, count) in &table {
            assert!(core < 7);
            assert_eq!(count, 100);
        }
    }
}
