use sched_bench::affinity::{affinity_outcome, mask_from_cores};
use sched_bench::aggregator::FrequencyAggregator;
use sched_bench::dispatch::{dispatch_record, DispatchPlan, WorkloadKind};
use sched_bench::errors::BenchError;
use sched_bench::orchestrator::{
    command_argv, decimal_string, join_outcome, split_command, stress_command,
};
use sched_bench::sampler::fallback_core;
use sched_bench::scenario::{
    fft_job_preset, gcd_job_preset, numeric_arg_or, parse_usize, scalar_chart_file,
    scalar_chart_title, scenario_from_token, simd_chart_file, simd_chart_title, Scenario,
};

#[test]
fn conservation_of_recorded_samples() {
    let mut agg = FrequencyAggregator::new();
    let samples = vec![Some(2usize), Some(0), Some(2), None, Some(7)];
    agg.record_samples(&samples);
    let table = agg.snapshot();
    let total: usize = table.iter().map(|&(_, n)| n).sum();
    assert_eq!(total, 5);
}

#[test]
fn increment_counts_each_core() {
    let mut agg = FrequencyAggregator::new();
    agg.increment(3);
    agg.increment(3);
    agg.increment(5);
    let table = agg.snapshot();
    assert_eq!(table, vec![(3, 2), (5, 1)]);
}

#[test]
fn shape_mismatch_fails_without_mutation() {
    let mut agg = FrequencyAggregator::new();
    let samples = vec![Some(1usize); 4];
    let r = dispatch_record(&mut agg, 32, 24, WorkloadKind::Vectorized, 4, &samples);
    assert_eq!(r, Err(BenchError::ShapeMismatch));
    assert!(agg.snapshot().is_empty());
}

#[test]
fn zero_pool_size_is_rejected() {
    let mut agg = FrequencyAggregator::new();
    let samples = vec![Some(1usize); 4];
    let r = dispatch_record(&mut agg, 32, 32, WorkloadKind::Scalar, 0, &samples);
    assert_eq!(r, Err(BenchError::InvalidPoolSize));
    assert!(agg.snapshot().is_empty());
}

#[test]
fn valid_dispatch_records_one_sample_per_unit() {
    let mut agg = FrequencyAggregator::new();
    let samples = vec![Some(0usize), Some(1), Some(0), Some(1)];
    let r = dispatch_record(&mut agg, 32, 32, WorkloadKind::Vectorized, 2, &samples);
    assert_eq!(r, Ok(()));
    assert_eq!(agg.snapshot(), vec![(0, 2), (1, 2)]);
}

#[test]
fn fallback_determinism_all_failures_map_to_core_zero() {
    let mut agg = FrequencyAggregator::new();
    let samples: Vec<Option<usize>> = vec![None; 128];
    agg.record_samples(&samples);
    let table = agg.snapshot();
    assert_eq!(table, vec![(0, 128)]);
}

#[test]
fn fallback_core_policy() {
    assert_eq!(fallback_core(Some(6)), 6);
    assert_eq!(fallback_core(None), 0);
}

#[test]
fn snapshot_is_sorted_by_descending_count() {
    let mut agg = FrequencyAggregator::new();
    for _ in 0..2 {
        agg.increment(9);
    }
    for _ in 0..5 {
        agg.increment(1);
    }
    for _ in 0..3 {
        agg.increment(4);
    }
    let table = agg.snapshot();
    assert_eq!(table, vec![(1, 5), (4, 3), (9, 2)]);
    for w in table.windows(2) {
        assert!(w[0].1 >= w[1].1);
    }
}

#[test]
fn sampling_density_is_normalized_between_kinds() {
    let vec_plan = DispatchPlan::new(1024, 1024, WorkloadKind::Vectorized, 4, 1).unwrap();
    let sca_plan = DispatchPlan::new(1024, 1024, WorkloadKind::Scalar, 4, 1).unwrap();
    assert_eq!(vec_plan.unit_count(), 128);
    assert_eq!(vec_plan.inner_iterations(), 1);
    assert_eq!(sca_plan.unit_count(), 128);
}

#[test]
fn unit_geometry_and_remainder() {
    let plan = DispatchPlan::new(20, 20, WorkloadKind::Vectorized, 2, 1000).unwrap();
    assert_eq!(plan.unit_count(), 2);
    assert_eq!(plan.unit_start(1), 8);
    assert_eq!(plan.unit_end(1), 16);
    assert_eq!(plan.remainder_start(), 16);
    assert_eq!(plan.remainder_len(), 4);
    let scalar = DispatchPlan::new(20, 20, WorkloadKind::Scalar, 2, 1000).unwrap();
    assert_eq!(scalar.unit_end(1), 9);
    assert_eq!(scalar.pool_size(), 2);
    assert_eq!(scalar.kind(), WorkloadKind::Scalar);
}

#[test]
fn join_surfaces_first_failure_after_all_jobs() {
    let all_ok: Vec<Result<i32, BenchError>> = vec![Ok(0), Ok(1)];
    assert_eq!(join_outcome(&all_ok), Ok(()));
    let one_failed: Vec<Result<i32, BenchError>> = vec![Ok(0), Err(BenchError::Spawn)];
    assert_eq!(join_outcome(&one_failed), Err(BenchError::Spawn));
    let both_failed: Vec<Result<i32, BenchError>> =
        vec![Err(BenchError::Spawn), Err(BenchError::Affinity)];
    assert_eq!(join_outcome(&both_failed), Err(BenchError::Spawn));
    let empty: Vec<Result<i32, BenchError>> = vec![];
    assert_eq!(join_outcome(&empty), Ok(()));
}

#[test]
fn stress_commands_match_their_presets() {
    let fft = stress_command(&fft_job_preset());
    assert_eq!(
        fft,
        "taskset -c 0-31 stress-ng --cpu 64 --cpu-method fft --metrics-brief --cpu-ops 3000000"
    );
    let gcd_isolated = stress_command(&gcd_job_preset(true));
    assert_eq!(
        gcd_isolated,
        "taskset -c 16-31 stress-ng --cpu 64 --cpu-method gcd --metrics-brief --cpu-ops 2000000"
    );
    let gcd_overlapping = stress_command(&gcd_job_preset(false));
    assert_eq!(
        gcd_overlapping,
        "taskset -c 0-15 stress-ng --cpu 64 --cpu-method gcd --metrics-brief --cpu-ops 2000000"
    );
    assert_eq!(fft_job_preset().niceness, 15);
    assert_eq!(gcd_job_preset(true).niceness, 0);
}

#[test]
fn decimal_rendering() {
    assert_eq!(decimal_string(0), "0");
    assert_eq!(decimal_string(7), "7");
    assert_eq!(decimal_string(100000), "100000");
    assert_eq!(decimal_string(usize::MAX), usize::MAX.to_string());
}

#[test]
fn command_splitting() {
    let parts = split_command("taskset -c 0-31 stress-ng");
    assert_eq!(parts, vec!["taskset", "-c", "0-31", "stress-ng"]);
    let padded = split_command("  a   bb ");
    assert_eq!(padded, vec!["a", "bb"]);
    let none = split_command("   ");
    assert!(none.is_empty());
    assert_eq!(command_argv(""), Err(BenchError::Spawn));
    let argv = command_argv("echo hello").unwrap();
    assert_eq!(argv[0], "echo");
}

#[test]
fn scenario_selection() {
    assert_eq!(scenario_from_token("simd"), Scenario::Simd);
    assert_eq!(scenario_from_token("stress"), Scenario::Stress);
    assert_eq!(
        scenario_from_token("stress_cpu_affinity"),
        Scenario::StressCpuAffinity
    );
    assert_eq!(scenario_from_token("anything-else"), Scenario::Bench);
    assert_eq!(scenario_from_token(""), Scenario::Bench);
}

#[test]
fn numeric_argument_parsing() {
    assert_eq!(parse_usize("123"), Some(123));
    assert_eq!(parse_usize("0"), Some(0));
    assert_eq!(parse_usize(""), None);
    assert_eq!(parse_usize("12a"), None);
    assert_eq!(parse_usize("-3"), None);
    assert_eq!(parse_usize("99999999999999999999999999"), None);
    let twelve = String::from("12");
    let junk = String::from("many");
    assert_eq!(numeric_arg_or(Some(&twelve), 8), 12);
    assert_eq!(numeric_arg_or(Some(&junk), 8), 8);
    assert_eq!(numeric_arg_or(None, 8), 8);
}

#[test]
fn affinity_mask_bits() {
    let mask = mask_from_cores(&vec![0, 1, 64, 1023]).unwrap();
    assert_eq!(mask.len(), 16);
    assert_eq!(mask[0], 0b11);
    assert_eq!(mask[1], 1);
    assert_eq!(mask[15], 1u64 << 63);
    for w in 2..15 {
        assert_eq!(mask[w], 0);
    }
    assert_eq!(mask_from_cores(&vec![0, 1024]), Err(BenchError::Affinity));
    assert_eq!(affinity_outcome(0), Ok(()));
    assert_eq!(affinity_outcome(-1), Err(BenchError::Affinity));
}

#[test]
fn error_labels() {
    assert_eq!(BenchError::ShapeMismatch.label(), "shape mismatch");
    assert_eq!(BenchError::InvalidPoolSize.label(), "invalid pool size");
    assert_eq!(BenchError::Affinity.label(), "affinity error");
    assert_eq!(BenchError::Spawn.label(), "spawn error");
    assert_eq!(BenchError::Sampling.label(), "sampling error");
}
