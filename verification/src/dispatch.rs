//! Workload dispatch: splitting a fixed-size input into independent
//! units of parallel work and recording one core sample per unit.
//!
//! The worker pool itself runs outside this crate; it executes one unit
//! per pool task, samples the executing core, and hands the outcomes
//! back as plain values. This module verifies everything the pool does
//! not: the unit geometry, the shape and pool-size validation, and the
//! aggregation of the returned samples.

use vstd::prelude::*;

use crate::aggregator::{occ, resolved, FrequencyAggregator};
use crate::errors::BenchError;

verus! {

/// Width of one vectorized chunk, in elements.
pub const SIMD_WIDTH: usize = 8;

/// How input elements are grouped into units of parallel work.
///
/// `Vectorized` covers elements `[i * 8, i * 8 + 8)` per unit; `Scalar`
/// is the reduced-sampling variant with one unit per stride of 8
/// elements, reading the single representative element `i * 8`, so that
/// both kinds produce the same number of sampling events for a given
/// input length.
#[derive(Clone, Copy, Debug, PartialEq, Eq, Structural)]
pub enum WorkloadKind {
    Vectorized,
    Scalar,
}

/// Number of units of parallel work (= sampling events) a dispatch of
/// `len` elements produces.
pub open spec fn spec_unit_count(len: nat, kind: WorkloadKind) -> nat {
    match kind {
        WorkloadKind::Vectorized => len / (SIMD_WIDTH as nat),
        WorkloadKind::Scalar => len / (SIMD_WIDTH as nat),
    }
}

/// Sampling-density normalization: for any input length, the vectorized
/// and the reduced-sampling scalar workload dispatch the same number of
/// units, so their frequency tables are comparable.
pub proof fn lemma_sampling_density_normalized(len: nat)
    ensures
        spec_unit_count(len, WorkloadKind::Vectorized) == spec_unit_count(
            len,
            WorkloadKind::Scalar,
        ),
{
}

/// A validated dispatch: equal input lengths and a usable pool size.
pub struct DispatchPlan {
    input_len: usize,
    kind: WorkloadKind,
    pool_size: usize,
    inner_iterations: usize,
}

impl DispatchPlan {
    pub closed spec fn spec_input_len(self) -> usize {
        self.input_len
    }

    pub closed spec fn spec_kind(self) -> WorkloadKind {
        self.kind
    }

    pub closed spec fn spec_pool_size(self) -> usize {
        self.pool_size
    }

    pub closed spec fn spec_inner_iterations(self) -> usize {
        self.inner_iterations
    }

    pub open spec fn well_formed(self) -> bool {
        self.spec_pool_size() >= 1
    }

    /// The number of units this plan dispatches.
    pub open spec fn spec_units(self) -> nat {
        spec_unit_count(self.spec_input_len() as nat, self.spec_kind())
    }

    /// Validates a dispatch: the two input slices must have the same
    /// length (`ShapeMismatch` otherwise, fatal, not retried) and the
    /// pool must have at least one thread (`InvalidPoolSize` otherwise).
    pub fn new(
        len_a: usize,
        len_b: usize,
        kind: WorkloadKind,
        pool_size: usize,
        inner_iterations: usize,
    ) -> (r: Result<DispatchPlan, BenchError>)
        ensures
            r is Ok <==> (len_a == len_b && pool_size >= 1),
            len_a != len_b ==> r == Result::<DispatchPlan, BenchError>::Err(
                BenchError::ShapeMismatch,
            ),
            len_a == len_b && pool_size == 0 ==> r == Result::<DispatchPlan, BenchError>::Err(
                BenchError::InvalidPoolSize,
            ),
            r is Ok ==> ({
                let plan = r->Ok_0;
                plan.well_formed() && plan.spec_input_len() == len_a && plan.spec_kind() == kind
                    && plan.spec_pool_size() == pool_size && plan.spec_inner_iterations()
                    == inner_iterations
            }),
    {
        if len_a != len_b {
            Result::Err(BenchError::ShapeMismatch)
        } else if pool_size == 0 {
            Result::Err(BenchError::InvalidPoolSize)
        } else {
            Result::Ok(DispatchPlan { input_len: len_a, kind, pool_size, inner_iterations })
        }
    }

    /// The pool size the plan was validated with.
    pub fn pool_size(&self) -> (r: usize)
        ensures
            r == self.spec_pool_size(),
    {
        self.pool_size
    }

    /// Repetitions of the unit's arithmetic: scheduler dwell time per
    /// unit, so one core sample reflects sustained placement rather
    /// than a one-shot snapshot. No other effect on the result.
    pub fn inner_iterations(&self) -> (r: usize)
        ensures
            r == self.spec_inner_iterations(),
    {
        self.inner_iterations
    }

    /// The workload kind of this plan.
    pub fn kind(&self) -> (r: WorkloadKind)
        ensures
            r == self.spec_kind(),
    {
        self.kind
    }

    /// The number of units of parallel work, each sampled exactly once.
    pub fn unit_count(&self) -> (r: usize)
        ensures
            r == self.spec_units(),
    {
        self.input_len / SIMD_WIDTH
    }

    /// First input index of unit `i`. For `Vectorized`, the unit covers
    /// the eight elements starting there; for `Scalar`, it reads that
    /// single representative element.
    pub fn unit_start(&self, i: usize) -> (r: usize)
        requires
            i < self.spec_units(),
        ensures
            r == i * SIMD_WIDTH,
            r + SIMD_WIDTH <= self.spec_input_len(),
    {
        proof {
            lemma_unit_in_bounds(self.input_len as nat, i as nat);
        }
        i * SIMD_WIDTH
    }

    /// One past the last input index of unit `i`.
    pub fn unit_end(&self, i: usize) -> (r: usize)
        requires
            i < self.spec_units(),
        ensures
            r == i * SIMD_WIDTH + self.spec_unit_width(),
            r <= self.spec_input_len(),
    {
        proof {
            lemma_unit_in_bounds(self.input_len as nat, i as nat);
        }
        match self.kind {
            WorkloadKind::Vectorized => i * SIMD_WIDTH + SIMD_WIDTH,
            WorkloadKind::Scalar => i * SIMD_WIDTH + 1,
        }
    }

    /// Elements each unit touches: a full chunk, or one representative.
    pub open spec fn spec_unit_width(self) -> nat {
        match self.spec_kind() {
            WorkloadKind::Vectorized => SIMD_WIDTH as nat,
            WorkloadKind::Scalar => 1,
        }
    }

    /// First index of the trailing remainder (`Vectorized` only): the
    /// `len mod 8` elements processed sequentially, outside the pool
    /// and without sampling.
    pub fn remainder_start(&self) -> (r: usize)
        ensures
            r == self.spec_units() * SIMD_WIDTH,
            r <= self.spec_input_len(),
            self.spec_input_len() - r == self.spec_input_len() as nat % (SIMD_WIDTH as nat),
    {
        proof {
            vstd::arithmetic::div_mod::lemma_fundamental_div_mod(self.input_len as int, 8);
        }
        (self.input_len / SIMD_WIDTH) * SIMD_WIDTH
    }

    /// Number of trailing elements left out of the parallel portion.
    pub fn remainder_len(&self) -> (r: usize)
        ensures
            r == self.spec_input_len() as nat % (SIMD_WIDTH as nat),
            r < SIMD_WIDTH,
    {
        self.input_len % SIMD_WIDTH
    }
}

/// Every unit's chunk lies inside the input.
proof fn lemma_unit_in_bounds(len: nat, i: nat)
    requires
        i < len / (SIMD_WIDTH as nat),
    ensures
        i * (SIMD_WIDTH as nat) + SIMD_WIDTH <= len,
{
    vstd::arithmetic::div_mod::lemma_fundamental_div_mod(len as int, 8);
    assert((i + 1) * 8 <= (len / 8) * 8) by (nonlinear_arith)
        requires
            i + 1 <= len / 8,
    ;
    assert(i * 8 + 8 == (i + 1) * 8) by (nonlinear_arith);
}

/// Runs the recording half of one dispatch: validates the inputs as
/// `DispatchPlan::new` does and, when valid, records the pool's sampling
/// outcomes — one per unit — into the aggregator. On any validation
/// error the aggregator is left untouched: a rejected dispatch performs
/// zero aggregator mutations.
pub fn dispatch_record(
    agg: &mut FrequencyAggregator,
    len_a: usize,
    len_b: usize,
    kind: WorkloadKind,
    pool_size: usize,
    samples: &Vec<Option<usize>>,
) -> (r: Result<(), BenchError>)
    requires
        old(agg).well_formed(),
        old(agg).total() + samples@.len() <= usize::MAX,
        len_a == len_b && pool_size >= 1 ==> samples@.len() == spec_unit_count(len_a as nat, kind),
    ensures
        r is Ok <==> (len_a == len_b && pool_size >= 1),
        len_a != len_b ==> r == Result::<(), BenchError>::Err(BenchError::ShapeMismatch)
            && *final(agg) == *old(agg),
        len_a == len_b && pool_size == 0 ==> r == Result::<(), BenchError>::Err(
            BenchError::InvalidPoolSize,
        ) && *final(agg) == *old(agg),
        r is Ok ==> final(agg).well_formed() && final(agg).total() == old(agg).total()
            + spec_unit_count(len_a as nat, kind) && (forall|c: usize|
            final(agg).count_of(c) == old(agg).count_of(c) + occ(resolved(samples@), c)),
{
    match DispatchPlan::new(len_a, len_b, kind, pool_size, 1) {
        Result::Err(e) => Result::Err(e),
        Result::Ok(_) => {
            agg.record_samples(samples);
            Result::Ok(())
        },
    }
}

} // verus!
