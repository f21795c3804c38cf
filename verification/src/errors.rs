//! The failure taxonomy of a benchmark run.

use vstd::prelude::*;

verus! {

/// Every way a benchmark run can fail.
///
/// A kernel core-query failure (`Sampling`) is special: callers absorb it
/// through the fallback-to-zero policy and it never aborts a run. All the
/// other variants are fatal to the run that raised them.
#[derive(Clone, Copy, Debug, PartialEq, Eq, Structural)]
pub enum BenchError {
    /// The two input slices of a dispatch have different lengths.
    ShapeMismatch,
    /// A worker pool was requested with zero threads.
    InvalidPoolSize,
    /// The kernel refused to apply an affinity mask.
    Affinity,
    /// An external stress process failed to launch.
    Spawn,
    /// The kernel core query failed; absorbed by fallback-to-zero.
    Sampling,
}

impl BenchError {
    /// A short diagnostic label for the error.
    pub fn label(&self) -> (r: &'static str)
        ensures
            self is ShapeMismatch ==> r@ == "shape mismatch"@,
            self is InvalidPoolSize ==> r@ == "invalid pool size"@,
            self is Affinity ==> r@ == "affinity error"@,
            self is Spawn ==> r@ == "spawn error"@,
            self is Sampling ==> r@ == "sampling error"@,
    {
        match self {
            BenchError::ShapeMismatch => "shape mismatch",
            BenchError::InvalidPoolSize => "invalid pool size",
            BenchError::Affinity => "affinity error",
            BenchError::Spawn => "spawn error",
            BenchError::Sampling => "sampling error",
        }
    }
}

} // verus!
