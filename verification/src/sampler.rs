//! The core-sampling policy.
//!
//! The kernel query that reports which CPU core executes the calling
//! thread lives outside this crate; the library receives each outcome as
//! an `Option<usize>` (`None` when the kernel call failed) and applies
//! the fallback-to-zero policy: a failed sample is attributed to core 0
//! rather than aborting the run. The bias this introduces is a
//! documented limitation, not corrected here.

use vstd::prelude::*;

verus! {

/// The core id a sampling outcome is attributed to: the reported core,
/// or core 0 when the kernel query failed.
pub open spec fn spec_resolve(sample: Option<usize>) -> usize {
    match sample {
        Option::Some(core) => core,
        Option::None => 0,
    }
}

/// Applies the fallback-to-zero policy to one sampling outcome.
pub fn fallback_core(sample: Option<usize>) -> (r: usize)
    ensures
        r == spec_resolve(sample),
{
    match sample {
        Option::Some(core) => core,
        Option::None => 0,
    }
}

} // verus!
