//! Scenario selection and run configuration.
//!
//! A run is selected by a single token. Three tokens name terminal
//! actions; any other token selects the inert `Bench` scenario, which
//! does nothing — a documented quirk kept as observed, not an error.
//! Numeric positional arguments configure pool sizes and repetition
//! counts; an absent or unparsable argument falls back to the named
//! default for its slot.

use vstd::prelude::*;

use crate::orchestrator::{StressJobSpec, StressMethod};

verus! {

/// Worker threads per pool when no argument names a count.
pub const DEFAULT_POOL_SIZE: usize = 12;

/// Repetitions of the paired dispatch when no argument names a count.
pub const DEFAULT_REPETITIONS: usize = 100000;

/// Workers each external stress generator starts.
pub const STRESS_WORKERS: usize = 64;

/// Operations target of the fft-style (SIMD-like) stress job.
pub const FFT_CPU_OPS: usize = 3000000;

/// Operations target of the gcd-style (non-SIMD-like) stress job.
pub const GCD_CPU_OPS: usize = 2000000;

/// The action a run performs.
#[derive(Clone, Copy, Debug, PartialEq, Eq, Structural)]
pub enum Scenario {
    /// Paired vectorized-versus-scalar core-affinity measurement.
    Simd,
    /// Two-job external stress run without distinct core constraints.
    Stress,
    /// Two-job external stress run with distinct core ranges per job.
    StressCpuAffinity,
    /// The inert default: no action taken.
    Bench,
}

/// Maps the selector token to its scenario; every unrecognized token
/// selects the inert `Bench` scenario.
pub fn scenario_from_token(t: &str) -> (r: Scenario)
    ensures
        t@ == "simd"@ ==> r == Scenario::Simd,
        t@ == "stress"@ ==> r == Scenario::Stress,
        t@ == "stress_cpu_affinity"@ ==> r == Scenario::StressCpuAffinity,
        t@ != "simd"@ && t@ != "stress"@ && t@ != "stress_cpu_affinity"@ ==> r == Scenario::Bench,
{
    proof {
        reveal_strlit("simd");
        reveal_strlit("stress");
        reveal_strlit("stress_cpu_affinity");
        assert("simd"@.len() == 4);
        assert("stress"@.len() == 6);
        assert("stress_cpu_affinity"@.len() == 19);
    }
    let token = t.to_owned();
    if token == String::from_str("simd") {
        Scenario::Simd
    } else if token == String::from_str("stress") {
        Scenario::Stress
    } else if token == String::from_str("stress_cpu_affinity") {
        Scenario::StressCpuAffinity
    } else {
        Scenario::Bench
    }
}

/// Whether `c` is a decimal digit.
pub open spec fn spec_is_digit(c: char) -> bool {
    48 <= c as u32 <= 57
}

/// The value of one digit character.
pub open spec fn spec_digit_val(c: char) -> nat {
    (c as u32 - 48) as nat
}

/// Whether the whole string is made of decimal digits.
pub open spec fn spec_all_digits(s: Seq<char>) -> bool {
    forall|i: int| 0 <= i < s.len() ==> spec_is_digit(#[trigger] s[i])
}

/// The numeric value of a digit string, most significant digit first.
pub open spec fn spec_digits_value(s: Seq<char>) -> nat
    decreases s.len(),
{
    if s.len() == 0 {
        0
    } else {
        spec_digits_value(s.drop_last()) * 10 + spec_digit_val(s.last())
    }
}

/// A digit string's prefixes never exceed its value.
proof fn lemma_prefix_value_le(s: Seq<char>, k: int)
    requires
        0 <= k <= s.len(),
    ensures
        spec_digits_value(s.take(k)) <= spec_digits_value(s),
    decreases s.len() - k,
{
    if k < s.len() {
        lemma_prefix_value_le(s, k + 1);
        assert(s.take(k + 1).drop_last() =~= s.take(k));
        assert(spec_digits_value(s.take(k + 1)) == spec_digits_value(s.take(k)) * 10
            + spec_digit_val(s.take(k + 1).last()));
    } else {
        assert(s.take(k) =~= s);
    }
}

/// Parses a decimal numeral. Returns the value exactly when the string
/// is a nonempty run of digits whose value fits the machine word.
pub fn parse_usize(s: &str) -> (r: Option<usize>)
    ensures
        r is Some <==> (s@.len() > 0 && spec_all_digits(s@) && spec_digits_value(s@)
            <= usize::MAX),
        r is Some ==> r->0 == spec_digits_value(s@),
{
    let n = s.unicode_len();
    if n == 0 {
        return Option::None;
    }
    let mut acc: usize = 0;
    let mut i: usize = 0;
    while i < n
        invariant
            n == s@.len(),
            0 <= i <= n,
            spec_all_digits(s@.take(i as int)),
            acc == spec_digits_value(s@.take(i as int)),
        decreases n - i,
    {
        let c = s.get_char(i);
        let code = c as u32;
        proof {
            assert(s@.take(i + 1).drop_last() =~= s@.take(i as int));
            assert(s@.take(i + 1).last() == s@[i as int]);
        }
        if code < 48 || code > 57 {
            proof {
                assert(!spec_is_digit(s@[i as int]));
            }
            return Option::None;
        }
        let d = (code - 48) as usize;
        let step = match acc.checked_mul(10) {
            Option::Some(m) => m.checked_add(d),
            Option::None => Option::None,
        };
        match step {
            Option::Some(v) => {
                acc = v;
            },
            Option::None => {
                proof {
                    assert(spec_digits_value(s@.take(i + 1)) > usize::MAX);
                    lemma_prefix_value_le(s@, i + 1);
                }
                return Option::None;
            },
        }
        i += 1;
    }
    proof {
        assert(s@.take(n as int) =~= s@);
    }
    Option::Some(acc)
}

/// The value of an optional positional argument, or the slot's default
/// when the argument is absent or not a plain decimal numeral.
pub fn numeric_arg_or(arg: Option<&String>, default: usize) -> (r: usize)
    ensures
        arg is None ==> r == default,
        arg is Some ==> ({
            let s = arg->0@;
            if s.len() > 0 && spec_all_digits(s) && spec_digits_value(s) <= usize::MAX {
                r == spec_digits_value(s)
            } else {
                r == default
            }
        }),
{
    match arg {
        Option::Some(s) => match parse_usize(s.as_str()) {
            Option::Some(v) => v,
            Option::None => default,
        },
        Option::None => default,
    }
}

/// The fft-style (SIMD-like) stress job of the two-job scenarios; both
/// scenarios give it the full `0-31` core range and a niceness of 15.
pub fn fft_job_preset() -> (r: StressJobSpec)
    ensures
        r.method == StressMethod::Fft,
        r.workers == STRESS_WORKERS,
        r.cpu_ops == FFT_CPU_OPS,
        r.core_lo == 0,
        r.core_hi == 31,
        r.niceness == 15,
{
    StressJobSpec {
        method: StressMethod::Fft,
        workers: STRESS_WORKERS,
        cpu_ops: FFT_CPU_OPS,
        core_lo: 0,
        core_hi: 31,
        niceness: 15,
    }
}

/// The gcd-style (non-SIMD-like) stress job. With `isolated` the job is
/// pinned to the upper half `16-31`, demonstrating isolation; without,
/// it overlaps the fft job on `0-15`.
pub fn gcd_job_preset(isolated: bool) -> (r: StressJobSpec)
    ensures
        r.method == StressMethod::Gcd,
        r.workers == STRESS_WORKERS,
        r.cpu_ops == GCD_CPU_OPS,
        isolated ==> r.core_lo == 16 && r.core_hi == 31,
        !isolated ==> r.core_lo == 0 && r.core_hi == 15,
        r.niceness == 0,
{
    if isolated {
        StressJobSpec {
            method: StressMethod::Gcd,
            workers: STRESS_WORKERS,
            cpu_ops: GCD_CPU_OPS,
            core_lo: 16,
            core_hi: 31,
            niceness: 0,
        }
    } else {
        StressJobSpec {
            method: StressMethod::Gcd,
            workers: STRESS_WORKERS,
            cpu_ops: GCD_CPU_OPS,
            core_lo: 0,
            core_hi: 15,
            niceness: 0,
        }
    }
}

/// File name of the vectorized run's histogram artifact.
pub fn simd_chart_file() -> (r: &'static str)
    ensures
        r@ == "simd_cpu_id_frequencies.png"@,
{
    "simd_cpu_id_frequencies.png"
}

/// File name of the scalar run's histogram artifact.
pub fn scalar_chart_file() -> (r: &'static str)
    ensures
        r@ == "non_simd_cpu_id_frequencies.png"@,
{
    "non_simd_cpu_id_frequencies.png"
}

/// Title of the vectorized run's histogram.
pub fn simd_chart_title() -> (r: &'static str)
    ensures
        r@ == "SIMD CPU ID Frequencies"@,
{
    "SIMD CPU ID Frequencies"
}

/// Title of the scalar run's histogram.
pub fn scalar_chart_title() -> (r: &'static str)
    ensures
        r@ == "Non-SIMD CPU ID Frequencies"@,
{
    "Non-SIMD CPU ID Frequencies"
}

} // verus!
