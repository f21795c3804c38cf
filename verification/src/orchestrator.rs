//! External stress orchestration: the decisions.
//!
//! Spawning, priority adjustment and line streaming are operating-system
//! work done outside this crate. This module verifies what the
//! orchestrator decides: the exact command line each stress job runs,
//! how a command string splits into an argument vector, and the join
//! rule — every job is waited for, and the first launch failure is the
//! one surfaced.

use vstd::prelude::*;

use crate::errors::BenchError;

verus! {

/// The digit character for a value below ten.
pub open spec fn spec_digit_char(d: nat) -> char {
    if d == 0 {
        '0'
    } else if d == 1 {
        '1'
    } else if d == 2 {
        '2'
    } else if d == 3 {
        '3'
    } else if d == 4 {
        '4'
    } else if d == 5 {
        '5'
    } else if d == 6 {
        '6'
    } else if d == 7 {
        '7'
    } else if d == 8 {
        '8'
    } else {
        '9'
    }
}

/// The decimal rendering of `n`, most significant digit first.
pub open spec fn spec_decimal(n: nat) -> Seq<char>
    decreases n,
{
    if n < 10 {
        seq![spec_digit_char(n)]
    } else {
        spec_decimal(n / 10).push(spec_digit_char(n % 10))
    }
}

fn digit_str(d: usize) -> (r: &'static str)
    requires
        d < 10,
    ensures
        r@ == seq![spec_digit_char(d as nat)],
{
    proof {
        reveal_strlit("0");
        reveal_strlit("1");
        reveal_strlit("2");
        reveal_strlit("3");
        reveal_strlit("4");
        reveal_strlit("5");
        reveal_strlit("6");
        reveal_strlit("7");
        reveal_strlit("8");
        reveal_strlit("9");
    }
    let r = match d {
        0 => "0",
        1 => "1",
        2 => "2",
        3 => "3",
        4 => "4",
        5 => "5",
        6 => "6",
        7 => "7",
        8 => "8",
        _ => "9",
    };
    proof {
        assert(r@ =~= seq![spec_digit_char(d as nat)]);
    }
    r
}

/// Renders `n` in decimal.
pub fn decimal_string(n: usize) -> (r: String)
    ensures
        r@ == spec_decimal(n as nat),
    decreases n,
{
    if n < 10 {
        String::from_str(digit_str(n))
    } else {
        let mut s = decimal_string(n / 10);
        s.append(digit_str(n % 10));
        s
    }
}

/// The CPU-bound method an external stress job exercises: an
/// fft-style (SIMD-like) or a gcd-style (non-SIMD-like) workload shape.
#[derive(Clone, Copy, Debug, PartialEq, Eq, Structural)]
pub enum StressMethod {
    Fft,
    Gcd,
}

/// The method token as the external generator's command line spells it.
pub open spec fn spec_method_token(m: StressMethod) -> Seq<char> {
    match m {
        StressMethod::Fft => "fft"@,
        StressMethod::Gcd => "gcd"@,
    }
}

fn method_token(m: &StressMethod) -> (r: &'static str)
    ensures
        r@ == spec_method_token(*m),
{
    match m {
        StressMethod::Fft => "fft",
        StressMethod::Gcd => "gcd",
    }
}

/// One external stress job: command template parameters, CPU-ops
/// target, affinity core range and scheduling priority (niceness).
pub struct StressJobSpec {
    /// Workload shape of the generator.
    pub method: StressMethod,
    /// Number of CPU-bound workers the generator starts.
    pub workers: usize,
    /// Operations target after which the generator stops.
    pub cpu_ops: usize,
    /// First core of the affinity range.
    pub core_lo: usize,
    /// Last core of the affinity range (inclusive).
    pub core_hi: usize,
    /// Niceness applied before the spawn; lower favors the job.
    pub niceness: i32,
}

/// The exact command line a stress job runs.
pub open spec fn spec_stress_command(j: StressJobSpec) -> Seq<char> {
    "taskset -c "@ + spec_decimal(j.core_lo as nat) + "-"@ + spec_decimal(j.core_hi as nat)
        + " stress-ng --cpu "@ + spec_decimal(j.workers as nat) + " --cpu-method "@
        + spec_method_token(j.method) + " --metrics-brief --cpu-ops "@ + spec_decimal(
        j.cpu_ops as nat,
    )
}

/// Builds the command line for one stress job, character for character.
pub fn stress_command(j: &StressJobSpec) -> (r: String)
    ensures
        r@ == spec_stress_command(*j),
{
    let mut s = String::from_str("taskset -c ");
    let lo = decimal_string(j.core_lo);
    s.append(lo.as_str());
    s.append("-");
    let hi = decimal_string(j.core_hi);
    s.append(hi.as_str());
    s.append(" stress-ng --cpu ");
    let w = decimal_string(j.workers);
    s.append(w.as_str());
    s.append(" --cpu-method ");
    s.append(method_token(&j.method));
    s.append(" --metrics-brief --cpu-ops ");
    let ops = decimal_string(j.cpu_ops);
    s.append(ops.as_str());
    proof {
        assert(s@ =~= spec_stress_command(*j));
    }
    s
}

/// The join rule over the outcomes of concurrently launched jobs.
///
/// The caller waits for every job — no job is abandoned because a
/// sibling failed — and only then passes the collected outcomes here:
/// one entry per job, the child's exit status or its spawn failure.
/// The first failure, in launch order, is the one surfaced.
pub fn join_outcome(results: &Vec<Result<i32, BenchError>>) -> (r: Result<(), BenchError>)
    ensures
        r is Ok <==> (forall|i: int| 0 <= i < results@.len() ==> results@[i] is Ok),
        r is Err ==> exists|i: int|
            0 <= i < results@.len() && results@[i] is Err && r->Err_0 == results@[i]->Err_0 && (
            forall|j: int| 0 <= j < i ==> results@[j] is Ok),
{
    let n = results.len();
    let mut i: usize = 0;
    while i < n
        invariant
            n == results@.len(),
            0 <= i <= n,
            forall|j: int| 0 <= j < i ==> results@[j] is Ok,
        decreases n - i,
    {
        match results[i] {
            Result::Err(e) => {
                return Result::Err(e);
            },
            Result::Ok(_) => {},
        }
        i += 1;
    }
    Result::Ok(())
}

/// The whitespace-separated tokens of a command string: a space ends
/// the token in progress, runs of spaces produce no empty tokens.
pub open spec fn spec_tokens(s: Seq<char>) -> Seq<Seq<char>>
    decreases s.len(),
{
    if s.len() == 0 {
        Seq::empty()
    } else {
        let rest = spec_tokens(s.drop_last());
        if s.last() == ' ' {
            rest
        } else if s.len() >= 2 && s[s.len() - 2] != ' ' {
            rest.update(rest.len() - 1, rest.last().push(s.last()))
        } else {
            rest.push(seq![s.last()])
        }
    }
}

/// Splits a command string on whitespace, as the process launcher
/// consumes it: no shell interpretation, just tokens.
pub fn split_command(s: &str) -> (r: Vec<String>)
    ensures
        r@.map_values(|t: String| t@) == spec_tokens(s@),
{
    let n = s.unicode_len();
    let mut r: Vec<String> = Vec::new();
    let mut i: usize = 0;
    while i < n
        invariant
            n == s@.len(),
            0 <= i <= n,
            r@.map_values(|t: String| t@) == spec_tokens(s@.take(i as int)),
            i > 0 && s@[i - 1] != ' ' ==> r@.len() > 0,
        decreases n - i,
    {
        let c = s.get_char(i);
        proof {
            assert(s@.take(i + 1).drop_last() =~= s@.take(i as int));
            assert(s@.take(i + 1).last() == s@[i as int]);
        }
        if c == ' ' {
            // token boundary; nothing to emit
        } else if i > 0 && s.get_char(i - 1) != ' ' {
            let piece = s.substring_char(i, i + 1);
            proof {
                assert(piece@ =~= seq![s@[i as int]]);
            }
            let ghost before = r@;
            let mut last_tok = match r.pop() {
                Option::Some(t) => t,
                Option::None => String::new(),
            };
            last_tok.append(piece);
            r.push(last_tok);
            proof {
                let f = |t: String| t@;
                let prev = spec_tokens(s@.take(i as int));
                assert(last_tok@ =~= f(before.last()).push(s@[i as int]));
                assert(r@ =~= before.drop_last().push(last_tok));
                assert(r@.map_values(f) =~~= prev.update(
                    prev.len() - 1,
                    prev.last().push(s@[i as int]),
                ));
            }
        } else {
            let piece = s.substring_char(i, i + 1);
            proof {
                assert(piece@ =~= seq![s@[i as int]]);
            }
            r.push(String::from_str(piece));
            proof {
                let f = |t: String| t@;
                assert(r@.map_values(f) =~= spec_tokens(s@.take(i as int)).push(
                    seq![s@[i as int]],
                ));
            }
        }
        i += 1;
    }
    proof {
        assert(s@.take(n as int) =~= s@);
    }
    r
}

/// Splits a command and checks that it names a program: an empty or
/// all-whitespace command cannot be spawned and fails with the spawn
/// error before any process is created.
pub fn command_argv(s: &str) -> (r: Result<Vec<String>, BenchError>)
    ensures
        r is Ok <==> spec_tokens(s@).len() > 0,
        r is Ok ==> r->Ok_0@.map_values(|t: String| t@) == spec_tokens(s@),
        r is Err ==> r->Err_0 == BenchError::Spawn,
{
    let parts = split_command(s);
    if parts.len() == 0 {
        Result::Err(BenchError::Spawn)
    } else {
        Result::Ok(parts)
    }
}

} // verus!
