//! Affinity-mask construction.
//!
//! The kernel constrains a process to a set of cores through a
//! fixed-size bitmask. This module builds that mask from a list of core
//! ids — bit `c` set exactly when core `c` was requested — and decides
//! the fatal-on-failure policy for the kernel call's result. The call
//! itself is operating-system work done outside this crate.

use vstd::prelude::*;

use crate::errors::BenchError;

verus! {

/// Bits in one mask word.
pub const MASK_WORD_BITS: usize = 64;

/// Words in a kernel-sized affinity mask: 1024 bits.
pub const MASK_WORDS: usize = 16;

/// Whether bit `c` of the mask is set.
pub open spec fn spec_mask_bit(mask: Seq<u64>, c: usize) -> bool {
    ((mask[c as int / 64] >> ((c % 64) as u64)) & 1u64) == 1u64
}

proof fn lemma_set_bit_hits(word: u64, off: u64)
    requires
        off < 64,
    ensures
        (((word | (1u64 << off)) >> off) & 1u64) == 1u64,
{
    assert((((word | (1u64 << off)) >> off) & 1u64) == 1u64) by (bit_vector)
        requires
            off < 64,
    ;
}

proof fn lemma_set_bit_preserves(word: u64, off: u64, k: u64)
    requires
        off < 64,
        k < 64,
        k != off,
    ensures
        (((word | (1u64 << off)) >> k) & 1u64) == ((word >> k) & 1u64),
{
    assert((((word | (1u64 << off)) >> k) & 1u64) == ((word >> k) & 1u64)) by (bit_vector)
        requires
            off < 64,
            k < 64,
            k != off,
    ;
}

proof fn lemma_zero_bit(k: u64)
    ensures
        ((0u64 >> k) & 1u64) == 0u64,
{
    assert(((0u64 >> k) & 1u64) == 0u64) by (bit_vector);
}

/// Builds the kernel affinity mask for the requested cores: bit `c` is
/// set exactly when `cores` names `c`. A core id beyond the mask's
/// 1024 bits cannot be represented; the mask would silently
/// under-constrain the run, so the build fails with the affinity error
/// instead.
pub fn mask_from_cores(cores: &Vec<usize>) -> (r: Result<Vec<u64>, BenchError>)
    ensures
        r is Ok <==> (forall|i: int|
            0 <= i < cores@.len() ==> (#[trigger] cores@[i]) < 1024),
        r is Err ==> r->Err_0 == BenchError::Affinity,
        r is Ok ==> ({
            let m = r->Ok_0@;
            m.len() == MASK_WORDS && (forall|c: usize|
                c < 1024 ==> (spec_mask_bit(m, c) <==> cores@.contains(c)))
        }),
{
    let mut mask: Vec<u64> = Vec::new();
    let mut w: usize = 0;
    while w < MASK_WORDS
        invariant
            mask@.len() == w,
            0 <= w <= MASK_WORDS,
            forall|k: int| 0 <= k < w ==> mask@[k] == 0u64,
        decreases MASK_WORDS - w,
    {
        mask.push(0u64);
        w += 1;
    }
    proof {
        assert forall|c: usize| c < 1024 implies !spec_mask_bit(mask@, c) by {
            assert(0 <= c as int / 64 < 16) by (nonlinear_arith)
                requires
                    c < 1024,
            ;
            assert(mask@[c as int / 64] == 0u64);
            lemma_zero_bit((c % 64) as u64);
        }
    }
    let n = cores.len();
    let mut i: usize = 0;
    while i < n
        invariant
            n == cores@.len(),
            0 <= i <= n,
            mask@.len() == MASK_WORDS,
            forall|j: int| 0 <= j < i ==> (#[trigger] cores@[j]) < 1024,
            forall|c: usize|
                c < 1024 ==> (spec_mask_bit(mask@, c) <==> cores@.take(i as int).contains(c)),
        decreases n - i,
    {
        let core = cores[i];
        if core >= 1024 {
            return Result::Err(BenchError::Affinity);
        }
        let idx = core / MASK_WORD_BITS;
        let off = (core % MASK_WORD_BITS) as u64;
        proof {
            assert(idx < 16 && off < 64) by (nonlinear_arith)
                requires
                    core < 1024 && idx == core / 64 && off == (core % 64) as u64,
            ;
        }
        let ghost before = mask@;
        let word = mask[idx];
        mask.set(idx, word | (1u64 << off));
        proof {
            vstd::arithmetic::div_mod::lemma_fundamental_div_mod(core as int, 64);
            assert forall|c: usize|
                c < 1024 implies (spec_mask_bit(mask@, c) <==> cores@.take(i + 1).contains(
                c,
            )) by {
                vstd::arithmetic::div_mod::lemma_fundamental_div_mod(c as int, 64);
                assert(0 <= c as int / 64 < 16) by (nonlinear_arith)
                    requires
                        c < 1024,
                ;
                assert(spec_mask_bit(before, c) <==> cores@.take(i as int).contains(c));
                assert(mask@ == before.update(idx as int, word | (1u64 << off)));
                assert(cores@.take(i + 1).drop_last() =~= cores@.take(i as int));
                assert(cores@.take(i + 1).last() == cores@[i as int]);
                assert(cores@.take(i + 1).contains(c) <==> (cores@.take(i as int).contains(c) || c
                    == core)) by {
                    if cores@.take(i + 1).contains(c) {
                        let k = choose|k: int| 0 <= k < i + 1 && #[trigger] cores@.take(i + 1)[k] == c;
                        if k < i {
                            assert(cores@.take(i as int)[k] == c);
                        }
                    }
                    if cores@.take(i as int).contains(c) {
                        let k = choose|k: int| 0 <= k < i && #[trigger] cores@.take(i as int)[k] == c;
                        assert(cores@.take(i + 1)[k] == c);
                    }
                    if c == core {
                        assert(cores@.take(i + 1)[i as int] == c);
                    }
                }
                if c as int / 64 == idx {
                    if c == core {
                        lemma_set_bit_hits(word, off);
                    } else {
                        assert((c % 64) as u64 != off);
                        lemma_set_bit_preserves(word, off, (c % 64) as u64);
                    }
                } else {
                    assert(mask@[c as int / 64] == before[c as int / 64]);
                    assert(c != core);
                }
            }
        }
        i += 1;
    }
    proof {
        assert(cores@.take(n as int) =~= cores@);
    }
    Result::Ok(mask)
}

/// The fatal-on-failure policy for the kernel's affinity call: a
/// nonzero return invalidates every later measurement, so it surfaces
/// as the affinity error and the run must stop.
pub fn affinity_outcome(ret: i32) -> (r: Result<(), BenchError>)
    ensures
        r is Ok <==> ret == 0,
        r is Err ==> r->Err_0 == BenchError::Affinity,
{
    if ret == 0 {
        Result::Ok(())
    } else {
        Result::Err(BenchError::Affinity)
    }
}

} // verus!
