//! Per-core hit counting.
//!
//! A `FrequencyAggregator` is the one concurrently mutated resource of a
//! workload run. It is owned by the run driver and, during a run, every
//! write goes through one serialized critical section (the caller holds
//! it behind a lock); this module verifies the table itself: counts are
//! never lost, the total always equals the number of recorded samples,
//! and the keys are exactly the distinct core ids that were recorded.

use vstd::prelude::*;

use crate::sampler::spec_resolve;

verus! {

/// Sum of the counts over a sequence of `(core, count)` rows.
pub open spec fn sum_counts(s: Seq<(usize, usize)>) -> int
    decreases s.len(),
{
    if s.len() == 0 {
        0
    } else {
        sum_counts(s.drop_last()) + s.last().1
    }
}

/// Count attributed to core `c` by a sequence of rows (duplicate keys sum).
pub open spec fn count_in(s: Seq<(usize, usize)>, c: usize) -> int
    decreases s.len(),
{
    if s.len() == 0 {
        0
    } else {
        count_in(s.drop_last(), c) + if s.last().0 == c {
            s.last().1 as int
        } else {
            0
        }
    }
}

/// The set of core ids that appear as keys of the rows.
pub open spec fn keys_of(s: Seq<(usize, usize)>) -> Set<usize>
    decreases s.len(),
{
    if s.len() == 0 {
        Set::empty()
    } else {
        keys_of(s.drop_last()).insert(s.last().0)
    }
}

/// No core id appears as the key of two distinct rows.
pub open spec fn keys_unique(s: Seq<(usize, usize)>) -> bool {
    forall|i: int, j: int| 0 <= i < j < s.len() ==> s[i].0 != s[j].0
}

/// Occurrences of the core id `c` in a sequence of resolved samples.
pub open spec fn occ(s: Seq<usize>, c: usize) -> int
    decreases s.len(),
{
    if s.len() == 0 {
        0
    } else {
        occ(s.drop_last(), c) + if s.last() == c {
            1int
        } else {
            0
        }
    }
}

/// The sequence of core ids a sequence of sampling outcomes resolves to
/// under the fallback-to-zero policy.
pub open spec fn resolved(samples: Seq<Option<usize>>) -> Seq<usize> {
    samples.map_values(|s: Option<usize>| spec_resolve(s))
}

pub proof fn lemma_sum_nonneg(s: Seq<(usize, usize)>)
    ensures
        sum_counts(s) >= 0,
    decreases s.len(),
{
    if s.len() > 0 {
        lemma_sum_nonneg(s.drop_last());
    }
}

pub proof fn lemma_count_nonneg(s: Seq<(usize, usize)>, c: usize)
    ensures
        count_in(s, c) >= 0,
    decreases s.len(),
{
    if s.len() > 0 {
        lemma_count_nonneg(s.drop_last(), c);
    }
}

/// Every single row's count is bounded by the total.
proof fn lemma_entry_le_sum(s: Seq<(usize, usize)>, i: int)
    requires
        0 <= i < s.len(),
    ensures
        s[i].1 <= sum_counts(s),
    decreases s.len(),
{
    if i == s.len() - 1 {
        lemma_sum_nonneg(s.drop_last());
    } else {
        lemma_entry_le_sum(s.drop_last(), i);
    }
}

/// Bumping the count of row `i` (whose key is `c`) by one raises the
/// total and the count of `c` by one and changes nothing else.
proof fn lemma_bump_row(s: Seq<(usize, usize)>, i: int, c: usize)
    requires
        0 <= i < s.len(),
        s[i].0 == c,
        s[i].1 < usize::MAX,
    ensures
        ({
            let t = s.update(i, (c, (s[i].1 + 1) as usize));
            sum_counts(t) == sum_counts(s) + 1 && count_in(t, c) == count_in(s, c) + 1 && (forall|
                d: usize,
            | d != c ==> count_in(t, d) == count_in(s, d)) && keys_of(t) == keys_of(s)
        }),
    decreases s.len(),
{
    let t = s.update(i, (c, (s[i].1 + 1) as usize));
    if i == s.len() - 1 {
        assert(t.drop_last() =~= s.drop_last());
        assert(t.last() == (c, (s[i].1 + 1) as usize));
        assert(sum_counts(t) == sum_counts(t.drop_last()) + t.last().1);
        assert(count_in(t, c) == count_in(t.drop_last(), c) + t.last().1);
        assert forall|d: usize| d != c implies count_in(t, d) == count_in(s, d) by {
            assert(count_in(t, d) == count_in(t.drop_last(), d));
            assert(count_in(s, d) == count_in(s.drop_last(), d));
        }
        assert(keys_of(t) == keys_of(t.drop_last()).insert(c));
        assert(keys_of(s) == keys_of(s.drop_last()).insert(c));
    } else {
        let sd = s.drop_last();
        let td = t.drop_last();
        lemma_bump_row(sd, i, c);
        assert(td =~= sd.update(i, (c, (s[i].1 + 1) as usize)));
        assert(t.last() == s.last());
        assert(sum_counts(t) == sum_counts(td) + t.last().1);
        assert(sum_counts(s) == sum_counts(sd) + s.last().1);
        assert forall|d: usize| d != c implies count_in(t, d) == count_in(s, d) by {
            assert(count_in(t, d) == count_in(td, d) + if t.last().0 == d {
                t.last().1 as int
            } else {
                0
            });
            assert(count_in(s, d) == count_in(sd, d) + if s.last().0 == d {
                s.last().1 as int
            } else {
                0
            });
        }
        assert(count_in(t, c) == count_in(td, c) + if t.last().0 == c {
            t.last().1 as int
        } else {
            0
        });
        assert(count_in(s, c) == count_in(sd, c) + if s.last().0 == c {
            s.last().1 as int
        } else {
            0
        });
        assert(keys_of(t) == keys_of(td).insert(t.last().0));
        assert(keys_of(s) == keys_of(sd).insert(s.last().0));
    }
}

/// The concurrency-safe core-id frequency table of one workload run.
///
/// The mapping is exclusively owned; a run drives all mutation through
/// `increment` / `record_samples` and reads the finalized table through
/// `snapshot` only after every unit of work has completed.
pub struct FrequencyAggregator {
    entries: Vec<(usize, usize)>,
}

impl FrequencyAggregator {
    /// The rows `(core, count)` of the table, in insertion order.
    pub closed spec fn rows(self) -> Seq<(usize, usize)> {
        self.entries@
    }

    /// Total number of samples recorded: the sum of all counts.
    pub open spec fn total(self) -> int {
        sum_counts(self.rows())
    }

    /// The count recorded for core `c` (0 when `c` was never recorded).
    pub open spec fn count_of(self, c: usize) -> int {
        count_in(self.rows(), c)
    }

    /// The set of core ids that have been recorded at least once.
    pub open spec fn keys(self) -> Set<usize> {
        keys_of(self.rows())
    }

    /// Each core id owns at most one row, and every row was recorded.
    pub open spec fn well_formed(self) -> bool {
        &&& keys_unique(self.rows())
        &&& forall|i: int| 0 <= i < self.rows().len() ==> (#[trigger] self.rows()[i]).1 >= 1
    }

    /// A fresh, empty table.
    pub fn new() -> (r: Self)
        ensures
            r.well_formed(),
            r.total() == 0,
            forall|c: usize| r.count_of(c) == 0,
            r.keys() == Set::<usize>::empty(),
            r.rows().len() == 0,
    {
        let r = FrequencyAggregator { entries: Vec::new() };
        proof {
            assert(r.keys() =~= Set::<usize>::empty());
        }
        r
    }

    /// Records one sample for `core`: exactly that core's count grows,
    /// by exactly one, and `core` joins the key set.
    pub fn increment(&mut self, core: usize)
        requires
            old(self).well_formed(),
            old(self).total() < usize::MAX,
        ensures
            final(self).well_formed(),
            final(self).total() == old(self).total() + 1,
            final(self).count_of(core) == old(self).count_of(core) + 1,
            forall|c: usize| c != core ==> final(self).count_of(c) == old(self).count_of(c),
            final(self).keys() == old(self).keys().insert(core),
    {
        let ghost s0 = self.entries@;
        let n = self.entries.len();
        let mut i: usize = 0;
        while i < n
            invariant
                n == self.entries@.len(),
                self.entries@ == s0,
                old(self).entries@ == s0,
                old(self).well_formed(),
                sum_counts(s0) < usize::MAX,
                0 <= i <= n,
                forall|j: int| 0 <= j < i ==> s0[j].0 != core,
            decreases n - i,
        {
            if self.entries[i].0 == core {
                let cnt = self.entries[i].1;
                proof {
                    lemma_entry_le_sum(s0, i as int);
                }
                self.entries.set(i, (core, cnt + 1));
                proof {
                    lemma_bump_row(s0, i as int, core);
                    lemma_keys_insert_present(s0, i as int, core);
                }
                return ;
            }
            i += 1;
        }
        self.entries.push((core, 1));
        proof {
            assert(self.entries@.drop_last() =~= s0);
        }
    }

    /// Records one sampling outcome per dispatched unit, resolving each
    /// through the fallback-to-zero policy. Conservation: the total
    /// grows by exactly the number of outcomes, and each core's count
    /// grows by exactly the number of outcomes attributed to it.
    pub fn record_samples(&mut self, samples: &Vec<Option<usize>>)
        requires
            old(self).well_formed(),
            old(self).total() + samples@.len() <= usize::MAX,
        ensures
            final(self).well_formed(),
            final(self).total() == old(self).total() + samples@.len(),
            forall|c: usize|
                final(self).count_of(c) == old(self).count_of(c) + occ(resolved(samples@), c),
    {
        let ghost rs = resolved(samples@);
        let n = samples.len();
        let mut i: usize = 0;
        while i < n
            invariant
                n == samples@.len(),
                rs == resolved(samples@),
                old(self).well_formed(),
                old(self).total() + n <= usize::MAX,
                self.well_formed(),
                0 <= i <= n,
                self.total() == old(self).total() + i,
                forall|c: usize|
                    self.count_of(c) == old(self).count_of(c) + occ(rs.take(i as int), c),
            decreases n - i,
        {
            let core = crate::sampler::fallback_core(samples[i]);
            assert(core == rs[i as int]);
            let ghost pre = *self;
            self.increment(core);
            proof {
                assert(rs.take(i + 1).drop_last() =~= rs.take(i as int));
                assert(rs.take(i + 1).last() == rs[i as int]);
                assert forall|c: usize|
                    self.count_of(c) == old(self).count_of(c) + occ(
                        rs.take(i + 1),
                        c,
                    ) by {
                    assert(occ(rs.take(i + 1), c) == occ(rs.take(i as int), c) + if rs[i as int]
                        == c {
                        1int
                    } else {
                        0
                    });
                }
            }
            i += 1;
        }
        proof {
            assert(rs.take(n as int) =~= rs);
        }
    }

    /// The total as a machine word, when it fits; callers use it to
    /// check that further recording cannot overflow.
    pub fn checked_total(&self) -> (r: Option<usize>)
        ensures
            r is Some <==> self.total() <= usize::MAX,
            r is Some ==> r->0 == self.total(),
    {
        let mut acc: usize = 0;
        let n = self.entries.len();
        let mut i: usize = 0;
        while i < n
            invariant
                n == self.entries@.len(),
                0 <= i <= n,
                acc == sum_counts(self.entries@.take(i as int)),
            decreases n - i,
        {
            proof {
                assert(self.entries@.take(i + 1).drop_last() =~= self.entries@.take(i as int));
                assert(self.entries@.take(i + 1).last() == self.entries@[i as int]);
            }
            match acc.checked_add(self.entries[i].1) {
                Option::Some(v) => {
                    acc = v;
                },
                Option::None => {
                    proof {
                        lemma_sum_prefix_le(self.entries@, i + 1);
                    }
                    return Option::None;
                },
            }
            i += 1;
        }
        proof {
            assert(self.entries@.take(n as int) =~= self.entries@);
        }
        Option::Some(acc)
    }

    /// A core is a key of the table exactly when its count is positive:
    /// the keys observed are precisely the distinct cores recorded.
    pub proof fn lemma_keys_are_counted(self)
        requires
            self.well_formed(),
        ensures
            forall|c: usize| self.keys().contains(c) <==> self.count_of(c) > 0,
    {
        lemma_keys_iff_count(self.rows());
    }

    /// The finalized frequency table: one row per recorded core, sorted
    /// by descending count. Taken only after the dispatch join barrier,
    /// when no writer is left, so a shared borrow suffices.
    pub fn snapshot(&self) -> (r: Vec<(usize, usize)>)
        requires
            self.well_formed(),
        ensures
            sorted_desc(r@),
            keys_unique(r@),
            r@.len() == self.rows().len(),
            sum_counts(r@) == self.total(),
            forall|c: usize| count_in(r@, c) == self.count_of(c),
            keys_of(r@) == self.keys(),
    {
        let mut copy: Vec<(usize, usize)> = Vec::new();
        let n = self.entries.len();
        let mut i: usize = 0;
        while i < n
            invariant
                n == self.entries@.len(),
                0 <= i <= n,
                copy@ == self.entries@.take(i as int),
            decreases n - i,
        {
            let row = self.entries[i];
            copy.push(row);
            proof {
                assert(copy@ =~= self.entries@.take(i + 1));
            }
            i += 1;
        }
        proof {
            assert(copy@ =~= self.entries@);
        }
        let r = sort_rows_desc(copy);
        proof {
            broadcast use vstd::seq_lib::group_to_multiset_ensures;

            assert(r@.to_multiset().len() == r@.len());
            assert(self.entries@.to_multiset().len() == self.entries@.len());
            lemma_permutation_counts(r@, self.entries@);
            lemma_permutation_unique_keys(self.entries@, r@);
            lemma_keys_iff_count(self.entries@);
            lemma_keys_iff_count(r@);
            assert(keys_of(r@) =~= keys_of(self.entries@));
        }
        r
    }
}

/// Rows ordered by descending count.
pub open spec fn sorted_desc(s: Seq<(usize, usize)>) -> bool {
    forall|i: int, j: int| 0 <= i <= j < s.len() ==> (#[trigger] s[i]).1 >= (#[trigger] s[j]).1
}

/// Relies on itertools' `sorted_by` (which collects into a `Vec` and
/// runs the standard sort with the given comparator): the result is a
/// permutation of the input, ordered by descending count.
#[verifier::external_body]
fn sort_rows_desc(v: Vec<(usize, usize)>) -> (r: Vec<(usize, usize)>)
    ensures
        r@.to_multiset() == v@.to_multiset(),
        sorted_desc(r@),
{
    itertools::Itertools::sorted_by(
        v.into_iter(),
        |b: &(usize, usize), a: &(usize, usize)| a.1.cmp(&b.1),
    ).collect()
}

/// Prefix totals never exceed the full total.
proof fn lemma_sum_prefix_le(s: Seq<(usize, usize)>, k: int)
    requires
        0 <= k <= s.len(),
    ensures
        sum_counts(s.take(k)) <= sum_counts(s),
    decreases s.len() - k,
{
    if k < s.len() {
        lemma_sum_prefix_le(s, k + 1);
        assert(s.take(k + 1).drop_last() =~= s.take(k));
        assert(sum_counts(s.take(k + 1)) == sum_counts(s.take(k)) + s.take(k + 1).last().1);
    } else {
        assert(s.take(k) =~= s);
    }
}

/// Occurrence counting is a multiset notion: it ignores order.
proof fn lemma_occ_is_multiset_count(s: Seq<usize>, c: usize)
    ensures
        occ(s, c) == s.to_multiset().count(c),
    decreases s.len(),
{
    broadcast use vstd::seq_lib::group_to_multiset_ensures;
    broadcast use vstd::multiset::group_multiset_axioms;

    if s.len() == 0 {
        assert(!s.contains(c));
    } else {
        lemma_occ_is_multiset_count(s.drop_last(), c);
        assert(s.drop_last().push(s.last()) =~= s);
        assert(s.drop_last().push(s.last()).to_multiset() == s.drop_last().to_multiset().insert(
            s.last(),
        ));
    }
}

/// Aggregation is order-independent: two interleavings that deliver the
/// same multiset of resolved samples attribute the same count to every
/// core. Dispatching the same units across pools of any size can only
/// permute the delivery order, so no update is lost to scheduling.
pub proof fn lemma_aggregation_order_independent(s1: Seq<usize>, s2: Seq<usize>)
    requires
        s1.to_multiset() == s2.to_multiset(),
    ensures
        forall|c: usize| occ(s1, c) == occ(s2, c),
{
    assert forall|c: usize| occ(s1, c) == occ(s2, c) by {
        lemma_occ_is_multiset_count(s1, c);
        lemma_occ_is_multiset_count(s2, c);
    }
}

proof fn lemma_occ_all_zero(samples: Seq<Option<usize>>)
    requires
        forall|i: int| 0 <= i < samples.len() ==> samples[i] is None,
    ensures
        occ(resolved(samples), 0) == samples.len(),
        forall|c: usize| c != 0 ==> occ(resolved(samples), c) == 0,
    decreases samples.len(),
{
    if samples.len() > 0 {
        assert forall|i: int| 0 <= i < samples.drop_last().len() implies samples.drop_last()[i]
            is None by {
            assert(samples.drop_last()[i] == samples[i]);
        }
        lemma_occ_all_zero(samples.drop_last());
        assert(resolved(samples).drop_last() =~= resolved(samples.drop_last()));
        assert(resolved(samples).last() == spec_resolve(samples.last()));
        assert(samples[samples.len() - 1] is None);
        assert forall|c: usize| c != 0 implies occ(resolved(samples), c) == 0 by {
            assert(occ(resolved(samples), c) == occ(resolved(samples).drop_last(), c));
        }
    }
}

/// Fallback determinism: when the kernel core query fails for every
/// dispatched unit, every sample resolves to core 0, so a table built
/// from those samples alone carries exactly one key, 0, whose count is
/// the number of units dispatched.
pub proof fn lemma_fallback_determinism(agg: FrequencyAggregator, samples: Seq<Option<usize>>)
    requires
        agg.well_formed(),
        samples.len() > 0,
        forall|i: int| 0 <= i < samples.len() ==> samples[i] is None,
        forall|c: usize| agg.count_of(c) == occ(resolved(samples), c),
    ensures
        agg.count_of(0) == samples.len(),
        agg.keys() =~= set![0usize],
{
    lemma_occ_all_zero(samples);
    agg.lemma_keys_are_counted();
    assert forall|c: usize| agg.keys().contains(c) implies set![0usize].contains(c) by {
        assert(agg.count_of(c) > 0);
    }
    assert(agg.count_of(0) == samples.len());
    assert(agg.keys().contains(0usize));
}

/// Removing row `j` lowers the total and the count of its key by
/// exactly that row's count.
proof fn lemma_remove_effects(s: Seq<(usize, usize)>, j: int)
    requires
        0 <= j < s.len(),
    ensures
        sum_counts(s.remove(j)) == sum_counts(s) - s[j].1,
        forall|c: usize|
            count_in(s.remove(j), c) == count_in(s, c) - (if s[j].0 == c {
                s[j].1 as int
            } else {
                0
            }),
    decreases s.len(),
{
    let r = s.remove(j);
    if j == s.len() - 1 {
        assert(r =~= s.drop_last());
    } else {
        lemma_remove_effects(s.drop_last(), j);
        assert(r.drop_last() =~= s.drop_last().remove(j));
        assert(r.last() == s.last());
        assert(sum_counts(r) == sum_counts(r.drop_last()) + r.last().1);
        assert(sum_counts(s) == sum_counts(s.drop_last()) + s.last().1);
        assert forall|c: usize|
            count_in(r, c) == count_in(s, c) - (if s[j].0 == c {
                s[j].1 as int
            } else {
                0
            }) by {
            assert(count_in(r, c) == count_in(r.drop_last(), c) + if r.last().0 == c {
                r.last().1 as int
            } else {
                0
            });
            assert(count_in(s, c) == count_in(s.drop_last(), c) + if s.last().0 == c {
                s.last().1 as int
            } else {
                0
            });
        }
    }
}

/// Two row sequences with the same multiset of rows agree on the total
/// and on every core's count: aggregation is insensitive to the order
/// in which rows ended up.
pub proof fn lemma_permutation_counts(s: Seq<(usize, usize)>, t: Seq<(usize, usize)>)
    requires
        s.to_multiset() == t.to_multiset(),
    ensures
        sum_counts(s) == sum_counts(t),
        forall|c: usize| count_in(s, c) == count_in(t, c),
    decreases s.len(),
{
    broadcast use vstd::seq_lib::group_to_multiset_ensures;
    broadcast use vstd::multiset::group_multiset_axioms;

    if s.len() == 0 {
        assert(s.to_multiset().len() == s.len());
        assert(t.to_multiset().len() == t.len());
        assert(t.len() == 0);
    } else {
        let x = s.last();
        assert(s[s.len() - 1] == x);
        assert(s.contains(x));
        assert(t.to_multiset().count(x) > 0);
        assert(t.contains(x));
        let j = choose|j: int| 0 <= j < t.len() && t[j] == x;
        assert(t.remove(j).to_multiset() == t.to_multiset().remove(x));
        assert(s.drop_last().push(x) =~= s);
        assert(s.drop_last().push(x).to_multiset() == s.drop_last().to_multiset().insert(x));
        assert(s.drop_last().to_multiset() =~= t.remove(j).to_multiset());
        lemma_permutation_counts(s.drop_last(), t.remove(j));
        lemma_remove_effects(t, j);
        assert(sum_counts(s) == sum_counts(s.drop_last()) + x.1);
        assert forall|c: usize| count_in(s, c) == count_in(t, c) by {
            assert(count_in(s, c) == count_in(s.drop_last(), c) + if x.0 == c {
                x.1 as int
            } else {
                0
            });
        }
    }
}

/// A row's count never exceeds the count its key reaches in the table.
proof fn lemma_count_at_least_row(s: Seq<(usize, usize)>, i: int, c: usize)
    requires
        0 <= i < s.len(),
        s[i].0 == c,
    ensures
        count_in(s, c) >= s[i].1,
    decreases s.len(),
{
    if i == s.len() - 1 {
        lemma_count_nonneg(s.drop_last(), c);
    } else {
        lemma_count_at_least_row(s.drop_last(), i, c);
    }
}

/// Two rows with the same key both contribute to that key's count.
proof fn lemma_count_at_least_two_rows(s: Seq<(usize, usize)>, i: int, j: int, c: usize)
    requires
        0 <= i < j < s.len(),
        s[i].0 == c,
        s[j].0 == c,
    ensures
        count_in(s, c) >= s[i].1 + s[j].1,
    decreases s.len(),
{
    if j == s.len() - 1 {
        lemma_count_at_least_row(s.drop_last(), i, c);
    } else {
        lemma_count_at_least_two_rows(s.drop_last(), i, j, c);
    }
}

/// With unique keys, a key's count is exactly its single row's count.
proof fn lemma_absent_key_zero(s: Seq<(usize, usize)>, c: usize)
    requires
        forall|i: int| 0 <= i < s.len() ==> (#[trigger] s[i]).0 != c,
    ensures
        count_in(s, c) == 0,
    decreases s.len(),
{
    if s.len() > 0 {
        lemma_absent_key_zero(s.drop_last(), c);
    }
}

proof fn lemma_unique_key_count(s: Seq<(usize, usize)>, k: int)
    requires
        keys_unique(s),
        0 <= k < s.len(),
    ensures
        count_in(s, s[k].0) == s[k].1,
    decreases s.len(),
{
    if k == s.len() - 1 {
        assert forall|i: int| 0 <= i < s.drop_last().len() implies (#[trigger] s.drop_last()[i]).0
            != s[k].0 by {
            assert(s.drop_last()[i] == s[i]);
        }
        lemma_absent_key_zero(s.drop_last(), s[k].0);
    } else {
        assert(keys_unique(s.drop_last())) by {
            assert forall|i: int, j: int|
                0 <= i < j < s.drop_last().len() implies (#[trigger] s.drop_last()[i]).0 != (
            #[trigger] s.drop_last()[j]).0 by {
                assert(s.drop_last()[i] == s[i]);
                assert(s.drop_last()[j] == s[j]);
            }
        }
        lemma_unique_key_count(s.drop_last(), k);
    }
}

/// A permutation of a well-formed table (unique keys, positive counts)
/// still has unique keys.
proof fn lemma_permutation_unique_keys(s: Seq<(usize, usize)>, t: Seq<(usize, usize)>)
    requires
        s.to_multiset() == t.to_multiset(),
        keys_unique(s),
        forall|i: int| 0 <= i < s.len() ==> (#[trigger] s[i]).1 >= 1,
    ensures
        keys_unique(t),
        forall|i: int| 0 <= i < t.len() ==> (#[trigger] t[i]).1 >= 1,
    decreases s.len(),
{
    broadcast use vstd::seq_lib::group_to_multiset_ensures;
    broadcast use vstd::multiset::group_multiset_axioms;

    assert forall|i: int| 0 <= i < t.len() implies (#[trigger] t[i]).1 >= 1 by {
        assert(t.contains(t[i]));
        assert(s.to_multiset().count(t[i]) > 0);
        assert(s.contains(t[i]));
        let k = choose|k: int| 0 <= k < s.len() && s[k] == t[i];
        assert(s[k].1 >= 1);
    }
    assert forall|i: int, j: int| 0 <= i < j < t.len() implies (#[trigger] t[i]).0 != (
    #[trigger] t[j]).0 by {
        if t[i].0 == t[j].0 {
            let c = t[i].0;
            lemma_count_at_least_two_rows(t, i, j, c);
            lemma_permutation_counts(s, t);
            assert(t.contains(t[i]));
            assert(t.to_multiset().count(t[i]) > 0);
            assert(s.contains(t[i]));
            let k = choose|k: int| 0 <= k < s.len() && s[k] == t[i];
            lemma_unique_key_count(s, k);
            assert(count_in(s, c) == s[k].1);
            assert(s[k].1 == t[i].1);
            assert(t[j].1 >= 1);
            assert(count_in(t, c) >= t[i].1 + t[j].1);
            assert(false);
        }
    }
}

/// Inserting a key that row `i` already carries leaves the key set as it was.
proof fn lemma_keys_insert_present(s: Seq<(usize, usize)>, i: int, c: usize)
    requires
        0 <= i < s.len(),
        s[i].0 == c,
    ensures
        keys_of(s).insert(c) == keys_of(s),
        keys_of(s).contains(c),
    decreases s.len(),
{
    if i == s.len() - 1 {
        assert(keys_of(s).insert(c) =~= keys_of(s));
    } else {
        lemma_keys_insert_present(s.drop_last(), i, c);
        assert(keys_of(s).insert(c) =~= keys_of(s));
    }
}

/// For rows whose counts are all positive, a core is a key exactly when
/// its count is positive.
proof fn lemma_keys_iff_count_one(s: Seq<(usize, usize)>, c: usize)
    requires
        forall|i: int| 0 <= i < s.len() ==> (#[trigger] s[i]).1 >= 1,
    ensures
        keys_of(s).contains(c) <==> count_in(s, c) > 0,
    decreases s.len(),
{
    if s.len() > 0 {
        lemma_keys_iff_count_one(s.drop_last(), c);
        lemma_count_nonneg(s.drop_last(), c);
        assert(s[s.len() - 1].1 >= 1);
        assert(count_in(s, c) == count_in(s.drop_last(), c) + if s.last().0 == c {
            s.last().1 as int
        } else {
            0
        });
        assert(keys_of(s) == keys_of(s.drop_last()).insert(s.last().0));
    }
}

proof fn lemma_keys_iff_count(s: Seq<(usize, usize)>)
    requires
        forall|i: int| 0 <= i < s.len() ==> (#[trigger] s[i]).1 >= 1,
    ensures
        forall|c: usize| keys_of(s).contains(c) <==> count_in(s, c) > 0,
{
    assert forall|c: usize| keys_of(s).contains(c) <==> count_in(s, c) > 0 by {
        lemma_keys_iff_count_one(s, c);
    }
}

} // verus!
