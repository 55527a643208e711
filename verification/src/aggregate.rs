//! The aggregator: two statistics rows per accumulator, collected and sorted
//! by identity.

use vstd::prelude::*;
use crate::data::{Data, spec_stat_1_2, spec_stat_2_3};
use crate::stat::{Stat, stat_le};
use crate::stats::VolError;

verus! {

/// A sequence of rows in the output order: by region rank, then phase start,
/// then phase end.
pub open spec fn sorted_stats(s: Seq<Stat>) -> bool {
    forall|i: int, j: int| 0 <= i <= j < s.len() ==> stat_le(s[i], s[j])
}

/// The rows an aggregation pass gathers, before sorting: two per
/// accumulator, phase 1 to 2 first, in the order of the accumulators. The
/// first accumulator whose sequences do not pair up stops the pass with its
/// length mismatch: the one between phases 1 and 2 if present, else the one
/// between phases 2 and 3.
pub open spec fn stats_result(s: Seq<Data>) -> Result<Seq<Stat>, VolError>
    decreases s.len(),
{
    if s.len() == 0 {
        Ok(Seq::empty())
    } else {
        match stats_result(s.drop_last()) {
            Err(e) => Err(e),
            Ok(pre) => {
                let v = s.last()@;
                if v.p1.len() != v.p2.len() {
                    Err(VolError::LengthMismatch {
                        left: v.p1.len() as usize,
                        right: v.p2.len() as usize,
                    })
                } else if v.p2.len() != v.p3.len() {
                    Err(VolError::LengthMismatch {
                        left: v.p2.len() as usize,
                        right: v.p3.len() as usize,
                    })
                } else {
                    Ok(pre.push(spec_stat_1_2(v)).push(spec_stat_2_3(v)))
                }
            },
        }
    }
}

/// The output order is total.
pub proof fn lemma_stat_le_total(a: Stat, b: Stat)
    ensures
        stat_le(a, b) || stat_le(b, a),
        stat_le(a, b) && stat_le(b, a) ==> crate::stat::stat_same_identity(a, b),
{
}

/// Derives the two transition rows of one accumulator and appends them.
/// On a length mismatch between phases 1 and 2 nothing is appended; on one
/// between phases 2 and 3 the first row has already been appended when the
/// error is returned, as the caller discards the rows.
fn add_data(stats: &mut Vec<Stat>, data: &Data) -> (r: Result<(), VolError>)
    ensures
        data@.wf() ==> r is Ok && final(stats)@ == old(stats)@.push(spec_stat_1_2(data@)).push(
            spec_stat_2_3(data@),
        ),
        data@.p1.len() != data@.p2.len() ==> r == Err::<(), VolError>(
            VolError::LengthMismatch {
                left: data@.p1.len() as usize,
                right: data@.p2.len() as usize,
            },
        ) && final(stats)@ == old(stats)@,
        data@.p1.len() == data@.p2.len() && data@.p2.len() != data@.p3.len() ==> r == Err::<
            (),
            VolError,
        >(
            VolError::LengthMismatch {
                left: data@.p2.len() as usize,
                right: data@.p3.len() as usize,
            },
        ) && final(stats)@ == old(stats)@.push(spec_stat_1_2(data@)),
{
    match data.phase_1_to_2_stat() {
        Err(e) => Err(e),
        Ok(s12) => {
            stats.push(s12);
            match data.phase_2_to_3_stat() {
                Err(e) => Err(e),
                Ok(s23) => {
                    stats.push(s23);
                    Ok(())
                },
            }
        },
    }
}

/// Distinct identities admit one sorted arrangement: two sorted sequences
/// that hold the same rows, no two of one sequence sharing an identity, are
/// equal. So the aggregated output order is fully determined.
pub proof fn lemma_sorted_distinct_unique(s1: Seq<Stat>, s2: Seq<Stat>)
    requires
        sorted_stats(s1),
        sorted_stats(s2),
        s1.to_multiset() == s2.to_multiset(),
        forall|i: int, j: int|
            0 <= i < j < s1.len() ==> !crate::stat::stat_same_identity(s1[i], s1[j]),
    ensures
        s1 == s2,
    decreases s1.len(),
{
    broadcast use vstd::seq_lib::group_to_multiset_ensures;

    vstd::seq_lib::to_multiset_len(s1);
    vstd::seq_lib::to_multiset_len(s2);
    assert(s1.len() == s2.len());
    if s1.len() == 0 {
        assert(s1 =~= s2);
    } else {
        assert(s1.contains(s1[0]));
        assert(s1.to_multiset().count(s1[0]) > 0);
        assert(s2.to_multiset().count(s1[0]) > 0);
        assert(s2.contains(s1[0]));
        let k = choose|k: int| 0 <= k < s2.len() && s2[k] == s1[0];
        assert(stat_le(s2[0], s2[k]));
        assert(s2.contains(s2[0]));
        assert(s2.to_multiset().count(s2[0]) > 0);
        assert(s1.to_multiset().count(s2[0]) > 0);
        assert(s1.contains(s2[0]));
        let m = choose|m: int| 0 <= m < s1.len() && s1[m] == s2[0];
        assert(stat_le(s1[0], s1[m]));
        lemma_stat_le_total(s1[0], s2[0]);
        assert(crate::stat::stat_same_identity(s1[0], s2[0]));
        if m != 0 {
            assert(!crate::stat::stat_same_identity(s1[0], s1[m]));
            assert(false);
        }
        assert(s1[0] == s2[0]);
        let t1 = s1.drop_first();
        let t2 = s2.drop_first();
        assert(t1 =~= s1.remove(0));
        assert(t2 =~= s2.remove(0));
        assert(t1.to_multiset() == s1.to_multiset().remove(s1[0]));
        assert(t2.to_multiset() == s2.to_multiset().remove(s2[0]));
        assert(sorted_stats(t1)) by {
            assert(forall|i: int| 0 <= i < t1.len() ==> t1[i] == s1[i + 1]);
        }
        assert(sorted_stats(t2)) by {
            assert(forall|i: int| 0 <= i < t2.len() ==> t2[i] == s2[i + 1]);
        }
        assert(forall|i: int, j: int|
            0 <= i < j < t1.len() ==> !crate::stat::stat_same_identity(t1[i], t1[j])) by {
            assert(forall|i: int| 0 <= i < t1.len() ==> t1[i] == s1[i + 1]);
        }
        lemma_sorted_distinct_unique(t1, t2);
        assert(forall|i: int| 1 <= i < s1.len() ==> s1[i] == t1[i - 1] && s2[i] == t2[i - 1]);
        assert(s1 =~= s2);
    }
}

/// In a sorted row sequence the regions stand in blocks in rank order: a row
/// of an earlier region never follows one of a later region, and within one
/// region the rows stand by phase start, then phase end, so the transition
/// from phase 1 to 2 precedes the one from phase 2 to 3.
pub proof fn lemma_sorted_rows_ordered(s: Seq<Stat>, i: int, j: int)
    requires
        sorted_stats(s),
        0 <= i <= j < s.len(),
    ensures
        s[i].roi.spec_rank() <= s[j].roi.spec_rank(),
        s[i].roi == s[j].roi ==> s[i].phase_start <= s[j].phase_start,
        s[i].roi == s[j].roi && s[i].phase_start == s[j].phase_start ==> s[i].phase_end
            <= s[j].phase_end,
{
    assert(stat_le(s[i], s[j]));
}

/// A dataset of well-formed accumulators always aggregates: the pass
/// succeeds and yields exactly two rows per accumulator.
pub proof fn lemma_stats_result_ok(s: Seq<Data>)
    requires
        forall|i: int| 0 <= i < s.len() ==> s[i]@.wf(),
    ensures
        stats_result(s) is Ok,
        stats_result(s)->Ok_0.len() == 2 * s.len(),
    decreases s.len(),
{
    if s.len() > 0 {
        assert(forall|i: int| 0 <= i < s.drop_last().len() ==> s.drop_last()[i] == s[i]);
        lemma_stats_result_ok(s.drop_last());
        assert(s.last() == s[s.len() - 1]);
    }
}

/// A failing prefix settles the whole pass.
proof fn lemma_stats_result_prefix_err(s: Seq<Data>, j: int)
    requires
        0 <= j <= s.len(),
        stats_result(s.take(j)) is Err,
    ensures
        stats_result(s) == stats_result(s.take(j)),
    decreases s.len() - j,
{
    if j == s.len() {
        assert(s.take(j) =~= s);
    } else {
        assert(s.take(j + 1).drop_last() =~= s.take(j));
        lemma_stats_result_prefix_err(s, j + 1);
    }
}

/// Sorts rows by identity with a stable insertion sort: the result is
/// ordered and holds exactly the given rows.
fn sort_stats(input: Vec<Stat>) -> (r: Vec<Stat>)
    ensures
        sorted_stats(r@),
        r@.to_multiset() == input@.to_multiset(),
        r@.len() == input@.len(),
{
    broadcast use vstd::seq_lib::group_to_multiset_ensures;

    let mut out: Vec<Stat> = Vec::new();
    let mut i: usize = 0;
    while i < input.len()
        invariant
            i <= input@.len(),
            sorted_stats(out@),
            out@.to_multiset() == input@.take(i as int).to_multiset(),
            out@.len() == i,
        decreases input@.len() - i,
    {
        let x = input[i];
        let mut j: usize = 0;
        while j < out.len() && out[j].le(&x)
            invariant
                j <= out@.len(),
                forall|k: int| 0 <= k < j ==> stat_le(out@[k], x),
            decreases out@.len() - j,
        {
            j += 1;
        }
        proof {
            if j < out@.len() {
                lemma_stat_le_total(out@[j as int], x);
                assert(stat_le(x, out@[j as int]));
            }
        }
        let ghost pre = out@;
        out.insert(j, x);
        proof {
            assert(out@ == pre.insert(j as int, x));
            vstd::seq_lib::to_multiset_insert(pre, j as int, x);
            assert(out@.to_multiset() == pre.to_multiset().insert(x));
            pre.insert_ensures(j as int, x);
            assert forall|p: int, q: int| 0 <= p <= q < out@.len() implies stat_le(
                out@[p],
                out@[q],
            ) by {
                if q < j {
                    assert(stat_le(out@[p], out@[q]));
                } else if p > j {
                    assert(out@[p] == pre[p - 1] && out@[q] == pre[q - 1]);
                } else if p == j && q == j {
                } else if p < j && q == j {
                    assert(out@[p] == pre[p] && stat_le(pre[p], x));
                } else {
                    // q > j, p <= j: the tail elements are at least x
                    assert(out@[q] == pre[q - 1]);
                    assert(stat_le(pre[j as int], pre[q - 1]));
                    assert(stat_le(x, pre[q - 1]));
                    if p < j {
                        assert(out@[p] == pre[p] && stat_le(pre[p], x));
                    }
                }
            }
            assert(input@.take(i + 1) =~= input@.take(i as int).push(x));
            vstd::seq_lib::to_multiset_build(input@.take(i as int), x);
            assert(input@.take(i + 1).to_multiset() == input@.take(i as int).to_multiset().insert(
                x,
            ));
        }
        i += 1;
    }
    proof {
        assert(input@.take(input@.len() as int) =~= input@);
    }
    out
}

/// Aggregation over a dataset of accumulators: two rows per accumulator,
/// sorted ascending by identity. Succeeds exactly when every accumulator's
/// sequences pair up; the first mismatch aborts the pass with its error and
/// no rows are returned.
pub fn dataset_to_stats(dataset: &Vec<Data>) -> (r: Result<Vec<Stat>, VolError>)
    ensures
        r is Ok <==> stats_result(dataset@) is Ok,
        r matches Ok(v) ==> sorted_stats(v@) && v@.to_multiset() == stats_result(
            dataset@,
        )->Ok_0.to_multiset() && v@.len() == stats_result(dataset@)->Ok_0.len(),
        r matches Err(e) ==> Err::<Seq<Stat>, VolError>(e) == stats_result(dataset@),
{
    broadcast use vstd::seq_lib::group_to_multiset_ensures;

    let mut v: Vec<Stat> = Vec::new();
    let mut i: usize = 0;
    while i < dataset.len()
        invariant
            i <= dataset@.len(),
            stats_result(dataset@.take(i as int)) == Ok::<Seq<Stat>, VolError>(v@),
        decreases dataset@.len() - i,
    {
        proof {
            assert(dataset@.take(i + 1).drop_last() =~= dataset@.take(i as int));
            assert(dataset@.take(i + 1).last() == dataset@[i as int]);
        }
        match add_data(&mut v, &dataset[i]) {
            Ok(_) => {},
            Err(e) => {
                proof {
                    lemma_stats_result_prefix_err(dataset@, i + 1);
                }
                return Err(e);
            },
        }
        i += 1;
    }
    proof {
        assert(dataset@.take(dataset@.len() as int) =~= dataset@);
    }
    let sorted = sort_stats(v);
    Ok(sorted)
}

} // verus!

