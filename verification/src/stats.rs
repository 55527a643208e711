//! The pairwise differencer: filtered element-wise differences of two
//! sequences of optional volumes, with their mean and sample standard
//! deviation.

use vstd::prelude::*;
use crate::bits::{is_nan_bits, nan_bits, ZERO_BITS, ONE_BITS};
use crate::arith::{
    add_bits, sub_bits, mul_bits, div_bits, sqrt_bits, double_of_uint, fold_add,
    add_bits_exec, sub_bits_exec, mul_bits_exec, div_bits_exec, sqrt_bits_exec,
    double_of_uint_exec,
};

verus! {

/// An error of the statistics core.
#[derive(Clone, Copy, Debug, PartialEq, Eq, Structural)]
pub enum VolError {
    /// Two sequences that had to be paired element by element differed in
    /// length; the fields carry both lengths.
    LengthMismatch { left: usize, right: usize },
}

/// A pair of optional volumes contributes to the statistics exactly when
/// both are present and their difference is not NaN.
pub open spec fn pair_retained(o1: Option<u64>, o2: Option<u64>) -> bool {
    match (o1, o2) {
        (Some(a), Some(b)) => !is_nan_bits(sub_bits(a, b)),
        _ => false,
    }
}

/// The retained differences of two equally long sequences, in order: for
/// each position where both values are present and the difference `v1 - v2`
/// is not NaN, that difference.
pub open spec fn retained_diffs(s1: Seq<Option<u64>>, s2: Seq<Option<u64>>) -> Seq<u64>
    decreases s1.len(),
{
    if s1.len() == 0 || s2.len() == 0 {
        Seq::empty()
    } else {
        let pre = retained_diffs(s1.drop_last(), s2.drop_last());
        if pair_retained(s1.last(), s2.last()) {
            pre.push(sub_bits(s1.last()->Some_0, s2.last()->Some_0))
        } else {
            pre
        }
    }
}

/// The mean of the retained differences: their sum, taken left to right from
/// zero, divided by their count converted to binary64. With no retained
/// difference this is the NaN that zero divided by zero yields.
pub open spec fn mean_bits(s1: Seq<Option<u64>>, s2: Seq<Option<u64>>) -> u64 {
    let d = retained_diffs(s1, s2);
    div_bits(fold_add(ZERO_BITS, d), double_of_uint(d.len() as u64))
}

/// The squared deviation of one difference from the mean.
pub open spec fn sq_dev(d: u64, mean: u64) -> u64 {
    mul_bits(sub_bits(d, mean), sub_bits(d, mean))
}

/// Left fold of binary64 addition over the squared deviations from `mean`.
pub open spec fn fold_sumsq(acc: u64, s: Seq<u64>, mean: u64) -> u64
    decreases s.len(),
{
    if s.len() == 0 {
        acc
    } else {
        add_bits(fold_sumsq(acc, s.drop_last(), mean), sq_dev(s.last(), mean))
    }
}

/// The sample standard deviation of the retained differences, with Bessel's
/// correction: the square root of the summed squared deviations divided by
/// the count less one. With fewer than two retained differences the divisor
/// is zero or negative and the result is the NaN or infinity the binary64
/// operations yield.
pub open spec fn std_dev_bits(s1: Seq<Option<u64>>, s2: Seq<Option<u64>>) -> u64 {
    let d = retained_diffs(s1, s2);
    let mean = mean_bits(s1, s2);
    sqrt_bits(
        div_bits(
            fold_sumsq(ZERO_BITS, d, mean),
            sub_bits(double_of_uint(d.len() as u64), ONE_BITS),
        ),
    )
}

/// Pairwise differencer. Pairs the two sequences element by element, keeps
/// the differences `v1 - v2` of the pairs where both values are present and
/// the difference is not NaN, and returns their mean, their sample standard
/// deviation, and their count. Fails exactly when the lengths differ, with
/// both lengths.
pub fn avg_std_dev_from_vectors(v1: &Vec<Option<u64>>, v2: &Vec<Option<u64>>) -> (r: Result<
    (u64, u64, usize),
    VolError,
>)
    ensures
        r is Ok <==> v1@.len() == v2@.len(),
        r matches Ok(t) ==> t == ((
            mean_bits(v1@, v2@),
            std_dev_bits(v1@, v2@),
            retained_diffs(v1@, v2@).len() as usize,
        )),
        r matches Err(e) ==> e == (VolError::LengthMismatch {
            left: v1@.len() as usize,
            right: v2@.len() as usize,
        }),
{
    let n = v1.len();
    let m = v2.len();
    if n != m {
        return Err(VolError::LengthMismatch { left: n, right: m });
    }
    let mut diffs: Vec<u64> = Vec::new();
    let mut i: usize = 0;
    while i < n
        invariant
            i <= n,
            n == v1@.len(),
            n == v2@.len(),
            diffs@ == retained_diffs(v1@.take(i as int), v2@.take(i as int)),
        decreases n - i,
    {
        proof {
            assert(v1@.take(i + 1).drop_last() =~= v1@.take(i as int));
            assert(v2@.take(i + 1).drop_last() =~= v2@.take(i as int));
        }
        match (v1[i], v2[i]) {
            (Some(a), Some(b)) => {
                let d = sub_bits_exec(a, b);
                if !nan_bits(d) {
                    diffs.push(d);
                }
            },
            _ => {},
        }
        i += 1;
    }
    proof {
        assert(v1@.take(n as int) =~= v1@);
        assert(v2@.take(n as int) =~= v2@);
    }
    let cnt = diffs.len();
    let mut sum: u64 = ZERO_BITS;
    let mut j: usize = 0;
    while j < cnt
        invariant
            j <= cnt,
            cnt == diffs@.len(),
            sum == fold_add(ZERO_BITS, diffs@.take(j as int)),
        decreases cnt - j,
    {
        proof {
            assert(diffs@.take(j + 1).drop_last() =~= diffs@.take(j as int));
        }
        sum = add_bits_exec(sum, diffs[j]);
        j += 1;
    }
    let count_f = double_of_uint_exec(cnt as u64);
    let mean = div_bits_exec(sum, count_f);
    let mut sumsq: u64 = ZERO_BITS;
    let mut k: usize = 0;
    while k < cnt
        invariant
            k <= cnt,
            cnt == diffs@.len(),
            sumsq == fold_sumsq(ZERO_BITS, diffs@.take(k as int), mean),
        decreases cnt - k,
    {
        proof {
            assert(diffs@.take(k + 1).drop_last() =~= diffs@.take(k as int));
        }
        let dev = sub_bits_exec(diffs[k], mean);
        sumsq = add_bits_exec(sumsq, mul_bits_exec(dev, dev));
        k += 1;
    }
    let denom = sub_bits_exec(count_f, ONE_BITS);
    let std_dev = sqrt_bits_exec(div_bits_exec(sumsq, denom));
    proof {
        assert(diffs@.take(cnt as int) =~= diffs@);
    }
    Ok((mean, std_dev, cnt))
}

/// The statistics depend only on which pairs are retained and on their
/// differences: two inputs that retain the same differences at the same
/// positions have equal retained sequences, and so equal mean, standard
/// deviation and count. In particular, shifting every value of both
/// sequences in a way that leaves each difference unchanged leaves all of
/// the statistics unchanged.
pub proof fn lemma_stats_determined_by_diffs(
    a1: Seq<Option<u64>>,
    a2: Seq<Option<u64>>,
    b1: Seq<Option<u64>>,
    b2: Seq<Option<u64>>,
)
    requires
        a1.len() == a2.len(),
        b1.len() == b2.len(),
        a1.len() == b1.len(),
        forall|i: int|
            0 <= i < a1.len() ==> (pair_retained(a1[i], a2[i]) <==> pair_retained(b1[i], b2[i])),
        forall|i: int|
            0 <= i < a1.len() && pair_retained(a1[i], a2[i]) ==> sub_bits(
                a1[i]->Some_0,
                a2[i]->Some_0,
            ) == sub_bits(b1[i]->Some_0, b2[i]->Some_0),
    ensures
        retained_diffs(a1, a2) == retained_diffs(b1, b2),
        mean_bits(a1, a2) == mean_bits(b1, b2),
        std_dev_bits(a1, a2) == std_dev_bits(b1, b2),
    decreases a1.len(),
{
    if a1.len() == 0 {
        assert(retained_diffs(a1, a2) =~= retained_diffs(b1, b2));
    } else {
        assert(a1.drop_last().len() == a2.drop_last().len());
        assert(forall|i: int|
            0 <= i < a1.drop_last().len() ==> a1.drop_last()[i] == a1[i] && a2.drop_last()[i]
                == a2[i] && b1.drop_last()[i] == b1[i] && b2.drop_last()[i] == b2[i]);
        lemma_stats_determined_by_diffs(a1.drop_last(), a2.drop_last(), b1.drop_last(), b2.drop_last());
        assert(a1.last() == a1[a1.len() - 1] && a2.last() == a2[a1.len() - 1] && b1.last()
            == b1[a1.len() - 1] && b2.last() == b2[a1.len() - 1]);
        assert(retained_diffs(a1, a2) == retained_diffs(b1, b2));
    }
}

} // verus!
