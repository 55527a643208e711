//! The per-region volume accumulator: three parallel sequences of optional
//! volumes, one per phase, always of equal length.

use vstd::prelude::*;
use crate::roi::Roi;
use crate::bits::{is_nan_bits, nan_bits, ZERO_BITS, QNAN_BITS};
use crate::arith::{add_bits, div_bits, double_of_uint, add_bits_exec, div_bits_exec,
    double_of_uint_exec};
use crate::stats::{VolError, mean_bits, std_dev_bits, retained_diffs, avg_std_dev_from_vectors};
use crate::stat::Stat;

verus! {

/// The mathematical content of an accumulator: its region and the three
/// stored sequences of optional volumes.
#[verifier::ext_equal]
pub struct DataView {
    pub roi: Roi,
    pub p1: Seq<Option<u64>>,
    pub p2: Seq<Option<u64>>,
    pub p3: Seq<Option<u64>>,
}

impl DataView {
    /// The accumulator invariant: the three sequences have equal length.
    pub open spec fn wf(self) -> bool {
        self.p1.len() == self.p2.len() && self.p2.len() == self.p3.len()
    }
}

/// A triple of volumes is admitted exactly when all three are present and
/// none is NaN: a single missing or NaN value discards the whole triple.
pub open spec fn triple_admitted(v1: Option<u64>, v2: Option<u64>, v3: Option<u64>) -> bool {
    match (v1, v2, v3) {
        (Some(a), Some(b), Some(c)) => !is_nan_bits(a) && !is_nan_bits(b) && !is_nan_bits(c),
        _ => false,
    }
}

/// A missing volume stands in for NaN where a stored sequence is averaged
/// over all entries.
pub open spec fn vol_or_nan(o: Option<u64>) -> u64 {
    match o {
        Some(v) => v,
        None => QNAN_BITS,
    }
}

/// Left fold of binary64 addition over a sequence of optional volumes,
/// missing entries taken as NaN.
pub open spec fn fold_vols(acc: u64, s: Seq<Option<u64>>) -> u64
    decreases s.len(),
{
    if s.len() == 0 {
        acc
    } else {
        add_bits(fold_vols(acc, s.drop_last()), vol_or_nan(s.last()))
    }
}

/// The mean volume of a stored sequence, over all entries: the sum divided
/// by the full length. An empty sequence divides zero by zero, which is NaN.
pub open spec fn avg_vol_bits(s: Seq<Option<u64>>) -> u64 {
    div_bits(fold_vols(ZERO_BITS, s), double_of_uint(s.len() as u64))
}

/// The statistics row of the transition from phase 1 to phase 2.
pub open spec fn spec_stat_1_2(v: DataView) -> Stat {
    Stat {
        roi: v.roi,
        avg_vol_phase_start: avg_vol_bits(v.p1),
        phase_start: 1,
        phase_end: 2,
        avg: mean_bits(v.p1, v.p2),
        std_dev: std_dev_bits(v.p1, v.p2),
        n: retained_diffs(v.p1, v.p2).len() as usize,
    }
}

/// The statistics row of the transition from phase 2 to phase 3.
pub open spec fn spec_stat_2_3(v: DataView) -> Stat {
    Stat {
        roi: v.roi,
        avg_vol_phase_start: avg_vol_bits(v.p2),
        phase_start: 2,
        phase_end: 3,
        avg: mean_bits(v.p2, v.p3),
        std_dev: std_dev_bits(v.p2, v.p3),
        n: retained_diffs(v.p2, v.p3).len() as usize,
    }
}

/// Volumes of one region for phases 1, 2 and 3.
pub struct Data {
    roi: Roi,
    vol_phase_1: Vec<Option<u64>>,
    vol_phase_2: Vec<Option<u64>>,
    vol_phase_3: Vec<Option<u64>>,
}

impl View for Data {
    type V = DataView;

    closed spec fn view(&self) -> DataView {
        DataView {
            roi: self.roi,
            p1: self.vol_phase_1@,
            p2: self.vol_phase_2@,
            p3: self.vol_phase_3@,
        }
    }
}

/// The mean over all entries of a stored sequence, missing entries taken as
/// NaN: the left-to-right sum divided by the full length.
fn avg_vol_exec(vols: &Vec<Option<u64>>) -> (r: u64)
    ensures
        r == avg_vol_bits(vols@),
{
    let len = vols.len();
    let mut acc: u64 = ZERO_BITS;
    let mut i: usize = 0;
    while i < len
        invariant
            i <= len,
            len == vols@.len(),
            acc == fold_vols(ZERO_BITS, vols@.take(i as int)),
        decreases len - i,
    {
        proof {
            assert(vols@.take(i + 1).drop_last() =~= vols@.take(i as int));
        }
        let x = match vols[i] {
            Some(v) => v,
            None => QNAN_BITS,
        };
        acc = add_bits_exec(acc, x);
        i += 1;
    }
    proof {
        assert(vols@.take(len as int) =~= vols@);
    }
    div_bits_exec(acc, double_of_uint_exec(len as u64))
}

impl Data {
    /// A fresh, empty accumulator for the given region.
    pub fn new(roi: Roi) -> (r: Data)
        ensures
            r@.roi == roi,
            r@.p1 == Seq::<Option<u64>>::empty(),
            r@.p2 == Seq::<Option<u64>>::empty(),
            r@.p3 == Seq::<Option<u64>>::empty(),
            r@.wf(),
    {
        Data { roi, vol_phase_1: Vec::new(), vol_phase_2: Vec::new(), vol_phase_3: Vec::new() }
    }

    /// Adds one triple of volumes, one per phase, atomically: if all three
    /// are present and none is NaN, each is appended to its sequence;
    /// otherwise nothing changes.
    pub fn add_vol(&mut self, v1: Option<u64>, v2: Option<u64>, v3: Option<u64>)
        ensures
            triple_admitted(v1, v2, v3) ==> final(self)@ == (DataView {
                roi: old(self)@.roi,
                p1: old(self)@.p1.push(v1),
                p2: old(self)@.p2.push(v2),
                p3: old(self)@.p3.push(v3),
            }),
            !triple_admitted(v1, v2, v3) ==> final(self)@ == old(self)@,
            old(self)@.wf() ==> final(self)@.wf(),
    {
        let admitted = match (v1, v2, v3) {
            (Some(a), Some(b), Some(c)) => !nan_bits(a) && !nan_bits(b) && !nan_bits(c),
            _ => false,
        };
        if admitted {
            self.vol_phase_1.push(v1);
            self.vol_phase_2.push(v2);
            self.vol_phase_3.push(v3);
        }
    }

    /// Empties the three sequences; the region stays.
    pub fn clear(&mut self)
        ensures
            final(self)@.roi == old(self)@.roi,
            final(self)@.p1 == Seq::<Option<u64>>::empty(),
            final(self)@.p2 == Seq::<Option<u64>>::empty(),
            final(self)@.p3 == Seq::<Option<u64>>::empty(),
            final(self)@.wf(),
    {
        self.vol_phase_1.clear();
        self.vol_phase_2.clear();
        self.vol_phase_3.clear();
    }

    /// The region of the accumulator.
    pub fn roi(&self) -> (r: Roi)
        ensures
            r == self@.roi,
    {
        self.roi
    }

    /// The stored sequence of phase 1.
    pub fn phase_1_vols(&self) -> (r: &Vec<Option<u64>>)
        ensures
            r@ == self@.p1,
    {
        &self.vol_phase_1
    }

    /// The stored sequence of phase 2.
    pub fn phase_2_vols(&self) -> (r: &Vec<Option<u64>>)
        ensures
            r@ == self@.p2,
    {
        &self.vol_phase_2
    }

    /// The stored sequence of phase 3.
    pub fn phase_3_vols(&self) -> (r: &Vec<Option<u64>>)
        ensures
            r@ == self@.p3,
    {
        &self.vol_phase_3
    }

    /// The statistics row of the transition from phase 1 to phase 2. Fails
    /// exactly when the stored sequences of the two phases differ in length,
    /// which the accumulator operations never bring about.
    pub fn phase_1_to_2_stat(&self) -> (r: Result<Stat, VolError>)
        ensures
            r is Ok <==> self@.p1.len() == self@.p2.len(),
            r matches Ok(s) ==> s == spec_stat_1_2(self@),
            r matches Err(e) ==> e == (VolError::LengthMismatch {
                left: self@.p1.len() as usize,
                right: self@.p2.len() as usize,
            }),
    {
        let avg_vol = avg_vol_exec(&self.vol_phase_1);
        match avg_std_dev_from_vectors(&self.vol_phase_1, &self.vol_phase_2) {
            Err(e) => Err(e),
            Ok((avg, std_dev, n)) => Ok(
                Stat {
                    roi: self.roi,
                    avg_vol_phase_start: avg_vol,
                    phase_start: 1,
                    phase_end: 2,
                    avg,
                    std_dev,
                    n,
                },
            ),
        }
    }

    /// The statistics row of the transition from phase 2 to phase 3. Fails
    /// exactly when the stored sequences of the two phases differ in length.
    pub fn phase_2_to_3_stat(&self) -> (r: Result<Stat, VolError>)
        ensures
            r is Ok <==> self@.p2.len() == self@.p3.len(),
            r matches Ok(s) ==> s == spec_stat_2_3(self@),
            r matches Err(e) ==> e == (VolError::LengthMismatch {
                left: self@.p2.len() as usize,
                right: self@.p3.len() as usize,
            }),
    {
        let avg_vol = avg_vol_exec(&self.vol_phase_2);
        match avg_std_dev_from_vectors(&self.vol_phase_2, &self.vol_phase_3) {
            Err(e) => Err(e),
            Ok((avg, std_dev, n)) => Ok(
                Stat {
                    roi: self.roi,
                    avg_vol_phase_start: avg_vol,
                    phase_start: 2,
                    phase_end: 3,
                    avg,
                    std_dev,
                    n,
                },
            ),
        }
    }
}

} // verus!
