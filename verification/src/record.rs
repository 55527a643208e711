//! One row of the input, and the single pass that turns a list of rows into
//! the three per-region accumulators.

use vstd::prelude::*;
use crate::roi::Roi;
use crate::data::{Data, DataView, triple_admitted};

verus! {

/// One row of the source data: a patient identifier and, for each region,
/// three optional volumes, one per phase. A missing value models a missing
/// measurement.
#[derive(Clone, Debug)]
pub struct Record {
    pub patient_id: String,
    pub gtv_phase_i: Option<u64>,
    pub gtv_phase_ii: Option<u64>,
    pub gtv_phase_iii: Option<u64>,
    pub gtv_n_phase_i: Option<u64>,
    pub gtv_n_phase_ii: Option<u64>,
    pub gtv_n_phase_iii: Option<u64>,
    pub ptv_dp_phase_i: Option<u64>,
    pub ptv_dp_phase_ii: Option<u64>,
    pub ptv_dp_phase_iii: Option<u64>,
}

/// The three phase volumes a record holds for one region.
pub open spec fn roi_triple(r: Record, roi: Roi) -> (Option<u64>, Option<u64>, Option<u64>) {
    match roi {
        Roi::Gtv => (r.gtv_phase_i, r.gtv_phase_ii, r.gtv_phase_iii),
        Roi::GtvN => (r.gtv_n_phase_i, r.gtv_n_phase_ii, r.gtv_n_phase_iii),
        Roi::PtvDp => (r.ptv_dp_phase_i, r.ptv_dp_phase_ii, r.ptv_dp_phase_iii),
    }
}

/// The accumulator one region ends with after a full pass over the records,
/// in order: each record whose three volumes for the region are present and
/// not NaN contributes its triple, every other record is skipped.
pub open spec fn accum(records: Seq<Record>, roi: Roi) -> DataView
    decreases records.len(),
{
    if records.len() == 0 {
        DataView { roi, p1: Seq::empty(), p2: Seq::empty(), p3: Seq::empty() }
    } else {
        let pre = accum(records.drop_last(), roi);
        let t = roi_triple(records.last(), roi);
        if triple_admitted(t.0, t.1, t.2) {
            DataView { roi, p1: pre.p1.push(t.0), p2: pre.p2.push(t.1), p3: pre.p3.push(t.2) }
        } else {
            pre
        }
    }
}

/// Every accumulated view is well formed: the three sequences grow together.
pub proof fn lemma_accum_wf(records: Seq<Record>, roi: Roi)
    ensures
        accum(records, roi).wf(),
        accum(records, roi).roi == roi,
    decreases records.len(),
{
    if records.len() > 0 {
        lemma_accum_wf(records.drop_last(), roi);
    }
}

/// One pass over the records, building the three accumulators in the fixed
/// order GTV, GTV_N, PTV_DP. Each region is filled independently: a record
/// rejected for one region can still contribute to another.
pub fn records_to_data(records: &Vec<Record>) -> (r: Vec<Data>)
    ensures
        r@.len() == 3,
        r@[0]@ == accum(records@, Roi::Gtv),
        r@[1]@ == accum(records@, Roi::GtvN),
        r@[2]@ == accum(records@, Roi::PtvDp),
{
    let mut gtv = Data::new(Roi::Gtv);
    let mut gtv_n = Data::new(Roi::GtvN);
    let mut ptv_dp = Data::new(Roi::PtvDp);
    proof {
        assert(gtv@ =~= accum(records@.take(0), Roi::Gtv));
        assert(gtv_n@ =~= accum(records@.take(0), Roi::GtvN));
        assert(ptv_dp@ =~= accum(records@.take(0), Roi::PtvDp));
    }
    let mut i: usize = 0;
    while i < records.len()
        invariant
            i <= records@.len(),
            gtv@ == accum(records@.take(i as int), Roi::Gtv),
            gtv_n@ == accum(records@.take(i as int), Roi::GtvN),
            ptv_dp@ == accum(records@.take(i as int), Roi::PtvDp),
        decreases records@.len() - i,
    {
        proof {
            assert(records@.take(i + 1).drop_last() =~= records@.take(i as int));
            assert(records@.take(i + 1).last() == records@[i as int]);
            lemma_accum_wf(records@.take(i as int), Roi::Gtv);
            lemma_accum_wf(records@.take(i as int), Roi::GtvN);
            lemma_accum_wf(records@.take(i as int), Roi::PtvDp);
        }
        let record = &records[i];
        gtv.add_vol(record.gtv_phase_i, record.gtv_phase_ii, record.gtv_phase_iii);
        gtv_n.add_vol(record.gtv_n_phase_i, record.gtv_n_phase_ii, record.gtv_n_phase_iii);
        ptv_dp.add_vol(record.ptv_dp_phase_i, record.ptv_dp_phase_ii, record.ptv_dp_phase_iii);
        i += 1;
    }
    proof {
        assert(records@.take(records@.len() as int) =~= records@);
    }
    let mut r: Vec<Data> = Vec::new();
    r.push(gtv);
    r.push(gtv_n);
    r.push(ptv_dp);
    r
}

} // verus!
