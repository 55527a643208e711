//! One row of the output: the volume-change statistics of one phase
//! transition for one region.

use vstd::prelude::*;
use crate::roi::Roi;

verus! {

/// Statistics of one phase transition of one region. Identity — equality and
/// the output order — is the triple (region, phase start, phase end); the
/// numeric fields take no part in it.
#[derive(Clone, Copy, Debug)]
pub struct Stat {
    /// The region the row belongs to.
    pub roi: Roi,
    /// Mean volume at the starting phase, over all stored entries, as a
    /// binary64 bit pattern.
    pub avg_vol_phase_start: u64,
    /// The phase the transition starts at.
    pub phase_start: i32,
    /// The phase the transition ends at.
    pub phase_end: i32,
    /// Mean of the retained pairwise differences, as a binary64 bit pattern.
    pub avg: u64,
    /// Sample standard deviation of the retained pairwise differences, as a
    /// binary64 bit pattern.
    pub std_dev: u64,
    /// Number of retained pairwise differences.
    pub n: usize,
}

/// The total order on rows: by region rank, then phase start, then phase
/// end. By `crate::roi::lemma_rank_orders_names` the region rank orders the
/// regions exactly as the lexicographic order of their names does.
pub open spec fn stat_le(a: Stat, b: Stat) -> bool {
    a.roi.spec_rank() < b.roi.spec_rank() || (a.roi.spec_rank() == b.roi.spec_rank() && (
    a.phase_start < b.phase_start || (a.phase_start == b.phase_start && a.phase_end
        <= b.phase_end)))
}

/// Identity of two rows: same region and same phases.
pub open spec fn stat_same_identity(a: Stat, b: Stat) -> bool {
    a.roi == b.roi && a.phase_start == b.phase_start && a.phase_end == b.phase_end
}

impl Stat {
    /// Runtime test of the output order `stat_le`.
    pub fn le(&self, other: &Stat) -> (r: bool)
        ensures
            r == stat_le(*self, *other),
    {
        let ra = self.roi.rank();
        let rb = other.roi.rank();
        if ra != rb {
            ra < rb
        } else if self.phase_start != other.phase_start {
            self.phase_start < other.phase_start
        } else {
            self.phase_end <= other.phase_end
        }
    }
}

impl PartialEq for Stat {
    /// Equality is identity: region and phases, never the numeric fields.
    fn eq(&self, other: &Stat) -> (r: bool) {
        self.roi == other.roi && self.phase_start == other.phase_start && self.phase_end
            == other.phase_end
    }
}

impl vstd::std_specs::cmp::PartialEqSpecImpl for Stat {
    open spec fn obeys_eq_spec() -> bool {
        true
    }

    open spec fn eq_spec(&self, other: &Stat) -> bool {
        stat_same_identity(*self, *other)
    }
}

} // verus!
