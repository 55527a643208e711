//! The fixed set of regions of interest.

use vstd::prelude::*;

verus! {

/// A region of interest. The set is fixed: gross tumour volume, nodal gross
/// tumour volume, and the planning target volume.
#[derive(Clone, Copy, Debug, PartialEq, Eq, Structural)]
pub enum Roi {
    Gtv,
    GtvN,
    PtvDp,
}

impl Roi {
    /// The name of the region, as it appears in input columns and output rows.
    pub open spec fn spec_name(self) -> Seq<char> {
        match self {
            Roi::Gtv => "GTV"@,
            Roi::GtvN => "GTV_N"@,
            Roi::PtvDp => "PTV_DP"@,
        }
    }

    /// Position of the region in the fixed order, which coincides with the
    /// lexicographic order of the names (see `lemma_rank_orders_names`).
    pub open spec fn spec_rank(self) -> int {
        match self {
            Roi::Gtv => 0,
            Roi::GtvN => 1,
            Roi::PtvDp => 2,
        }
    }

    /// Runtime name of the region.
    pub fn name(&self) -> (r: &'static str)
        ensures
            r@ == self.spec_name(),
    {
        match self {
            Roi::Gtv => "GTV",
            Roi::GtvN => "GTV_N",
            Roi::PtvDp => "PTV_DP",
        }
    }

    /// Runtime rank of the region.
    pub fn rank(&self) -> (r: u8)
        ensures
            r as int == self.spec_rank(),
    {
        match self {
            Roi::Gtv => 0,
            Roi::GtvN => 1,
            Roi::PtvDp => 2,
        }
    }
}

/// Lexicographic order on character sequences.
pub open spec fn lex_le(a: Seq<char>, b: Seq<char>) -> bool
    decreases a.len(),
{
    if a.len() == 0 {
        true
    } else if b.len() == 0 {
        false
    } else if a[0] == b[0] {
        lex_le(a.drop_first(), b.drop_first())
    } else {
        a[0] < b[0]
    }
}

/// The rank order of the regions is the lexicographic order of their names.
pub proof fn lemma_rank_orders_names(a: Roi, b: Roi)
    ensures
        a.spec_rank() <= b.spec_rank() <==> lex_le(a.spec_name(), b.spec_name()),
{
    reveal_strlit("GTV");
    reveal_strlit("GTV_N");
    reveal_strlit("PTV_DP");
    reveal_with_fuel(lex_le, 8);
    assert(a.spec_rank() <= b.spec_rank() <==> lex_le(a.spec_name(), b.spec_name()));
}

} // verus!
