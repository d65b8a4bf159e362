//! Neighbourhoods: the geographic partition of the population.

use vstd::prelude::*;
use crate::SCALE;
use crate::mode_table::ModeTable;

verus! {

/// A neighbourhood of the population.  Identity is its id.  Residents
/// are not stored here: an agent points at its neighbourhood by index,
/// so the population structure owns the relation and no back-references
/// are needed.
#[derive(Clone)]
pub struct Neighbourhood {
    /// The neighbourhood's id.
    pub id: String,
    /// How favourable local conditions are for each mode, in
    /// `[0, SCALE]`.
    pub supportiveness: ModeTable,
    /// The non-negative count of mode-specific infrastructure.
    pub capacity: ModeTable,
}

impl Neighbourhood {
    /// Every supportiveness score lies in the unit interval.
    pub open spec fn spec_wf(self) -> bool {
        self.supportiveness.spec_all_at_most(SCALE)
    }

    /// Checks well-formedness.
    pub fn is_wf(&self) -> (ok: bool)
        ensures
            ok == self.spec_wf(),
    {
        self.supportiveness.all_at_most(SCALE)
    }
}

} // verus!
