//! Small total tables keyed by transport mode.
//!
//! The engine keeps several per-mode quantities (habit scores, weighted
//! shares, supportiveness, capacity).  A table with one entry per mode is
//! total by construction, so a mode can never be missing a row; a caller
//! that wants "absent means zero" simply stores zero.

use vstd::prelude::*;
use crate::transport_mode::TransportMode;

verus! {

/// A total table of non-negative fixed-point values, one per transport mode.
#[derive(Copy, Clone, PartialEq, Eq, Structural, Debug)]
pub struct ModeTable {
    pub car: u64,
    pub public_transport: u64,
    pub cycle: u64,
    pub walk: u64,
}

impl ModeTable {
    /// The entry stored for a mode.
    pub open spec fn spec_get(self, mode: TransportMode) -> u64 {
        match mode {
            TransportMode::Car => self.car,
            TransportMode::PublicTransport => self.public_transport,
            TransportMode::Cycle => self.cycle,
            TransportMode::Walk => self.walk,
        }
    }

    /// Every entry is at most `bound`.
    pub open spec fn spec_all_at_most(self, bound: u64) -> bool {
        forall|mode: TransportMode| self.spec_get(mode) <= bound
    }

    /// Checks that every entry is at most `bound`.
    pub fn all_at_most(&self, bound: u64) -> (ok: bool)
        ensures
            ok == self.spec_all_at_most(bound),
    {
        proof {
            lemma_all_at_most(*self, bound);
        }
        self.car <= bound && self.public_transport <= bound && self.cycle <= bound && self.walk
            <= bound
    }

    /// A table holding `value` for every mode.
    pub fn uniform(value: u64) -> (table: ModeTable)
        ensures
            table == (ModeTable {
                car: value,
                public_transport: value,
                cycle: value,
                walk: value,
            }),
            forall|mode: TransportMode| table.spec_get(mode) == value,
    {
        ModeTable { car: value, public_transport: value, cycle: value, walk: value }
    }

    /// Reads the entry for `mode`.
    pub fn get(&self, mode: TransportMode) -> (value: u64)
        ensures
            value == self.spec_get(mode),
    {
        match mode {
            TransportMode::Car => self.car,
            TransportMode::PublicTransport => self.public_transport,
            TransportMode::Cycle => self.cycle,
            TransportMode::Walk => self.walk,
        }
    }

    /// Writes the entry for `mode`, leaving the other modes unchanged.
    pub fn set(&mut self, mode: TransportMode, value: u64)
        ensures
            final(self).spec_get(mode) == value,
            forall|other: TransportMode|
                other != mode ==> final(self).spec_get(other) == old(self).spec_get(other),
    {
        match mode {
            TransportMode::Car => self.car = value,
            TransportMode::PublicTransport => self.public_transport = value,
            TransportMode::Cycle => self.cycle = value,
            TransportMode::Walk => self.walk = value,
        }
    }
}

/// Bounding every entry of a table is the same as bounding its four
/// fields.
pub proof fn lemma_all_at_most(table: ModeTable, bound: u64)
    ensures
        table.spec_all_at_most(bound) <==> (table.car <= bound && table.public_transport <= bound
            && table.cycle <= bound && table.walk <= bound),
{
    if table.car <= bound && table.public_transport <= bound && table.cycle <= bound && table.walk
        <= bound {
        assert forall|mode: TransportMode| table.spec_get(mode) <= bound by {}
    } else {
        if table.car > bound {
            assert(table.spec_get(TransportMode::Car) > bound);
        } else if table.public_transport > bound {
            assert(table.spec_get(TransportMode::PublicTransport) > bound);
        } else if table.cycle > bound {
            assert(table.spec_get(TransportMode::Cycle) > bound);
        } else {
            assert(table.spec_get(TransportMode::Walk) > bound);
        }
    }
}

/// A total table of signed fixed-point deltas, one per transport mode.
#[derive(Copy, Clone, PartialEq, Eq, Structural, Debug)]
pub struct ModeDeltaTable {
    pub car: i64,
    pub public_transport: i64,
    pub cycle: i64,
    pub walk: i64,
}

impl ModeDeltaTable {
    /// The delta stored for a mode.
    pub open spec fn spec_get(self, mode: TransportMode) -> i64 {
        match mode {
            TransportMode::Car => self.car,
            TransportMode::PublicTransport => self.public_transport,
            TransportMode::Cycle => self.cycle,
            TransportMode::Walk => self.walk,
        }
    }

    /// A table of all-zero deltas.
    pub fn zero() -> (table: ModeDeltaTable)
        ensures
            forall|mode: TransportMode| table.spec_get(mode) == 0,
    {
        ModeDeltaTable { car: 0, public_transport: 0, cycle: 0, walk: 0 }
    }

    /// Reads the delta for `mode`.
    pub fn get(&self, mode: TransportMode) -> (delta: i64)
        ensures
            delta == self.spec_get(mode),
    {
        match mode {
            TransportMode::Car => self.car,
            TransportMode::PublicTransport => self.public_transport,
            TransportMode::Cycle => self.cycle,
            TransportMode::Walk => self.walk,
        }
    }

    /// Writes the delta for `mode`, leaving the other modes unchanged.
    pub fn set(&mut self, mode: TransportMode, delta: i64)
        ensures
            final(self).spec_get(mode) == delta,
            forall|other: TransportMode|
                other != mode ==> final(self).spec_get(other) == old(self).spec_get(other),
    {
        match mode {
            TransportMode::Car => self.car = delta,
            TransportMode::PublicTransport => self.public_transport = delta,
            TransportMode::Cycle => self.cycle = delta,
            TransportMode::Walk => self.walk = delta,
        }
    }
}

} // verus!
