//! The transport modes that can be taken by agents.

use vstd::prelude::*;

verus! {

/// A travel mode an agent can take on a given day.
#[derive(Copy, Clone, PartialEq, Eq, Structural, Debug, Hash)]
pub enum TransportMode {
    Car,
    PublicTransport,
    Cycle,
    Walk,
}

impl TransportMode {
    /// Walking and cycling are the active travel modes.
    pub open spec fn spec_is_active(self) -> bool {
        self == TransportMode::Walk || self == TransportMode::Cycle
    }

    /// Returns whether this mode counts as active travel.
    pub fn is_active(&self) -> (active: bool)
        ensures
            active == self.spec_is_active(),
    {
        matches!(*self, TransportMode::Walk | TransportMode::Cycle)
    }
}

} // verus!
