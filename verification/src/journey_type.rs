//! The categorical commute lengths.

use vstd::prelude::*;
use crate::SCALE;

verus! {

/// Cost a city-length commute adds against the active modes.
pub const CITY_COMMUTE_COST: u64 = 500000;

/// Cost a distant commute adds against the active modes.
pub const DISTANT_COMMUTE_COST: u64 = SCALE;

/// A categorical distance for an agent's commute.
#[derive(Copy, Clone, PartialEq, Eq, Structural, Debug, Hash)]
pub enum JourneyType {
    LocalCommute,
    CityCommute,
    DistantCommute,
}

impl JourneyType {
    /// The fixed-point cost that this commute length charges against
    /// walking and cycling: a longer commute penalizes the active modes.
    pub open spec fn spec_active_mode_cost(self) -> u64 {
        match self {
            JourneyType::LocalCommute => 0,
            JourneyType::CityCommute => CITY_COMMUTE_COST,
            JourneyType::DistantCommute => DISTANT_COMMUTE_COST,
        }
    }

    /// Returns the active-mode cost of this commute length.
    pub fn active_mode_cost(&self) -> (cost: u64)
        ensures
            cost == self.spec_active_mode_cost(),
    {
        match *self {
            JourneyType::LocalCommute => 0,
            JourneyType::CityCommute => CITY_COMMUTE_COST,
            JourneyType::DistantCommute => DISTANT_COMMUTE_COST,
        }
    }
}

} // verus!
