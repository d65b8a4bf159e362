//! The configuration record of a run.

use vstd::prelude::*;
use crate::SCALE;

verus! {

/// The parameters of the model.  Influence weights are fixed-point
/// values in `[0, SCALE]`; the commute-length distributions are
/// `(mean, standard deviation, weight)` triples in fixed point, sampled
/// outside the engine.
pub struct Parameters {
    /// Total number of years the simulation runs for.
    pub total_years: u32,
    /// The number of people in the simulation.
    pub number_of_people: u32,
    /// The number of independent replications to run.
    pub number_of_simulations: u32,
    /// How connected an agent is to their social network.
    pub social_connectivity: u64,
    /// How connected an agent is to their subculture.
    pub subculture_connectivity: u64,
    /// How connected an agent is to their neighbourhood.
    pub neighbourhood_connectivity: u64,
    /// The minimum number of links in an agent's social network; the
    /// mean number of links is twice this.
    pub number_of_social_network_links: u32,
    /// The minimum number of links in the neighbourhood-wide network;
    /// the mean number of links is twice this.
    pub number_of_neighbour_links: u32,
    /// The window of the habit average: the most recent this-many days
    /// account for about 86% of the average.
    pub days_in_habit_average: u32,
    /// `(mean, standard deviation, weight)` triples for commute-length
    /// sampling, in fixed point.
    pub distributions: Vec<(i64, i64, i64)>,
}

impl Parameters {
    /// Every influence weight lies in the unit interval.
    pub open spec fn spec_wf(self) -> bool {
        &&& self.social_connectivity <= SCALE
        &&& self.subculture_connectivity <= SCALE
        &&& self.neighbourhood_connectivity <= SCALE
    }

    /// Checks that every influence weight lies in the unit interval,
    /// the fail-fast guard a caller runs on loaded configuration.
    pub fn is_wf(&self) -> (ok: bool)
        ensures
            ok == self.spec_wf(),
    {
        self.social_connectivity <= SCALE && self.subculture_connectivity <= SCALE
            && self.neighbourhood_connectivity <= SCALE
    }

    /// The total number of simulated days: 365 days per year.
    pub fn total_days(&self) -> (days: u64)
        ensures
            days == 365 * self.total_years,
    {
        365 * (self.total_years as u64)
    }
}

} // verus!
