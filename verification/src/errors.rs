//! The configuration faults on which the engine fails fast.

use vstd::prelude::*;

verus! {

/// A fatal configuration fault.  Every input to the engine is local
/// configuration, so there is no transient error class: a run either
/// completes or stops on one of these.
#[derive(Copy, Clone, PartialEq, Eq, Structural, Debug)]
pub enum ConfigError {
    /// A transition-matrix row does not sum to one.
    DegenerateTransitionRow,
    /// An intervention names a neighbourhood id that the population lacks.
    UnknownNeighbourhood,
    /// An intervention would push a supportiveness score outside the unit
    /// interval.
    SupportivenessOutOfRange,
    /// An intervention would push a capacity count outside its non-negative
    /// range.
    CapacityOutOfRange,
    /// An intervention would push the global bike or car stock outside its
    /// non-negative range.
    StockOutOfRange,
    /// The interventions handed to the scheduler are not in day order.
    UnorderedInterventions,
    /// The population is too small for every person to have the requested
    /// minimum number of distinct links.
    TooFewPeopleForLinks,
    /// A loaded population breaks its invariant: a score or weight out
    /// of the unit interval, or a reference outside the arena.
    MalformedPopulation,
}

} // verus!
