//! An agent-based simulation engine for daily travel-mode choice.
//!
//! A synthetic population of agents picks one of four transport modes each
//! day under the combined influence of habit, social-network pressure,
//! neighbourhood norms, weather, commute length, vehicle ownership, and
//! scheduled policy interventions.  Scores, weights and probabilities that
//! conceptually live in the unit interval are held as fixed-point integers
//! in `[0, SCALE]`, which lets every rule of the engine be stated and proved
//! exactly.

use vstd::prelude::*;

pub mod agent;
pub mod errors;
pub mod intervention;
pub mod journey_type;
pub mod mode_table;
pub mod neighbourhood;
pub mod parameters;
pub mod population;
pub mod randomness;
pub mod simulation;
pub mod social_network;
pub mod statistics;
pub mod transport_mode;
pub mod weather;

verus! {

/// Fixed-point resolution: a score, weight or probability `p` in the unit
/// interval is stored as the integer `p * SCALE`, so `0` means 0.0 and
/// `SCALE` means 1.0.
pub const SCALE: u64 = 1000000;

} // verus!
