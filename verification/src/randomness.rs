//! The engine's stochastic source.
//!
//! Every stochastic step of the engine consumes plain `u64` draws, so the
//! deterministic logic can be stated and proved for every possible draw;
//! only the drawing itself is left to the outside generator.

use vstd::prelude::*;

verus! {

/// Relies on rand::random: draws a value of the requested type from the
/// thread-local generator.  The value depends on the generator's hidden
/// state, so nothing is promised of it; callers must hold for every
/// outcome.
pub assume_specification<T>[ rand::random::<T> ]() -> (value: T)
    where
        rand::distributions::Standard: rand::distributions::Distribution<T>,
;

/// Draws `count` words from the thread-local random generator.
pub fn draw_words(count: usize) -> (draws: Vec<u64>)
    ensures
        draws@.len() == count,
{
    let mut draws: Vec<u64> = Vec::new();
    while draws.len() < count
        invariant
            draws@.len() <= count,
        decreases count - draws@.len(),
    {
        draws.push(rand::random::<u64>());
    }
    draws
}

} // verus!
