//! The two-state Markov weather process.
//!
//! A run consumes one weather value per simulated day.  The sequence is
//! generated before the day loop starts: day 0 is bad with the configured
//! chance of rain, and every later day follows the previous one through a
//! complete two-state transition matrix.  The whole sequence is the
//! deterministic image of the uniform draws it consumed, which is what the
//! contracts below state.

use vstd::prelude::*;
use crate::SCALE;
use crate::errors::ConfigError;
use crate::randomness::draw_words;

verus! {

/// The weather for a given day.
#[derive(Copy, Clone, PartialEq, Eq, Structural, Debug, Hash)]
pub enum Weather {
    Good,
    Bad,
}

/// A complete two-state transition matrix in fixed-point probabilities.
/// Both rows are always present, so no day can ask for a missing row; a
/// well-formed matrix has each row summing to one.
#[derive(Copy, Clone, PartialEq, Eq, Structural, Debug)]
pub struct TransitionMatrix {
    pub good_to_good: u64,
    pub good_to_bad: u64,
    pub bad_to_good: u64,
    pub bad_to_bad: u64,
}

impl TransitionMatrix {
    /// Each row sums to one.
    pub open spec fn spec_wf(self) -> bool {
        &&& self.good_to_good + self.good_to_bad == SCALE
        &&& self.bad_to_good + self.bad_to_bad == SCALE
    }

    /// Builds a matrix, rejecting any row that does not sum to one.
    pub fn new(good_to_good: u64, good_to_bad: u64, bad_to_good: u64, bad_to_bad: u64) -> (result:
        Result<TransitionMatrix, ConfigError>)
        ensures
            result is Ok <==> good_to_good + good_to_bad == SCALE && bad_to_good + bad_to_bad
                == SCALE,
            match result {
                Ok(matrix) => matrix == (TransitionMatrix {
                    good_to_good,
                    good_to_bad,
                    bad_to_good,
                    bad_to_bad,
                }) && matrix.spec_wf(),
                Err(fault) => fault == ConfigError::DegenerateTransitionRow,
            },
    {
        if good_to_good <= SCALE && good_to_bad == SCALE - good_to_good && bad_to_good <= SCALE
            && bad_to_bad == SCALE - bad_to_good {
            Ok(TransitionMatrix { good_to_good, good_to_bad, bad_to_good, bad_to_bad })
        } else {
            Err(ConfigError::DegenerateTransitionRow)
        }
    }

    /// The probability that tomorrow's weather is good, given today's.
    pub open spec fn spec_prob_good_after(self, today: Weather) -> u64 {
        match today {
            Weather::Good => self.good_to_good,
            Weather::Bad => self.bad_to_good,
        }
    }

    /// Reads the probability of good weather after `today`.
    pub fn prob_good_after(&self, today: Weather) -> (probability: u64)
        ensures
            probability == self.spec_prob_good_after(today),
    {
        match today {
            Weather::Good => self.good_to_good,
            Weather::Bad => self.bad_to_good,
        }
    }
}

/// The weather of day 0: bad exactly when the draw falls under the chance
/// of rain.
pub open spec fn spec_first_day(chance_of_rain: u64, draw: u64) -> Weather {
    if draw % SCALE < chance_of_rain {
        Weather::Bad
    } else {
        Weather::Good
    }
}

/// The weather of a later day: good exactly when the draw falls under the
/// probability of good weather after the previous day.
pub open spec fn spec_next_day(matrix: TransitionMatrix, previous: Weather, draw: u64) -> Weather {
    if draw % SCALE < matrix.spec_prob_good_after(previous) {
        Weather::Good
    } else {
        Weather::Bad
    }
}

/// The full weather sequence that a sequence of draws yields, one day per
/// draw.
pub open spec fn spec_pattern(matrix: TransitionMatrix, chance_of_rain: u64, draws: Seq<u64>) -> Seq<
    Weather,
>
    decreases draws.len(),
{
    if draws.len() == 0 {
        Seq::empty()
    } else if draws.len() == 1 {
        seq![spec_first_day(chance_of_rain, draws[0])]
    } else {
        let prefix = spec_pattern(matrix, chance_of_rain, draws.drop_last());
        prefix.push(spec_next_day(matrix, prefix.last(), draws.last()))
    }
}

/// A pattern has exactly one weather value per draw.
pub proof fn lemma_pattern_len(matrix: TransitionMatrix, chance_of_rain: u64, draws: Seq<u64>)
    ensures
        spec_pattern(matrix, chance_of_rain, draws).len() == draws.len(),
    decreases draws.len(),
{
    if draws.len() > 1 {
        lemma_pattern_len(matrix, chance_of_rain, draws.drop_last());
    }
}

/// Computes the weather pattern that `draws` determines.
pub fn make_weather_pattern_from_draws(
    matrix: &TransitionMatrix,
    chance_of_rain: u64,
    draws: &Vec<u64>,
) -> (pattern: Vec<Weather>)
    ensures
        pattern@ == spec_pattern(*matrix, chance_of_rain, draws@),
        pattern@.len() == draws@.len(),
{
    let mut pattern: Vec<Weather> = Vec::new();
    let mut i: usize = 0;
    while i < draws.len()
        invariant
            i <= draws@.len(),
            pattern@.len() == i,
            pattern@ == spec_pattern(*matrix, chance_of_rain, draws@.take(i as int)),
        decreases draws@.len() - i,
    {
        let draw = draws[i];
        let today = if i == 0 {
            if draw % SCALE < chance_of_rain {
                Weather::Bad
            } else {
                Weather::Good
            }
        } else {
            let previous = pattern[i - 1];
            if draw % SCALE < matrix.prob_good_after(previous) {
                Weather::Good
            } else {
                Weather::Bad
            }
        };
        proof {
            let taken = draws@.take(i + 1);
            assert(taken.drop_last() =~= draws@.take(i as int));
            assert(taken.last() == draws@[i as int]);
            if i == 0 {
                assert(spec_pattern(*matrix, chance_of_rain, taken) =~= pattern@.push(today));
            } else {
                assert(spec_pattern(*matrix, chance_of_rain, taken) =~= pattern@.push(today));
            }
        }
        pattern.push(today);
        i += 1;
    }
    proof {
        assert(draws@.take(draws@.len() as int) =~= draws@);
    }
    pattern
}

/// Generates a multi-year daily weather sequence with the two-state Markov
/// chain: one value per requested day, deterministic only up to the random
/// draws it consumed.
pub fn make_weather_pattern_nonpy(
    matrix: &TransitionMatrix,
    chance_of_rain: u64,
    days: usize,
) -> (pattern: Vec<Weather>)
    ensures
        pattern@.len() == days,
        exists|draws: Seq<u64>|
            draws.len() == days && pattern@ == spec_pattern(*matrix, chance_of_rain, draws),
{
    let draws = draw_words(days);
    let pattern = make_weather_pattern_from_draws(matrix, chance_of_rain, &draws);
    proof {
        assert(draws@.len() == days && pattern@ == spec_pattern(*matrix, chance_of_rain, draws@));
    }
    pattern
}

/// When good weather persists with certainty and there is no chance of rain
/// on day 0, the pattern is good weather on every day, whatever the draws.
pub proof fn lemma_pattern_all_good(matrix: TransitionMatrix, draws: Seq<u64>)
    requires
        matrix.good_to_good == SCALE,
    ensures
        spec_pattern(matrix, 0, draws) =~= Seq::new(draws.len(), |day: int| Weather::Good),
    decreases draws.len(),
{
    if draws.len() == 0 {
    } else if draws.len() == 1 {
        assert(!(draws[0] % SCALE < 0));
    } else {
        lemma_pattern_all_good(matrix, draws.drop_last());
        lemma_pattern_len(matrix, 0, draws.drop_last());
        let prefix = spec_pattern(matrix, 0, draws.drop_last());
        assert(prefix.last() == Weather::Good);
        assert(draws.last() % SCALE < SCALE);
    }
}

} // verus!
