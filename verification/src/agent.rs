//! The agent in the model: per-person state, the daily habit-observation
//! step, and the daily mode-choice decision.

use vstd::prelude::*;
use vstd::arithmetic::div_mod::{
    lemma_div_by_multiple, lemma_div_is_ordered, lemma_fundamental_div_mod_converse,
};
use vstd::arithmetic::mul::{lemma_mul_inequality, lemma_mul_upper_bound};
use crate::SCALE;
use crate::journey_type::JourneyType;
use crate::mode_table::ModeTable;
use crate::transport_mode::TransportMode;
use crate::weather::Weather;

verus! {

/// Budget penalty charged against the car when the agent owns none: heavy
/// enough that an unowned car loses to any unpenalized mode.
pub const CAR_WITHOUT_OWNERSHIP_PENALTY: u64 = 2000000;

/// One person of the population.  Identity is the agent's position in the
/// population's arena; the social network and the geographic neighbours
/// are index lists into that arena.
#[derive(Clone)]
pub struct Agent {
    /// Index of the agent's neighbourhood in the population's list.
    pub neighbourhood: usize,
    /// The categorical distance of the agent's commute.
    pub commute_length: JourneyType,
    /// The continuous commute distance, in fixed point.  Stored but not
    /// yet wired into the decision, pending a cost function for it.
    pub commute_length_continuous: u64,
    /// How sensitive the agent is to bad weather, in `[0, SCALE]`.
    pub weather_sensitivity: u64,
    /// Weight on continuing yesterday's mode versus switching to the norm,
    /// in `[0, SCALE]`.
    pub consistency: u64,
    /// How connected the agent is to its social network, in `[0, SCALE]`.
    pub social_connectivity: u64,
    /// How connected the agent is to its neighbourhood, in `[0, SCALE]`.
    pub neighbourhood_connectivity: u64,
    /// The recency weight of the habit average, in `[0, SCALE]`.
    pub average_weight: u64,
    /// Recency-weighted usage score per mode, each in `[0, SCALE]`.
    pub habit: ModeTable,
    /// The mode the agent travels with today.
    pub current_mode: TransportMode,
    /// The mode the agent travelled with on the previous day.
    pub last_mode: TransportMode,
    /// The dominant mode among the agent's social and geographic
    /// neighbours, appropriately weighted.
    pub norm: TransportMode,
    /// Whether the agent owns a bike.
    pub owns_bike: bool,
    /// Whether the agent owns a car.
    pub owns_car: bool,
    /// The friends of the agent, as indices into the population.
    pub social_network: Vec<usize>,
    /// The geographic neighbours of the agent, as indices into the
    /// population.
    pub neighbours: Vec<usize>,
}

/// One recency-weighted step toward one, rounded up: the new score of the
/// mode that was just used.
pub open spec fn spec_reinforced(score: u64, weight: u64) -> int {
    ((SCALE - weight) * score + weight * SCALE + (SCALE - 1)) / (SCALE as int)
}

/// One recency-weighted step toward zero, rounded down: the new score of
/// every mode that was not used.
pub open spec fn spec_decayed(score: u64, weight: u64) -> int {
    ((SCALE - weight) * score) / (SCALE as int)
}

/// Computes the reinforced habit score.  The score moves toward one:
/// never past it, never backward, and strictly forward whenever the
/// weight is positive and the score is not yet saturated.
fn reinforced(score: u64, weight: u64) -> (new_score: u64)
    requires
        score <= SCALE,
        weight <= SCALE,
    ensures
        new_score == spec_reinforced(score, weight),
        new_score <= SCALE,
        score <= new_score,
        weight > 0 && score < SCALE ==> score < new_score,
{
    proof {
        let numerator = (SCALE - weight) * score + weight * SCALE + (SCALE - 1);
        assert((SCALE - weight) * score <= (SCALE - weight) * SCALE) by (nonlinear_arith)
            requires
                score <= SCALE,
                weight <= SCALE,
        ;
        // upper bound: the quotient never passes SCALE
        assert(numerator <= SCALE * SCALE + (SCALE - 1));
        lemma_div_is_ordered(numerator, SCALE * SCALE + (SCALE - 1), SCALE as int);
        lemma_fundamental_div_mod_converse(
            SCALE * SCALE + (SCALE - 1),
            SCALE as int,
            SCALE as int,
            (SCALE - 1) as int,
        );
        // lower bound: the quotient never falls below the old score
        assert(score * SCALE <= numerator) by (nonlinear_arith)
            requires
                score <= SCALE,
                weight <= SCALE,
                numerator == (SCALE - weight) * score + weight * SCALE + (SCALE - 1),
        ;
        lemma_div_is_ordered(score * SCALE, numerator, SCALE as int);
        lemma_div_by_multiple(score as int, SCALE as int);
        if weight > 0 && score < SCALE {
            // numerator >= (score + 1) * SCALE, so the quotient exceeds score
            assert((score + 1) * SCALE <= numerator) by (nonlinear_arith)
                requires
                    1 <= weight <= SCALE,
                    score < SCALE,
                    numerator == (SCALE - weight) * score + weight * SCALE + (SCALE - 1),
            ;
            lemma_div_is_ordered((score + 1) * SCALE, numerator, SCALE as int);
            lemma_div_by_multiple((score + 1) as int, SCALE as int);
        }
    }
    ((SCALE - weight) * score + weight * SCALE + (SCALE - 1)) / SCALE
}

/// Computes the decayed habit score.  The score moves toward zero: never
/// below it, never backward, and strictly down whenever the weight is
/// positive and the score is not yet zero.
fn decayed(score: u64, weight: u64) -> (new_score: u64)
    requires
        score <= SCALE,
        weight <= SCALE,
    ensures
        new_score == spec_decayed(score, weight),
        new_score <= score,
        weight > 0 && score > 0 ==> new_score < score,
{
    proof {
        let numerator = (SCALE - weight) * score;
        assert(numerator <= score * SCALE) by (nonlinear_arith)
            requires
                score <= SCALE,
                weight <= SCALE,
                numerator == (SCALE - weight) * score,
        ;
        lemma_div_is_ordered(numerator, score * SCALE, SCALE as int);
        lemma_div_by_multiple(score as int, SCALE as int);
        if weight > 0 && score > 0 {
            assert(numerator <= score * SCALE - 1) by (nonlinear_arith)
                requires
                    1 <= weight <= SCALE,
                    1 <= score,
                    numerator == (SCALE - weight) * score,
            ;
            lemma_div_is_ordered(numerator, score * SCALE - 1, SCALE as int);
            lemma_fundamental_div_mod_converse(
                score * SCALE - 1,
                SCALE as int,
                score - 1,
                (SCALE - 1) as int,
            );
        }
    }
    ((SCALE - weight) * score) / SCALE
}

impl Agent {
    /// Every weight and score of the agent lies in the unit interval.
    pub open spec fn spec_wf(self) -> bool {
        &&& self.weather_sensitivity <= SCALE
        &&& self.consistency <= SCALE
        &&& self.social_connectivity <= SCALE
        &&& self.neighbourhood_connectivity <= SCALE
        &&& self.average_weight <= SCALE
        &&& self.habit.spec_all_at_most(SCALE)
    }

    /// The habit table after one observation of `used`.
    pub open spec fn spec_updated_habit(self, used: TransportMode) -> ModeTable {
        ModeTable {
            car: if used == TransportMode::Car {
                spec_reinforced(self.habit.car, self.average_weight) as u64
            } else {
                spec_decayed(self.habit.car, self.average_weight) as u64
            },
            public_transport: if used == TransportMode::PublicTransport {
                spec_reinforced(self.habit.public_transport, self.average_weight) as u64
            } else {
                spec_decayed(self.habit.public_transport, self.average_weight) as u64
            },
            cycle: if used == TransportMode::Cycle {
                spec_reinforced(self.habit.cycle, self.average_weight) as u64
            } else {
                spec_decayed(self.habit.cycle, self.average_weight) as u64
            },
            walk: if used == TransportMode::Walk {
                spec_reinforced(self.habit.walk, self.average_weight) as u64
            } else {
                spec_decayed(self.habit.walk, self.average_weight) as u64
            },
        }
    }

    /// Start-of-day observation step: records the mode actually used on
    /// the previous day and moves every habit score toward one (the mode
    /// just used) or toward zero (all the others) with the agent's
    /// recency weight.  Every score stays in the unit interval; the
    /// just-used score moves strictly up and the others strictly down
    /// whenever the weight makes movement possible.
    pub fn update_habit(&mut self)
        requires
            old(self).spec_wf(),
        ensures
            final(self).spec_wf(),
            *final(self) == (Agent {
                last_mode: old(self).current_mode,
                habit: old(self).spec_updated_habit(old(self).current_mode),
                ..*old(self)
            }),
            forall|mode: TransportMode|
                final(self).habit.spec_get(mode) == if mode == old(self).current_mode {
                    spec_reinforced(old(self).habit.spec_get(mode), old(self).average_weight)
                } else {
                    spec_decayed(old(self).habit.spec_get(mode), old(self).average_weight)
                },
            old(self).average_weight > 0 && old(self).habit.spec_get(old(self).current_mode)
                < SCALE ==> final(self).habit.spec_get(old(self).current_mode) > old(
                self,
            ).habit.spec_get(old(self).current_mode),
            forall|mode: TransportMode|
                mode != old(self).current_mode && old(self).average_weight > 0 && old(
                    self,
                ).habit.spec_get(mode) > 0 ==> final(self).habit.spec_get(mode) < old(
                    self,
                ).habit.spec_get(mode),
    {
        proof {
            assert(old(self).habit.spec_get(TransportMode::Car) <= SCALE);
            assert(old(self).habit.spec_get(TransportMode::PublicTransport) <= SCALE);
            assert(old(self).habit.spec_get(TransportMode::Cycle) <= SCALE);
            assert(old(self).habit.spec_get(TransportMode::Walk) <= SCALE);
        }
        self.last_mode = self.current_mode;
        let weight = self.average_weight;
        let used = self.current_mode;
        let car = if matches!(used, TransportMode::Car) {
            reinforced(self.habit.car, weight)
        } else {
            decayed(self.habit.car, weight)
        };
        let public_transport = if matches!(used, TransportMode::PublicTransport) {
            reinforced(self.habit.public_transport, weight)
        } else {
            decayed(self.habit.public_transport, weight)
        };
        let cycle = if matches!(used, TransportMode::Cycle) {
            reinforced(self.habit.cycle, weight)
        } else {
            decayed(self.habit.cycle, weight)
        };
        let walk = if matches!(used, TransportMode::Walk) {
            reinforced(self.habit.walk, weight)
        } else {
            decayed(self.habit.walk, weight)
        };
        self.habit = ModeTable { car, public_transport, cycle, walk };
    }

    /// Checks that every weight and score lies in the unit interval.
    pub fn is_wf(&self) -> (ok: bool)
        ensures
            ok == self.spec_wf(),
    {
        self.weather_sensitivity <= SCALE && self.consistency <= SCALE && self.social_connectivity
            <= SCALE && self.neighbourhood_connectivity <= SCALE && self.average_weight <= SCALE
            && self.habit.all_at_most(SCALE)
    }

    /// Cycling needs a bike; every other mode is always available (a car
    /// without ownership is heavily penalized instead).
    pub open spec fn spec_mode_available(self, mode: TransportMode) -> bool {
        mode != TransportMode::Cycle || self.owns_bike
    }

    /// The budget the agent assigns to a mode on a given day: habit plus
    /// loyalty to yesterday's mode (weighted by consistency) plus the
    /// pull of the norm (weighted by the rest), minus the weather
    /// penalty on active modes in bad weather (doubled when the weather
    /// just changed), the commute-length cost of active modes, and the
    /// penalty on a car the agent does not own.
    pub open spec fn spec_budget(
        self,
        mode: TransportMode,
        weather: Weather,
        change_in_weather: bool,
    ) -> int {
        let habit_term = self.habit.spec_get(mode) as int;
        let loyalty_term: int = if mode == self.last_mode {
            self.consistency as int
        } else {
            0
        };
        let norm_term: int = if mode == self.norm {
            SCALE - self.consistency
        } else {
            0
        };
        let weather_penalty: int = if mode.spec_is_active() && weather == Weather::Bad {
            if change_in_weather {
                2 * (self.weather_sensitivity as int)
            } else {
                self.weather_sensitivity as int
            }
        } else {
            0
        };
        let commute_penalty: int = if mode.spec_is_active() {
            self.commute_length.spec_active_mode_cost() as int
        } else {
            0
        };
        let ownership_penalty: int = if mode == TransportMode::Car && !self.owns_car {
            CAR_WITHOUT_OWNERSHIP_PENALTY as int
        } else {
            0
        };
        habit_term + loyalty_term + norm_term - weather_penalty - commute_penalty
            - ownership_penalty
    }

    /// Computes the budget of one mode.
    fn budget(&self, mode: TransportMode, weather: Weather, change_in_weather: bool) -> (value:
        i64)
        requires
            self.spec_wf(),
        ensures
            value == self.spec_budget(mode, weather, change_in_weather),
    {
        let mut value: i64 = self.habit.get(mode) as i64;
        if mode == self.last_mode {
            value += self.consistency as i64;
        }
        if mode == self.norm {
            value += (SCALE - self.consistency) as i64;
        }
        if mode.is_active() && weather == Weather::Bad {
            if change_in_weather {
                value -= 2 * (self.weather_sensitivity as i64);
            } else {
                value -= self.weather_sensitivity as i64;
            }
        }
        if mode.is_active() {
            value -= self.commute_length.active_mode_cost() as i64;
        }
        if mode == TransportMode::Car && !self.owns_car {
            value -= CAR_WITHOUT_OWNERSHIP_PENALTY as i64;
        }
        value
    }

    /// The mode `choose` selects: the available mode with the highest
    /// budget, ties broken by the fixed priority order Car >
    /// PublicTransport > Cycle > Walk.
    pub open spec fn spec_choice(self, weather: Weather, change_in_weather: bool) -> TransportMode {
        let best = TransportMode::Car;
        let best = if self.spec_budget(TransportMode::PublicTransport, weather, change_in_weather)
            > self.spec_budget(best, weather, change_in_weather) {
            TransportMode::PublicTransport
        } else {
            best
        };
        let best = if self.spec_mode_available(TransportMode::Cycle) && self.spec_budget(
            TransportMode::Cycle,
            weather,
            change_in_weather,
        ) > self.spec_budget(best, weather, change_in_weather) {
            TransportMode::Cycle
        } else {
            best
        };
        if self.spec_budget(TransportMode::Walk, weather, change_in_weather) > self.spec_budget(
            best,
            weather,
            change_in_weather,
        ) {
            TransportMode::Walk
        } else {
            best
        }
    }

    /// Chooses a mode of travel for the day and writes it to
    /// `current_mode`; no other field changes.  The decision is a total
    /// function of the agent's fields, the weather and the
    /// change-in-weather flag, and always selects exactly one mode: the
    /// available mode of highest budget, with the fixed priority order
    /// breaking ties.  Cycling is never selected without a bike.
    pub fn choose_mode(&mut self, weather: &Weather, change_in_weather: bool)
        requires
            old(self).spec_wf(),
        ensures
            final(self).spec_wf(),
            *final(self) == (Agent {
                current_mode: old(self).spec_choice(*weather, change_in_weather),
                ..*old(self)
            }),
            final(self).current_mode == TransportMode::Cycle ==> old(self).owns_bike,
    {
        let mut best = TransportMode::Car;
        let mut best_budget = self.budget(best, *weather, change_in_weather);
        let contender = self.budget(TransportMode::PublicTransport, *weather, change_in_weather);
        if contender > best_budget {
            best = TransportMode::PublicTransport;
            best_budget = contender;
        }
        if self.owns_bike {
            let contender = self.budget(TransportMode::Cycle, *weather, change_in_weather);
            if contender > best_budget {
                best = TransportMode::Cycle;
                best_budget = contender;
            }
        }
        let contender = self.budget(TransportMode::Walk, *weather, change_in_weather);
        if contender > best_budget {
            best = TransportMode::Walk;
        }
        self.current_mode = best;
    }
}

/// The decision is total and optimal: for every combination of agent
/// fields, weather and change flag it selects an available mode, and no
/// available mode has a strictly higher budget (ties go to the earlier
/// mode in the fixed priority order).
pub proof fn lemma_choice_is_best(agent: Agent, weather: Weather, change_in_weather: bool)
    ensures
        agent.spec_mode_available(agent.spec_choice(weather, change_in_weather)),
        forall|mode: TransportMode|
            agent.spec_mode_available(mode) ==> agent.spec_budget(
                agent.spec_choice(weather, change_in_weather),
                weather,
                change_in_weather,
            ) >= #[trigger] agent.spec_budget(mode, weather, change_in_weather),
{
    assert forall|mode: TransportMode|
        agent.spec_mode_available(mode) implies agent.spec_budget(
        agent.spec_choice(weather, change_in_weather),
        weather,
        change_in_weather,
    ) >= #[trigger] agent.spec_budget(mode, weather, change_in_weather) by {}
}

/// The number of occurrences of `mode` in a subgroup's last modes.
pub open spec fn spec_count_mode(modes: Seq<TransportMode>, mode: TransportMode) -> int
    decreases modes.len(),
{
    if modes.len() == 0 {
        0
    } else {
        spec_count_mode(modes.drop_last(), mode) + (if modes.last() == mode {
            1int
        } else {
            0int
        })
    }
}

/// The weighted share of a mode in a subgroup: the fraction of people
/// whose last mode it was, scaled by `weight` (zero for an empty group).
pub open spec fn spec_share(modes: Seq<TransportMode>, weight: u64, mode: TransportMode) -> int {
    if modes.len() == 0 {
        0
    } else {
        spec_count_mode(modes, mode) * weight / (modes.len() as int)
    }
}

/// All four weighted shares of a subgroup.
pub open spec fn spec_share_table(modes: Seq<TransportMode>, weight: u64) -> ModeTable {
    ModeTable {
        car: spec_share(modes, weight, TransportMode::Car) as u64,
        public_transport: spec_share(modes, weight, TransportMode::PublicTransport) as u64,
        cycle: spec_share(modes, weight, TransportMode::Cycle) as u64,
        walk: spec_share(modes, weight, TransportMode::Walk) as u64,
    }
}

/// One weighted share: `count * weight / size`, never above `weight`.
fn share_of(count: u64, size: u64, weight: u64) -> (share: u64)
    requires
        count <= size,
        0 < size,
    ensures
        share == count * weight / (size as int),
        share <= weight,
{
    proof {
        lemma_mul_inequality(count as int, size as int, weight as int);
        lemma_div_is_ordered(count * weight, size * weight, size as int);
        lemma_div_by_multiple(weight as int, size as int);
        lemma_mul_upper_bound(count as int, u64::MAX as int, weight as int, u64::MAX as int);
    }
    (((count as u128) * (weight as u128)) / (size as u128)) as u64
}

/// Counts, in a subgroup of agents given by their last modes, the share
/// of people taking each travel mode, scaled by `weight`.  Modes nobody
/// took have share zero.
pub fn count_in_subgroup(modes: &Vec<TransportMode>, weight: u64) -> (shares: ModeTable)
    ensures
        shares == spec_share_table(modes@, weight),
        shares.spec_all_at_most(weight),
{
    let mut car: u64 = 0;
    let mut public_transport: u64 = 0;
    let mut cycle: u64 = 0;
    let mut walk: u64 = 0;
    let mut i: usize = 0;
    while i < modes.len()
        invariant
            i <= modes@.len(),
            car == spec_count_mode(modes@.take(i as int), TransportMode::Car),
            public_transport == spec_count_mode(
                modes@.take(i as int),
                TransportMode::PublicTransport,
            ),
            cycle == spec_count_mode(modes@.take(i as int), TransportMode::Cycle),
            walk == spec_count_mode(modes@.take(i as int), TransportMode::Walk),
            car <= i && public_transport <= i && cycle <= i && walk <= i,
        decreases modes@.len() - i,
    {
        proof {
            let taken = modes@.take(i + 1);
            assert(taken.drop_last() =~= modes@.take(i as int));
            assert(taken.last() == modes@[i as int]);
        }
        match modes[i] {
            TransportMode::Car => car += 1,
            TransportMode::PublicTransport => public_transport += 1,
            TransportMode::Cycle => cycle += 1,
            TransportMode::Walk => walk += 1,
        }
        i += 1;
    }
    proof {
        assert(modes@.take(modes@.len() as int) =~= modes@);
    }
    if modes.len() == 0 {
        ModeTable::uniform(0)
    } else {
        let size = modes.len() as u64;
        ModeTable {
            car: share_of(car, size, weight),
            public_transport: share_of(public_transport, size, weight),
            cycle: share_of(cycle, size, weight),
            walk: share_of(walk, size, weight),
        }
    }
}

/// The combined pull of a mode across the social and the neighbourhood
/// channel.
pub open spec fn spec_combined(social: ModeTable, neighbours: ModeTable, mode: TransportMode) -> int {
    social.spec_get(mode) + neighbours.spec_get(mode)
}

/// The dominant mode of two weighted share tables: the mode of highest
/// combined share, ties broken by the fixed priority order Car >
/// PublicTransport > Cycle > Walk.
pub open spec fn spec_norm_of_shares(social: ModeTable, neighbours: ModeTable) -> TransportMode {
    let best = TransportMode::Car;
    let best = if spec_combined(social, neighbours, TransportMode::PublicTransport)
        > spec_combined(social, neighbours, best) {
        TransportMode::PublicTransport
    } else {
        best
    };
    let best = if spec_combined(social, neighbours, TransportMode::Cycle) > spec_combined(
        social,
        neighbours,
        best,
    ) {
        TransportMode::Cycle
    } else {
        best
    };
    if spec_combined(social, neighbours, TransportMode::Walk) > spec_combined(
        social,
        neighbours,
        best,
    ) {
        TransportMode::Walk
    } else {
        best
    }
}

/// The norm really is dominant: no mode pulls strictly harder across
/// the two channels than the mode the aggregation selects (ties go to
/// the earlier mode in the fixed priority order).
pub proof fn lemma_norm_is_dominant(social: ModeTable, neighbours: ModeTable)
    ensures
        forall|mode: TransportMode|
            spec_combined(social, neighbours, spec_norm_of_shares(social, neighbours))
                >= #[trigger] spec_combined(social, neighbours, mode),
{
    assert forall|mode: TransportMode|
        spec_combined(social, neighbours, spec_norm_of_shares(social, neighbours))
            >= #[trigger] spec_combined(social, neighbours, mode) by {}
}

/// Computes the dominant mode of two weighted share tables.
pub fn norm_from_shares(social: &ModeTable, neighbours: &ModeTable) -> (norm: TransportMode)
    requires
        social.spec_all_at_most(SCALE),
        neighbours.spec_all_at_most(SCALE),
    ensures
        norm == spec_norm_of_shares(*social, *neighbours),
{
    proof {
        assert(social.spec_get(TransportMode::Car) <= SCALE && neighbours.spec_get(
            TransportMode::Car,
        ) <= SCALE);
        assert(social.spec_get(TransportMode::PublicTransport) <= SCALE && neighbours.spec_get(
            TransportMode::PublicTransport,
        ) <= SCALE);
        assert(social.spec_get(TransportMode::Cycle) <= SCALE && neighbours.spec_get(
            TransportMode::Cycle,
        ) <= SCALE);
        assert(social.spec_get(TransportMode::Walk) <= SCALE && neighbours.spec_get(
            TransportMode::Walk,
        ) <= SCALE);
    }
    let mut best = TransportMode::Car;
    let mut best_pull = social.get(best) + neighbours.get(best);
    let contender = social.get(TransportMode::PublicTransport) + neighbours.get(
        TransportMode::PublicTransport,
    );
    if contender > best_pull {
        best = TransportMode::PublicTransport;
        best_pull = contender;
    }
    let contender = social.get(TransportMode::Cycle) + neighbours.get(TransportMode::Cycle);
    if contender > best_pull {
        best = TransportMode::Cycle;
        best_pull = contender;
    }
    let contender = social.get(TransportMode::Walk) + neighbours.get(TransportMode::Walk);
    if contender > best_pull {
        best = TransportMode::Walk;
    }
    best
}

} // verus!
