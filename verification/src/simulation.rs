//! The simulation loop: one full run, day by day.
//!
//! Each simulated day runs five phases in a strict order: every agent
//! observes yesterday's mode (habit update), the interventions due that
//! day apply, every agent's norm is recomputed, every agent chooses its
//! mode under that day's weather, and a statistics snapshot is taken.
//! The run is the fold of that step over the weather sequence, which is
//! exactly what the contracts below state.

use vstd::prelude::*;
use crate::errors::ConfigError;
use crate::intervention::{
    spec_apply_due, spec_due_fault, spec_due_ok, spec_due_range, spec_state_of,
    InterventionScheduler, InterventionState,
};
use crate::journey_type::JourneyType;
use crate::population::{spec_choice_pass, spec_habit_pass, spec_norm_pass, Population};
use crate::statistics::{
    count_active_mode, count_active_mode_by_commute_length, count_active_mode_by_neighbourhood,
    spec_count_active, spec_count_active_by_journey, spec_count_active_by_neighbourhood,
    ActiveModeByJourney,
};
use crate::weather::Weather;
use crate::agent::Agent;
use crate::intervention::Intervention;

verus! {

/// The statistics taken at the end of one simulated day.
pub struct DailySnapshot {
    /// The day the snapshot belongs to, counted from one.
    pub day: u32,
    /// How many agents travelled by an active mode.
    pub active: usize,
    /// The same count grouped by commute length.
    pub active_by_journey: ActiveModeByJourney,
    /// The same count grouped by neighbourhood.
    pub active_by_neighbourhood: Vec<usize>,
}

/// Whether a snapshot holds exactly the statistics of `agents` on `day`.
pub open spec fn spec_snapshot_ok(
    snapshot: DailySnapshot,
    agents: Seq<Agent>,
    day: int,
    neighbourhood_count: int,
) -> bool {
    &&& snapshot.day == day
    &&& snapshot.active == spec_count_active(agents)
    &&& snapshot.active_by_journey.local_commute == spec_count_active_by_journey(
        agents,
        JourneyType::LocalCommute,
    )
    &&& snapshot.active_by_journey.city_commute == spec_count_active_by_journey(
        agents,
        JourneyType::CityCommute,
    )
    &&& snapshot.active_by_journey.distant_commute == spec_count_active_by_journey(
        agents,
        JourneyType::DistantCommute,
    )
    &&& snapshot.active_by_neighbourhood@.len() == neighbourhood_count
    &&& forall|k: int|
        0 <= k < neighbourhood_count ==> snapshot.active_by_neighbourhood@[k]
            == spec_count_active_by_neighbourhood(agents, k)
}

/// The whole simulation state at the mathematical level.
pub struct SimState {
    pub agents: Seq<Agent>,
    pub interventions_state: InterventionState,
    pub next: int,
    pub completed_days: int,
}

/// One full simulation: the population, the intervention scheduler, the
/// pre-generated weather sequence and the day counter.
pub struct Simulation {
    /// The population the run mutates.
    pub population: Population,
    /// The day-ordered intervention scheduler.
    pub scheduler: InterventionScheduler,
    /// One weather value per day of the run.
    pub weather_pattern: Vec<Weather>,
    /// How many days have been simulated so far.
    pub completed_days: usize,
}

/// Whether the weather changed going into the day after `completed`
/// days (there is no previous day on the first day).
pub open spec fn spec_weather_changed(weather: Seq<Weather>, completed: int) -> bool {
    completed >= 1 && weather[completed] != weather[completed - 1]
}

/// Whether the day after `completed` days can run: its due
/// interventions must all apply.
pub open spec fn spec_step_ok(state: SimState, ivs: Seq<Intervention>, weather: Seq<Weather>) -> bool {
    spec_due_ok(
        state.interventions_state,
        ivs,
        state.next,
        (state.completed_days + 1) as u32,
    )
}

/// One simulated day at the mathematical level: habit pass, due
/// interventions, norm pass, decision pass.
pub open spec fn spec_step(state: SimState, ivs: Seq<Intervention>, weather: Seq<Weather>) -> SimState {
    let day = (state.completed_days + 1) as u32;
    let after_habit = spec_habit_pass(state.agents);
    let after_norm = spec_norm_pass(after_habit);
    let chosen = spec_choice_pass(
        after_norm,
        weather[state.completed_days],
        spec_weather_changed(weather, state.completed_days),
    );
    SimState {
        agents: chosen,
        interventions_state: spec_apply_due(state.interventions_state, ivs, state.next, day),
        next: spec_due_range(ivs, state.next, day),
        completed_days: state.completed_days + 1,
    }
}

/// The simulation state after `days` simulated days.
pub open spec fn spec_run_state(
    state: SimState,
    ivs: Seq<Intervention>,
    weather: Seq<Weather>,
    days: int,
) -> SimState
    decreases days,
{
    if days <= 0 {
        state
    } else {
        spec_step(spec_run_state(state, ivs, weather, days - 1), ivs, weather)
    }
}

/// Whether every one of the first `days` days runs cleanly.
pub open spec fn spec_run_ok(
    state: SimState,
    ivs: Seq<Intervention>,
    weather: Seq<Weather>,
    days: int,
) -> bool
    decreases days,
{
    if days <= 0 {
        true
    } else {
        spec_run_ok(state, ivs, weather, days - 1) && spec_step_ok(
            spec_run_state(state, ivs, weather, days - 1),
            ivs,
            weather,
        )
    }
}

/// The fault of the first failing day.
pub open spec fn spec_run_fault(
    state: SimState,
    ivs: Seq<Intervention>,
    weather: Seq<Weather>,
    days: int,
) -> ConfigError
    decreases days,
{
    if days <= 0 {
        ConfigError::UnknownNeighbourhood
    } else if !spec_run_ok(state, ivs, weather, days - 1) {
        spec_run_fault(state, ivs, weather, days - 1)
    } else {
        let previous = spec_run_state(state, ivs, weather, days - 1);
        spec_due_fault(
            previous.interventions_state,
            ivs,
            previous.next,
            (previous.completed_days + 1) as u32,
        )
    }
}

/// A clean run up to `longer` days is clean up to any earlier day.
pub proof fn lemma_run_ok_monotonic(
    state: SimState,
    ivs: Seq<Intervention>,
    weather: Seq<Weather>,
    shorter: int,
    longer: int,
)
    requires
        shorter <= longer,
        spec_run_ok(state, ivs, weather, longer),
    ensures
        spec_run_ok(state, ivs, weather, shorter),
    decreases longer - shorter,
{
    if shorter < longer {
        lemma_run_ok_monotonic(state, ivs, weather, shorter, longer - 1);
    }
}

/// Once a day fails, the fault of the whole run is that day's fault.
proof fn lemma_run_fault_settled(
    state: SimState,
    ivs: Seq<Intervention>,
    weather: Seq<Weather>,
    failed: int,
    days: int,
)
    requires
        0 <= failed < days,
        spec_run_ok(state, ivs, weather, failed),
        !spec_step_ok(spec_run_state(state, ivs, weather, failed), ivs, weather),
    ensures
        !spec_run_ok(state, ivs, weather, days),
        spec_run_fault(state, ivs, weather, days) == {
            let previous = spec_run_state(state, ivs, weather, failed);
            spec_due_fault(
                previous.interventions_state,
                ivs,
                previous.next,
                (previous.completed_days + 1) as u32,
            )
        },
    decreases days,
{
    if failed + 1 < days {
        lemma_run_fault_settled(state, ivs, weather, failed, days - 1);
        if spec_run_ok(state, ivs, weather, days - 1) {
            lemma_run_ok_monotonic(state, ivs, weather, failed + 1, days - 1);
        }
    }
}

impl Simulation {
    /// The simulation's invariant: a well-formed population and
    /// scheduler, and a day counter inside the weather sequence.
    pub open spec fn spec_wf(self) -> bool {
        &&& self.population.spec_wf()
        &&& self.scheduler.spec_wf()
        &&& self.completed_days <= self.weather_pattern@.len()
    }

    /// The simulation's state at the mathematical level.
    pub open spec fn spec_state(self) -> SimState {
        SimState {
            agents: self.population.agents@,
            interventions_state: spec_state_of(self.population),
            next: self.scheduler.next as int,
            completed_days: self.completed_days as int,
        }
    }

    /// Builds a run, after the fail-fast configuration checks: the
    /// population must be well-formed and the interventions in day
    /// order.  The day counter starts at zero.
    pub fn new(
        population: Population,
        interventions: Vec<Intervention>,
        weather_pattern: Vec<Weather>,
    ) -> (result: Result<Simulation, ConfigError>)
        ensures
            result is Ok <==> population.spec_wf()
                && InterventionScheduler::spec_day_ordered(interventions@),
            match result {
                Ok(simulation) => simulation == (Simulation {
                    population,
                    scheduler: InterventionScheduler { interventions, next: 0 },
                    weather_pattern,
                    completed_days: 0,
                }) && simulation.spec_wf(),
                Err(fault) => if !population.spec_wf() {
                    fault == ConfigError::MalformedPopulation
                } else {
                    fault == ConfigError::UnorderedInterventions
                },
            },
    {
        if !population.is_wf() {
            return Err(ConfigError::MalformedPopulation);
        }
        let scheduler = match InterventionScheduler::new(interventions) {
            Ok(scheduler) => scheduler,
            Err(fault) => {
                return Err(fault);
            },
        };
        Ok(Simulation { population, scheduler, weather_pattern, completed_days: 0 })
    }

    /// Runs one simulated day: habit update, due interventions, norm
    /// computation, mode choice, statistics snapshot — in that order.
    /// Fails, leaving the day uncounted, when a due intervention cannot
    /// apply.
    pub fn step(&mut self) -> (result: Result<DailySnapshot, ConfigError>)
        requires
            old(self).spec_wf(),
            old(self).completed_days < old(self).weather_pattern@.len(),
            old(self).weather_pattern@.len() <= u32::MAX,
        ensures
            final(self).spec_wf(),
            final(self).weather_pattern == old(self).weather_pattern,
            final(self).scheduler.interventions == old(self).scheduler.interventions,
            final(self).population.agents@.len() == old(self).population.agents@.len(),
            final(self).population.neighbourhoods@.len() == old(
                self,
            ).population.neighbourhoods@.len(),
            result is Ok <==> spec_step_ok(
                old(self).spec_state(),
                old(self).scheduler.interventions@,
                old(self).weather_pattern@,
            ),
            result is Ok ==> final(self).spec_state() == spec_step(
                old(self).spec_state(),
                old(self).scheduler.interventions@,
                old(self).weather_pattern@,
            ),
            match result {
                Ok(snapshot) => spec_snapshot_ok(
                    snapshot,
                    final(self).population.agents@,
                    old(self).completed_days + 1,
                    old(self).population.neighbourhoods@.len() as int,
                ),
                Err(fault) => {
                    let state = old(self).spec_state();
                    fault == spec_due_fault(
                        state.interventions_state,
                        old(self).scheduler.interventions@,
                        state.next,
                        (state.completed_days + 1) as u32,
                    ) && final(self).completed_days == old(self).completed_days && final(
                        self).population.agents@ == spec_habit_pass(old(self).population.agents@)
                },
            },
    {
        let day = (self.completed_days + 1) as u32;
        self.population.update_habits();
        let outcome = self.scheduler.apply_due(day, &mut self.population);
        match outcome {
            Err(fault) => {
                return Err(fault);
            },
            Ok(unit) => {},
        }
        self.population.update_norms();
        let today = self.weather_pattern[self.completed_days];
        let change_in_weather = if self.completed_days >= 1 {
            let yesterday = self.weather_pattern[self.completed_days - 1];
            today != yesterday
        } else {
            false
        };
        self.population.choose_all(&today, change_in_weather);
        let active = count_active_mode(&self.population.agents);
        let active_by_journey = count_active_mode_by_commute_length(&self.population.agents);
        let active_by_neighbourhood = count_active_mode_by_neighbourhood(&self.population);
        self.completed_days += 1;
        Ok(
            DailySnapshot {
                day,
                active,
                active_by_journey,
                active_by_neighbourhood,
            },
        )
    }

    /// Runs the whole simulation: one step per weather day, collecting
    /// the daily snapshots in day order.  Fails with the first failing
    /// day's fault; a failed run is abandoned.
    pub fn run(&mut self) -> (result: Result<Vec<DailySnapshot>, ConfigError>)
        requires
            old(self).spec_wf(),
            old(self).completed_days == 0,
            old(self).weather_pattern@.len() <= u32::MAX,
        ensures
            final(self).spec_wf(),
            result is Ok <==> spec_run_ok(
                old(self).spec_state(),
                old(self).scheduler.interventions@,
                old(self).weather_pattern@,
                old(self).weather_pattern@.len() as int,
            ),
            match result {
                Ok(snapshots) => {
                    &&& snapshots@.len() == old(self).weather_pattern@.len()
                    &&& final(self).spec_state() == spec_run_state(
                        old(self).spec_state(),
                        old(self).scheduler.interventions@,
                        old(self).weather_pattern@,
                        old(self).weather_pattern@.len() as int,
                    )
                    &&& forall|d: int|
                        0 <= d < snapshots@.len() ==> spec_snapshot_ok(
                            #[trigger] snapshots@[d],
                            spec_run_state(
                                old(self).spec_state(),
                                old(self).scheduler.interventions@,
                                old(self).weather_pattern@,
                                d + 1,
                            ).agents,
                            d + 1,
                            old(self).population.neighbourhoods@.len() as int,
                        )
                },
                Err(fault) => fault == spec_run_fault(
                    old(self).spec_state(),
                    old(self).scheduler.interventions@,
                    old(self).weather_pattern@,
                    old(self).weather_pattern@.len() as int,
                ),
            },
    {
        let ghost initial = self.spec_state();
        let ghost ivs = self.scheduler.interventions@;
        let ghost weather = self.weather_pattern@;
        let ghost neighbourhood_count = self.population.neighbourhoods@.len() as int;
        let mut snapshots: Vec<DailySnapshot> = Vec::new();
        let total = self.weather_pattern.len();
        while self.completed_days < total
            invariant
                initial == old(self).spec_state(),
                ivs == old(self).scheduler.interventions@,
                weather == old(self).weather_pattern@,
                neighbourhood_count == old(self).population.neighbourhoods@.len() as int,
                total == weather.len(),
                weather.len() <= u32::MAX,
                self.spec_wf(),
                self.weather_pattern@ == weather,
                self.scheduler.interventions@ == ivs,
                self.population.neighbourhoods@.len() == neighbourhood_count,
                self.completed_days <= total,
                snapshots@.len() == self.completed_days,
                spec_run_ok(initial, ivs, weather, self.completed_days as int),
                self.spec_state() == spec_run_state(
                    initial,
                    ivs,
                    weather,
                    self.completed_days as int,
                ),
                forall|d: int|
                    0 <= d < snapshots@.len() ==> spec_snapshot_ok(
                        #[trigger] snapshots@[d],
                        spec_run_state(initial, ivs, weather, d + 1).agents,
                        d + 1,
                        neighbourhood_count,
                    ),
            decreases total - self.completed_days,
        {
            let ghost before_days = self.completed_days as int;
            let outcome = self.step();
            match outcome {
                Ok(snapshot) => {
                    snapshots.push(snapshot);
                },
                Err(fault) => {
                    proof {
                        lemma_run_fault_settled(
                            initial,
                            ivs,
                            weather,
                            before_days,
                            weather.len() as int,
                        );
                    }
                    return Err(fault);
                },
            }
        }
        Ok(snapshots)
    }
}

} // verus!
