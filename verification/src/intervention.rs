//! Scheduled policy interventions and their day-ordered scheduler.
//!
//! An intervention is a one-off structural change keyed by simulation
//! day: additive supportiveness and capacity deltas on named
//! neighbourhoods, and deltas on the global bike and car stock.  A delta
//! that would push supportiveness outside the unit interval or a count
//! outside its non-negative range is a configuration fault, detected
//! before it corrupts the entry it targets; the run is then abandoned.

use vstd::prelude::*;
use crate::SCALE;
use crate::errors::ConfigError;
use crate::mode_table::{ModeDeltaTable, ModeTable};
use crate::neighbourhood::Neighbourhood;
use crate::population::Population;
use crate::transport_mode::TransportMode;

verus! {

/// Changes in one neighbourhood that form part of an intervention.
#[derive(Clone)]
pub struct NeighbourhoodChange {
    /// The id of the neighbourhood to change.
    pub id: String,
    /// Additive fixed-point change in supportiveness per mode.  It must
    /// leave every score in the unit interval.
    pub increase_in_supportiveness: ModeDeltaTable,
    /// Additive change in capacity per mode.  It must leave every count
    /// non-negative and within range.
    pub increase_in_capacity: ModeDeltaTable,
}

/// A structural change scheduled for one simulation day.
#[derive(Clone)]
pub struct Intervention {
    /// The day number on which the intervention applies.
    pub day: u32,
    /// The changes to named neighbourhoods.
    pub neighbourhood_changes: Vec<NeighbourhoodChange>,
    /// The change in the global number of bikes.
    pub change_in_number_of_bikes: i32,
    /// The change in the global number of cars.
    pub change_in_number_of_cars: i32,
}

/// The first position at or after `from` whose neighbourhood has the
/// given id.
pub open spec fn spec_find_from(ns: Seq<Neighbourhood>, id: Seq<char>, from: int) -> Option<int>
    decreases ns.len() - from,
{
    if from < 0 || from >= ns.len() {
        None
    } else if ns[from].id@ == id {
        Some(from)
    } else {
        spec_find_from(ns, id, from + 1)
    }
}

/// The first neighbourhood with the given id.
pub open spec fn spec_find_neighbourhood(ns: Seq<Neighbourhood>, id: Seq<char>) -> Option<int> {
    spec_find_from(ns, id, 0)
}

/// The table that results from adding a delta entry-wise.
pub open spec fn spec_applied_table(table: ModeTable, delta: ModeDeltaTable) -> ModeTable {
    ModeTable {
        car: (table.car + delta.car) as u64,
        public_transport: (table.public_transport + delta.public_transport) as u64,
        cycle: (table.cycle + delta.cycle) as u64,
        walk: (table.walk + delta.walk) as u64,
    }
}

/// Every entry stays inside `[0, bound]` after adding the delta.
pub open spec fn spec_table_delta_ok(table: ModeTable, delta: ModeDeltaTable, bound: int) -> bool {
    forall|mode: TransportMode| #![trigger table.spec_get(mode)]
        0 <= table.spec_get(mode) + delta.spec_get(mode) <= bound
}

/// Keeping every entry of a table in range is the same as keeping its
/// four fields in range.
pub proof fn lemma_table_delta_ok_fields(table: ModeTable, delta: ModeDeltaTable, bound: int)
    ensures
        spec_table_delta_ok(table, delta, bound) <==> ((0 <= table.car + delta.car <= bound) && (0
            <= table.public_transport + delta.public_transport <= bound) && (0 <= table.cycle
            + delta.cycle <= bound) && (0 <= table.walk + delta.walk <= bound)),
{
    if (0 <= table.car + delta.car <= bound) && (0 <= table.public_transport
        + delta.public_transport <= bound) && (0 <= table.cycle + delta.cycle <= bound) && (0
        <= table.walk + delta.walk <= bound) {
        assert forall|mode: TransportMode| #![trigger table.spec_get(mode)]
            0 <= table.spec_get(mode) + delta.spec_get(mode) <= bound by {}
    } else {
        if !(0 <= table.car + delta.car <= bound) {
            assert(!(0 <= table.spec_get(TransportMode::Car) + delta.spec_get(TransportMode::Car)
                <= bound));
        } else if !(0 <= table.public_transport + delta.public_transport <= bound) {
            assert(!(0 <= table.spec_get(TransportMode::PublicTransport) + delta.spec_get(
                TransportMode::PublicTransport,
            ) <= bound));
        } else if !(0 <= table.cycle + delta.cycle <= bound) {
            assert(!(0 <= table.spec_get(TransportMode::Cycle) + delta.spec_get(
                TransportMode::Cycle,
            ) <= bound));
        } else {
            assert(!(0 <= table.spec_get(TransportMode::Walk) + delta.spec_get(TransportMode::Walk)
                <= bound));
        }
    }
}

/// Whether one sum stays inside `[0, bound]`.
fn delta_in_range(value: u64, delta: i64, bound: u64) -> (ok: bool)
    ensures
        ok == (0 <= value + delta <= bound),
{
    let sum: i128 = value as i128 + delta as i128;
    0 <= sum && sum <= bound as i128
}

/// Checks that a delta keeps every entry of a table inside `[0, bound]`.
fn table_delta_ok(table: &ModeTable, delta: &ModeDeltaTable, bound: u64) -> (ok: bool)
    ensures
        ok == spec_table_delta_ok(*table, *delta, bound as int),
{
    proof {
        lemma_table_delta_ok_fields(*table, *delta, bound as int);
    }
    delta_in_range(table.car, delta.car, bound) && delta_in_range(
        table.public_transport,
        delta.public_transport,
        bound,
    ) && delta_in_range(table.cycle, delta.cycle, bound) && delta_in_range(
        table.walk,
        delta.walk,
        bound,
    )
}

/// Adds a delta to a table whose entries are known to stay in range.
fn add_table(table: &ModeTable, delta: &ModeDeltaTable, bound: u64) -> (added: ModeTable)
    requires
        spec_table_delta_ok(*table, *delta, bound as int),
    ensures
        added == spec_applied_table(*table, *delta),
        added.spec_all_at_most(bound),
{
    proof {
        lemma_table_delta_ok_fields(*table, *delta, bound as int);
        crate::mode_table::lemma_all_at_most(spec_applied_table(*table, *delta), bound);
    }
    ModeTable {
        car: (table.car as i128 + delta.car as i128) as u64,
        public_transport: (table.public_transport as i128 + delta.public_transport as i128) as u64,
        cycle: (table.cycle as i128 + delta.cycle as i128) as u64,
        walk: (table.walk as i128 + delta.walk as i128) as u64,
    }
}

/// Whether one neighbourhood change can apply against the given
/// neighbourhoods: its id must exist and both deltas must stay in
/// range.
pub open spec fn spec_change_ok(ns: Seq<Neighbourhood>, change: NeighbourhoodChange) -> bool {
    match spec_find_neighbourhood(ns, change.id@) {
        Some(k) => spec_table_delta_ok(
            ns[k].supportiveness,
            change.increase_in_supportiveness,
            SCALE as int,
        ) && spec_table_delta_ok(ns[k].capacity, change.increase_in_capacity, u64::MAX as int),
        None => false,
    }
}

/// The fault a failing neighbourhood change raises.
pub open spec fn spec_change_fault(ns: Seq<Neighbourhood>, change: NeighbourhoodChange) -> ConfigError {
    match spec_find_neighbourhood(ns, change.id@) {
        Some(k) => if !spec_table_delta_ok(
            ns[k].supportiveness,
            change.increase_in_supportiveness,
            SCALE as int,
        ) {
            ConfigError::SupportivenessOutOfRange
        } else {
            ConfigError::CapacityOutOfRange
        },
        None => ConfigError::UnknownNeighbourhood,
    }
}

/// The neighbourhoods after one change (unchanged when the change
/// cannot apply).
pub open spec fn spec_apply_change(ns: Seq<Neighbourhood>, change: NeighbourhoodChange) -> Seq<
    Neighbourhood,
> {
    match spec_find_neighbourhood(ns, change.id@) {
        Some(k) => ns.update(
            k,
            Neighbourhood {
                id: ns[k].id,
                supportiveness: spec_applied_table(
                    ns[k].supportiveness,
                    change.increase_in_supportiveness,
                ),
                capacity: spec_applied_table(ns[k].capacity, change.increase_in_capacity),
            },
        ),
        None => ns,
    }
}

/// Whether a list of changes applies in order, each against the state
/// the previous ones left.
pub open spec fn spec_changes_ok(ns: Seq<Neighbourhood>, changes: Seq<NeighbourhoodChange>) -> bool
    decreases changes.len(),
{
    if changes.len() == 0 {
        true
    } else {
        spec_change_ok(ns, changes[0]) && spec_changes_ok(
            spec_apply_change(ns, changes[0]),
            changes.drop_first(),
        )
    }
}

/// The fault of the first failing change of a list.
pub open spec fn spec_changes_fault(ns: Seq<Neighbourhood>, changes: Seq<NeighbourhoodChange>) -> ConfigError
    decreases changes.len(),
{
    if changes.len() == 0 {
        ConfigError::UnknownNeighbourhood
    } else if !spec_change_ok(ns, changes[0]) {
        spec_change_fault(ns, changes[0])
    } else {
        spec_changes_fault(spec_apply_change(ns, changes[0]), changes.drop_first())
    }
}

/// The neighbourhoods after a list of changes, applied in order.
pub open spec fn spec_apply_changes(ns: Seq<Neighbourhood>, changes: Seq<NeighbourhoodChange>) -> Seq<
    Neighbourhood,
>
    decreases changes.len(),
{
    if changes.len() == 0 {
        ns
    } else {
        spec_apply_changes(spec_apply_change(ns, changes[0]), changes.drop_first())
    }
}

/// The part of a population that interventions read and write, at the
/// mathematical level: the neighbourhoods and the global vehicle stock.
pub struct InterventionState {
    pub neighbourhoods: Seq<Neighbourhood>,
    pub number_of_bikes: int,
    pub number_of_cars: int,
}

/// The intervention-visible state of a population.
pub open spec fn spec_state_of(population: Population) -> InterventionState {
    InterventionState {
        neighbourhoods: population.neighbourhoods@,
        number_of_bikes: population.number_of_bikes as int,
        number_of_cars: population.number_of_cars as int,
    }
}

/// Whether the global stock deltas of an intervention stay in range.
pub open spec fn spec_stock_ok(state: InterventionState, intervention: Intervention) -> bool {
    &&& 0 <= state.number_of_bikes + intervention.change_in_number_of_bikes <= u64::MAX
    &&& 0 <= state.number_of_cars + intervention.change_in_number_of_cars <= u64::MAX
}

/// Whether a whole intervention can apply against a state.
pub open spec fn spec_intervention_ok(state: InterventionState, intervention: Intervention) -> bool {
    &&& spec_stock_ok(state, intervention)
    &&& spec_changes_ok(state.neighbourhoods, intervention.neighbourhood_changes@)
}

/// The fault a failing intervention raises: a stock fault is detected
/// before any change, then the changes are tried in order.
pub open spec fn spec_intervention_fault(state: InterventionState, intervention: Intervention) -> ConfigError {
    if !spec_stock_ok(state, intervention) {
        ConfigError::StockOutOfRange
    } else {
        spec_changes_fault(state.neighbourhoods, intervention.neighbourhood_changes@)
    }
}

/// The state after a whole intervention.
pub open spec fn spec_apply_intervention(state: InterventionState, intervention: Intervention) -> InterventionState {
    InterventionState {
        neighbourhoods: spec_apply_changes(
            state.neighbourhoods,
            intervention.neighbourhood_changes@,
        ),
        number_of_bikes: state.number_of_bikes + intervention.change_in_number_of_bikes,
        number_of_cars: state.number_of_cars + intervention.change_in_number_of_cars,
    }
}

/// Finds the first neighbourhood with the given id.
fn find_neighbourhood(neighbourhoods: &Vec<Neighbourhood>, id: &String) -> (found: Option<usize>)
    ensures
        match found {
            Some(k) => spec_find_neighbourhood(neighbourhoods@, id@) == Some(k as int) && k
                < neighbourhoods@.len(),
            None => spec_find_neighbourhood(neighbourhoods@, id@) is None,
        },
{
    let mut i: usize = 0;
    while i < neighbourhoods.len()
        invariant
            i <= neighbourhoods@.len(),
            spec_find_from(neighbourhoods@, id@, 0) == spec_find_from(
                neighbourhoods@,
                id@,
                i as int,
            ),
        decreases neighbourhoods@.len() - i,
    {
        if neighbourhoods[i].id == *id {
            return Some(i);
        }
        i += 1;
    }
    None
}

/// Applies one neighbourhood change, or rejects it and leaves the
/// neighbourhoods untouched: unknown id, or a delta that would leave
/// supportiveness outside the unit interval or capacity outside its
/// range.
fn apply_change(neighbourhoods: &mut Vec<Neighbourhood>, change: &NeighbourhoodChange) -> (result:
    Result<(), ConfigError>)
    ensures
        result is Ok <==> spec_change_ok(old(neighbourhoods)@, *change),
        result is Ok ==> final(neighbourhoods)@ == spec_apply_change(
            old(neighbourhoods)@,
            *change,
        ),
        result is Err ==> final(neighbourhoods)@ == old(neighbourhoods)@ && result == Err::<
            (),
            ConfigError,
        >(spec_change_fault(old(neighbourhoods)@, *change)),
        final(neighbourhoods)@.len() == old(neighbourhoods)@.len(),
        (forall|m: int|
            0 <= m < old(neighbourhoods)@.len() ==> (#[trigger] old(neighbourhoods)@[m]).spec_wf())
            ==> (forall|m: int|
            0 <= m < final(neighbourhoods)@.len() ==> (
            #[trigger] final(neighbourhoods)@[m]).spec_wf()),
{
    let found = find_neighbourhood(neighbourhoods, &change.id);
    match found {
        None => Err(ConfigError::UnknownNeighbourhood),
        Some(k) => {
            if !table_delta_ok(
                &neighbourhoods[k].supportiveness,
                &change.increase_in_supportiveness,
                SCALE,
            ) {
                return Err(ConfigError::SupportivenessOutOfRange);
            }
            if !table_delta_ok(&neighbourhoods[k].capacity, &change.increase_in_capacity, u64::MAX) {
                return Err(ConfigError::CapacityOutOfRange);
            }
            let ghost before = neighbourhoods@;
            let mut neighbourhood = neighbourhoods.remove(k);
            let supportiveness = add_table(
                &neighbourhood.supportiveness,
                &change.increase_in_supportiveness,
                SCALE,
            );
            let capacity = add_table(&neighbourhood.capacity, &change.increase_in_capacity, u64::MAX);
            neighbourhood.supportiveness = supportiveness;
            neighbourhood.capacity = capacity;
            neighbourhoods.insert(k, neighbourhood);
            proof {
                assert(neighbourhoods@ =~= spec_apply_change(before, *change));
            }
            Ok(())
        },
    }
}

/// Applies a whole intervention to a population, or rejects it with the
/// fault of its first failing part.  The stock deltas are validated
/// before anything mutates; the neighbourhood changes then apply in
/// order, failing fast.  On a fault the run is abandoned: the
/// population stays well-formed and its agents and stock are untouched,
/// but the changes before the failing one already stand.
pub fn apply_intervention(population: &mut Population, intervention: &Intervention) -> (result:
    Result<(), ConfigError>)
    requires
        old(population).spec_wf(),
    ensures
        final(population).spec_wf(),
        final(population).agents == old(population).agents,
        final(population).neighbourhoods@.len() == old(population).neighbourhoods@.len(),
        result is Ok <==> spec_intervention_ok(spec_state_of(*old(population)), *intervention),
        result is Ok ==> spec_state_of(*final(population)) == spec_apply_intervention(
            spec_state_of(*old(population)),
            *intervention,
        ),
        result is Err ==> result == Err::<(), ConfigError>(
            spec_intervention_fault(spec_state_of(*old(population)), *intervention),
        ) && final(population).number_of_bikes == old(population).number_of_bikes && final(
            population).number_of_cars == old(population).number_of_cars,
{
    let ghost original = *population;
    let bikes_ok = delta_in_range(
        population.number_of_bikes,
        intervention.change_in_number_of_bikes as i64,
        u64::MAX,
    );
    let cars_ok = delta_in_range(
        population.number_of_cars,
        intervention.change_in_number_of_cars as i64,
        u64::MAX,
    );
    if !bikes_ok || !cars_ok {
        return Err(ConfigError::StockOutOfRange);
    }
    let changes = &intervention.neighbourhood_changes;
    proof {
        assert(changes@.skip(0) =~= changes@);
    }
    let mut j: usize = 0;
    while j < changes.len()
        invariant
            j <= changes@.len(),
            changes@ == intervention.neighbourhood_changes@,
            original == *old(population),
            spec_stock_ok(spec_state_of(original), *intervention),
            original.spec_wf(),
            population.agents == original.agents,
            population.number_of_bikes == original.number_of_bikes,
            population.number_of_cars == original.number_of_cars,
            population.neighbourhoods@.len() == original.neighbourhoods@.len(),
            forall|m: int|
                0 <= m < population.neighbourhoods@.len() ==> (
                #[trigger] population.neighbourhoods@[m]).spec_wf(),
            spec_changes_ok(original.neighbourhoods@, changes@) == spec_changes_ok(
                population.neighbourhoods@,
                changes@.skip(j as int),
            ),
            spec_apply_changes(original.neighbourhoods@, changes@) == spec_apply_changes(
                population.neighbourhoods@,
                changes@.skip(j as int),
            ),
            spec_changes_fault(original.neighbourhoods@, changes@) == spec_changes_fault(
                population.neighbourhoods@,
                changes@.skip(j as int),
            ),
        decreases changes@.len() - j,
    {
        let ghost suffix = changes@.skip(j as int);
        proof {
            assert(suffix[0] == changes@[j as int]);
            assert(suffix.drop_first() =~= changes@.skip(j + 1));
        }
        let outcome = apply_change(&mut population.neighbourhoods, &changes[j]);
        match outcome {
            Ok(unit) => {
                j += 1;
            },
            Err(fault) => {
                proof {
                    assert(!spec_change_ok(population.neighbourhoods@, changes@[j as int]));
                    assert(!spec_changes_ok(population.neighbourhoods@, suffix));
                    assert(!spec_changes_ok(original.neighbourhoods@, changes@));
                    assert(spec_changes_fault(population.neighbourhoods@, suffix)
                        == spec_change_fault(population.neighbourhoods@, changes@[j as int]));
                    lemma_population_wf_same_agents(original, *population);
                }
                return Err(fault);
            },
        }
    }
    proof {
        assert(changes@.skip(changes@.len() as int) =~= Seq::<NeighbourhoodChange>::empty());
        lemma_population_wf_same_agents(original, *population);
    }
    population.number_of_bikes = ((population.number_of_bikes as i128
        + intervention.change_in_number_of_bikes as i128)) as u64;
    population.number_of_cars = ((population.number_of_cars as i128
        + intervention.change_in_number_of_cars as i128)) as u64;
    proof {
        assert(spec_state_of(*population).neighbourhoods =~= spec_apply_intervention(
            spec_state_of(original),
            *intervention,
        ).neighbourhoods);
        lemma_population_wf_same_agents(original, *population);
    }
    Ok(())
}

/// A population whose agents are unchanged, whose neighbourhood count
/// is unchanged and whose neighbourhoods are all well-formed is still
/// well-formed.
proof fn lemma_population_wf_same_agents(before: Population, after: Population)
    requires
        before.spec_wf(),
        after.agents == before.agents,
        after.neighbourhoods@.len() == before.neighbourhoods@.len(),
        forall|m: int|
            0 <= m < after.neighbourhoods@.len() ==> (#[trigger] after.neighbourhoods@[m]).spec_wf(),
    ensures
        after.spec_wf(),
{
    assert forall|i: int| 0 <= i < after.agents.len() implies (
    #[trigger] after.agents[i]).spec_wf() by {
        assert(before.agents[i].spec_wf());
    }
    assert forall|i: int| 0 <= i < after.agents.len() implies #[trigger] after.spec_agent_links_wf(
        i,
    ) by {
        assert(before.spec_agent_links_wf(i));
    }
}

/// The cursor position after the interventions due on `day`: the first
/// position at or past `next` whose intervention lies beyond `day`.
pub open spec fn spec_due_range(ivs: Seq<Intervention>, next: int, day: u32) -> int
    decreases ivs.len() - next,
{
    if next < 0 || next >= ivs.len() || ivs[next].day > day {
        next
    } else {
        spec_due_range(ivs, next + 1, day)
    }
}

/// Whether every intervention due on `day` applies cleanly, each
/// against the state the previous ones left.  Interventions dated
/// before `day` are skipped, not applied.
pub open spec fn spec_due_ok(state: InterventionState, ivs: Seq<Intervention>, next: int, day: u32) -> bool
    decreases ivs.len() - next,
{
    if next < 0 || next >= ivs.len() || ivs[next].day > day {
        true
    } else if ivs[next].day < day {
        spec_due_ok(state, ivs, next + 1, day)
    } else {
        spec_intervention_ok(state, ivs[next]) && spec_due_ok(
            spec_apply_intervention(state, ivs[next]),
            ivs,
            next + 1,
            day,
        )
    }
}

/// The fault of the first failing due intervention.
pub open spec fn spec_due_fault(state: InterventionState, ivs: Seq<Intervention>, next: int, day: u32) -> ConfigError
    decreases ivs.len() - next,
{
    if next < 0 || next >= ivs.len() || ivs[next].day > day {
        ConfigError::UnknownNeighbourhood
    } else if ivs[next].day < day {
        spec_due_fault(state, ivs, next + 1, day)
    } else if !spec_intervention_ok(state, ivs[next]) {
        spec_intervention_fault(state, ivs[next])
    } else {
        spec_due_fault(spec_apply_intervention(state, ivs[next]), ivs, next + 1, day)
    }
}

/// The state after the interventions due on `day`.
pub open spec fn spec_apply_due(state: InterventionState, ivs: Seq<Intervention>, next: int, day: u32) -> InterventionState
    decreases ivs.len() - next,
{
    if next < 0 || next >= ivs.len() || ivs[next].day > day {
        state
    } else if ivs[next].day < day {
        spec_apply_due(state, ivs, next + 1, day)
    } else {
        spec_apply_due(spec_apply_intervention(state, ivs[next]), ivs, next + 1, day)
    }
}

/// The due-range cursor lies between the old cursor and the end, and
/// rests on an intervention beyond `day` (or on the end).
pub proof fn lemma_due_range_props(ivs: Seq<Intervention>, next: int, day: u32)
    requires
        0 <= next <= ivs.len(),
    ensures
        next <= spec_due_range(ivs, next, day) <= ivs.len(),
        spec_due_range(ivs, next, day) == ivs.len() || ivs[spec_due_range(ivs, next, day)].day
            > day,
    decreases ivs.len() - next,
{
    if next < ivs.len() && ivs[next].day <= day {
        lemma_due_range_props(ivs, next + 1, day);
    }
}

/// Once the cursor rests past a day's due interventions, asking for the
/// same day again is a no-op: the scheduler never applies an
/// intervention twice.
pub proof fn lemma_apply_due_idempotent(
    state: InterventionState,
    ivs: Seq<Intervention>,
    next: int,
    day: u32,
)
    requires
        0 <= next <= ivs.len(),
    ensures
        spec_due_range(ivs, spec_due_range(ivs, next, day), day) == spec_due_range(ivs, next, day),
        spec_apply_due(state, ivs, spec_due_range(ivs, next, day), day) == state,
        spec_due_ok(state, ivs, spec_due_range(ivs, next, day), day),
{
    lemma_due_range_props(ivs, next, day);
}

/// The day-ordered scheduler: holds the interventions sorted by day and
/// a cursor over the ones already handled, so that each intervention is
/// applied exactly once even if a day is asked about again.
pub struct InterventionScheduler {
    /// The interventions, in day order.
    pub interventions: Vec<Intervention>,
    /// The position of the first intervention not yet handled.
    pub next: usize,
}

impl InterventionScheduler {
    /// The interventions are in day order.
    pub open spec fn spec_day_ordered(ivs: Seq<Intervention>) -> bool {
        forall|a: int, b: int|
            0 <= a <= b < ivs.len() ==> (#[trigger] ivs[a]).day <= (#[trigger] ivs[b]).day
    }

    /// The scheduler's invariant.
    pub open spec fn spec_wf(self) -> bool {
        &&& Self::spec_day_ordered(self.interventions@)
        &&& self.next <= self.interventions@.len()
    }

    /// Builds a scheduler over day-ordered interventions, rejecting an
    /// unordered list as a configuration fault.
    pub fn new(interventions: Vec<Intervention>) -> (result: Result<
        InterventionScheduler,
        ConfigError,
    >)
        ensures
            result is Ok <==> Self::spec_day_ordered(interventions@),
            match result {
                Ok(scheduler) => scheduler.interventions == interventions && scheduler.next == 0
                    && scheduler.spec_wf(),
                Err(fault) => fault == ConfigError::UnorderedInterventions,
            },
    {
        let mut j: usize = 1;
        while j < interventions.len()
            invariant
                1 <= j,
                forall|k: int|
                    #![trigger interventions@[k]]
                    0 <= k < j - 1 ==> interventions@[k].day <= interventions@[k + 1].day,
            decreases interventions@.len() - j,
        {
            if interventions[j - 1].day > interventions[j].day {
                proof {
                    assert(!(interventions@[j - 1].day <= interventions@[j as int].day));
                }
                return Err(ConfigError::UnorderedInterventions);
            }
            j += 1;
        }
        proof {
            assert forall|a: int, b: int|
                0 <= a <= b < interventions@.len() implies (#[trigger] interventions@[a]).day <= (
            #[trigger] interventions@[b]).day by {
                lemma_day_order(interventions@, a, b);
            }
        }
        Ok(InterventionScheduler { interventions, next: 0 })
    }

    /// Applies, exactly once and in day order, every intervention whose
    /// day matches `day`; interventions dated before `day` are skipped.
    /// A fault abandons the run with the first failing part's error.
    pub fn apply_due(&mut self, day: u32, population: &mut Population) -> (result: Result<
        (),
        ConfigError,
    >)
        requires
            old(self).spec_wf(),
            old(population).spec_wf(),
        ensures
            final(self).spec_wf(),
            final(self).interventions == old(self).interventions,
            old(self).next <= final(self).next,
            final(population).spec_wf(),
            final(population).agents == old(population).agents,
            final(population).neighbourhoods@.len() == old(population).neighbourhoods@.len(),
            result is Ok <==> spec_due_ok(
                spec_state_of(*old(population)),
                old(self).interventions@,
                old(self).next as int,
                day,
            ),
            result is Ok ==> spec_state_of(*final(population)) == spec_apply_due(
                spec_state_of(*old(population)),
                old(self).interventions@,
                old(self).next as int,
                day,
            ) && final(self).next == spec_due_range(
                old(self).interventions@,
                old(self).next as int,
                day,
            ),
            result is Err ==> result == Err::<(), ConfigError>(
                spec_due_fault(
                    spec_state_of(*old(population)),
                    old(self).interventions@,
                    old(self).next as int,
                    day,
                ),
            ),
    {
        let ghost original_state = spec_state_of(*old(population));
        let ghost ivs = self.interventions@;
        let ghost start = old(self).next as int;
        while self.next < self.interventions.len() && self.interventions[self.next].day <= day
            invariant
                ivs == old(self).interventions@,
                start == old(self).next as int,
                original_state == spec_state_of(*old(population)),
                self.interventions == old(self).interventions,
                InterventionScheduler::spec_day_ordered(ivs),
                start <= self.next <= ivs.len(),
                population.spec_wf(),
                population.agents == old(population).agents,
                population.neighbourhoods@.len() == old(population).neighbourhoods@.len(),
                spec_due_ok(original_state, ivs, start, day) == spec_due_ok(
                    spec_state_of(*population),
                    ivs,
                    self.next as int,
                    day,
                ),
                spec_apply_due(original_state, ivs, start, day) == spec_apply_due(
                    spec_state_of(*population),
                    ivs,
                    self.next as int,
                    day,
                ),
                spec_due_fault(original_state, ivs, start, day) == spec_due_fault(
                    spec_state_of(*population),
                    ivs,
                    self.next as int,
                    day,
                ),
                spec_due_range(ivs, start, day) == spec_due_range(ivs, self.next as int, day),
            decreases ivs.len() - self.next,
        {
            if self.interventions[self.next].day < day {
                self.next += 1;
            } else {
                let ghost state_before = spec_state_of(*population);
                let outcome = apply_intervention(population, &self.interventions[self.next]);
                match outcome {
                    Ok(unit) => {
                        self.next += 1;
                    },
                    Err(fault) => {
                        proof {
                            assert(!spec_due_ok(state_before, ivs, self.next as int, day));
                            assert(spec_due_fault(state_before, ivs, self.next as int, day)
                                == spec_intervention_fault(state_before, ivs[self.next as int]));
                        }
                        return Err(fault);
                    },
                }
            }
        }
        Ok(())
    }
}

/// In an adjacently day-ordered list, every earlier intervention's day
/// is at most every later one's.
proof fn lemma_day_order(ivs: Seq<Intervention>, a: int, b: int)
    requires
        forall|k: int| #![trigger ivs[k]] 0 <= k < ivs.len() - 1 ==> ivs[k].day <= ivs[k + 1].day,
        0 <= a <= b < ivs.len(),
    ensures
        ivs[a].day <= ivs[b].day,
    decreases b - a,
{
    if a < b {
        lemma_day_order(ivs, a, b - 1);
        assert(ivs[b - 1].day <= ivs[b].day);
    }
}

} // verus!
