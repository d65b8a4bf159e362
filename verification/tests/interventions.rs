//! Tests of interventions and of the day-ordered scheduler.

use motivate::errors::ConfigError;
use motivate::intervention::{
    apply_intervention, Intervention, InterventionScheduler, NeighbourhoodChange,
};
use motivate::mode_table::{ModeDeltaTable, ModeTable};
use motivate::neighbourhood::Neighbourhood;
use motivate::population::Population;
use motivate::SCALE;

fn one_neighbourhood_population(cycle_supportiveness: u64) -> Population {
    Population {
        agents: Vec::new(),
        neighbourhoods: vec![Neighbourhood {
            id: String::from("N1"),
            supportiveness: ModeTable {
                car: 500000,
                public_transport: 500000,
                cycle: cycle_supportiveness,
                walk: 500000,
            },
            capacity: ModeTable::uniform(10),
        }],
        number_of_bikes: 100,
        number_of_cars: 100,
    }
}

fn cycle_boost(id: &str, supportiveness: i64, capacity: i64) -> Intervention {
    let mut change = NeighbourhoodChange {
        id: String::from(id),
        increase_in_supportiveness: ModeDeltaTable::zero(),
        increase_in_capacity: ModeDeltaTable::zero(),
    };
    change.increase_in_supportiveness.cycle = supportiveness;
    change.increase_in_capacity.cycle = capacity;
    Intervention {
        day: 1,
        neighbourhood_changes: vec![change],
        change_in_number_of_bikes: 5,
        change_in_number_of_cars: -5,
    }
}

#[test]
fn intervention_applies_deltas_exactly() {
    let mut population = one_neighbourhood_population(200000);
    let intervention = cycle_boost("N1", 300000, 7);
    apply_intervention(&mut population, &intervention).unwrap();
    let neighbourhood = &population.neighbourhoods[0];
    assert_eq!(neighbourhood.supportiveness.cycle, 500000);
    assert_eq!(neighbourhood.supportiveness.car, 500000);
    assert_eq!(neighbourhood.capacity.cycle, 17);
    assert_eq!(population.number_of_bikes, 105);
    assert_eq!(population.number_of_cars, 95);
    // supportiveness stays in the unit interval, capacity non-negative
    assert!(neighbourhood.supportiveness.cycle <= SCALE);
}

#[test]
fn intervention_rejects_unknown_neighbourhood() {
    let mut population = one_neighbourhood_population(200000);
    let intervention = cycle_boost("N2", 100000, 0);
    assert_eq!(
        apply_intervention(&mut population, &intervention),
        Err(ConfigError::UnknownNeighbourhood)
    );
    assert_eq!(population.neighbourhoods[0].supportiveness.cycle, 200000);
}

#[test]
fn intervention_rejects_supportiveness_outside_unit_interval() {
    let mut population = one_neighbourhood_population(800000);
    let over = cycle_boost("N1", 300000, 0);
    assert_eq!(
        apply_intervention(&mut population, &over),
        Err(ConfigError::SupportivenessOutOfRange)
    );
    assert_eq!(population.neighbourhoods[0].supportiveness.cycle, 800000);
    let under = cycle_boost("N1", -900000, 0);
    assert_eq!(
        apply_intervention(&mut population, &under),
        Err(ConfigError::SupportivenessOutOfRange)
    );
}

#[test]
fn intervention_rejects_negative_capacity() {
    let mut population = one_neighbourhood_population(200000);
    let drain = cycle_boost("N1", 0, -11);
    assert_eq!(
        apply_intervention(&mut population, &drain),
        Err(ConfigError::CapacityOutOfRange)
    );
    assert_eq!(population.neighbourhoods[0].capacity.cycle, 10);
}

#[test]
fn intervention_rejects_negative_stock() {
    let mut population = one_neighbourhood_population(200000);
    population.number_of_bikes = 3;
    let mut intervention = cycle_boost("N1", 0, 0);
    intervention.change_in_number_of_bikes = -4;
    assert_eq!(
        apply_intervention(&mut population, &intervention),
        Err(ConfigError::StockOutOfRange)
    );
    assert_eq!(population.number_of_bikes, 3);
    assert_eq!(population.neighbourhoods[0].supportiveness.cycle, 200000);
}

#[test]
fn scheduler_rejects_unordered_interventions() {
    let mut early = cycle_boost("N1", 1000, 0);
    early.day = 3;
    let mut late = cycle_boost("N1", 1000, 0);
    late.day = 2;
    match InterventionScheduler::new(vec![early, late]) {
        Err(fault) => assert_eq!(fault, ConfigError::UnorderedInterventions),
        Ok(_) => panic!("an unordered list must be rejected"),
    }
}

#[test]
fn scheduler_applies_each_intervention_exactly_once() {
    let mut population = one_neighbourhood_population(200000);
    let mut intervention = cycle_boost("N1", 100000, 1);
    intervention.day = 5;
    let mut scheduler = InterventionScheduler::new(vec![intervention]).unwrap();
    // days before the due day change nothing
    scheduler.apply_due(4, &mut population).unwrap();
    assert_eq!(population.neighbourhoods[0].supportiveness.cycle, 200000);
    // the due day applies the intervention once
    scheduler.apply_due(5, &mut population).unwrap();
    assert_eq!(population.neighbourhoods[0].supportiveness.cycle, 300000);
    // asking for the same day again must not reapply it
    scheduler.apply_due(5, &mut population).unwrap();
    assert_eq!(population.neighbourhoods[0].supportiveness.cycle, 300000);
    assert_eq!(population.number_of_bikes, 105);
    // later days do not see it either
    scheduler.apply_due(6, &mut population).unwrap();
    assert_eq!(population.neighbourhoods[0].supportiveness.cycle, 300000);
}

#[test]
fn scheduler_applies_all_interventions_of_one_day() {
    let mut population = one_neighbourhood_population(100000);
    let mut first = cycle_boost("N1", 100000, 0);
    first.day = 2;
    let mut second = cycle_boost("N1", 200000, 0);
    second.day = 2;
    let mut scheduler = InterventionScheduler::new(vec![first, second]).unwrap();
    scheduler.apply_due(2, &mut population).unwrap();
    assert_eq!(population.neighbourhoods[0].supportiveness.cycle, 400000);
}
