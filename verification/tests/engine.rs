//! Tests of the agent decision model, the habit update and the
//! subgroup share counting.

use motivate::agent::{count_in_subgroup, norm_from_shares, Agent, CAR_WITHOUT_OWNERSHIP_PENALTY};
use motivate::journey_type::JourneyType;
use motivate::mode_table::ModeTable;
use motivate::transport_mode::TransportMode;
use motivate::weather::Weather;
use motivate::SCALE;

fn sample_agent() -> Agent {
    Agent {
        neighbourhood: 0,
        commute_length: JourneyType::LocalCommute,
        commute_length_continuous: 0,
        weather_sensitivity: 0,
        consistency: 0,
        social_connectivity: 0,
        neighbourhood_connectivity: 0,
        average_weight: 0,
        habit: ModeTable::uniform(0),
        current_mode: TransportMode::Car,
        last_mode: TransportMode::Car,
        norm: TransportMode::Car,
        owns_bike: false,
        owns_car: true,
        social_network: Vec::new(),
        neighbours: Vec::new(),
    }
}

#[test]
fn habit_update_moves_used_mode_up_and_others_down() {
    let mut agent = sample_agent();
    agent.average_weight = 100000; // 0.1
    agent.habit = ModeTable { car: 500000, public_transport: 500000, cycle: 0, walk: SCALE };
    agent.current_mode = TransportMode::Car;
    agent.update_habit();
    assert_eq!(agent.last_mode, TransportMode::Car);
    // the used mode strictly increases, the others strictly decrease
    assert!(agent.habit.car > 500000);
    assert!(agent.habit.public_transport < 500000);
    assert!(agent.habit.walk < SCALE);
    // an already-zero score stays zero, everything stays in [0, SCALE]
    assert_eq!(agent.habit.cycle, 0);
    assert!(agent.habit.car <= SCALE);
    assert!(agent.habit.public_transport <= SCALE);
    assert!(agent.habit.walk <= SCALE);
}

#[test]
fn habit_update_exact_values() {
    let mut agent = sample_agent();
    agent.average_weight = 100000; // 0.1
    agent.habit = ModeTable { car: 500000, public_transport: 600000, cycle: 0, walk: SCALE };
    agent.current_mode = TransportMode::Car;
    agent.update_habit();
    // used mode: ceil(0.9 * 0.5 + 0.1) = 0.55; others: floor(0.9 * old)
    assert_eq!(agent.habit.car, 550000);
    assert_eq!(agent.habit.public_transport, 540000);
    assert_eq!(agent.habit.cycle, 0);
    assert_eq!(agent.habit.walk, 900000);
}

#[test]
fn habit_converges_to_86_percent_in_configured_days() {
    // (1 - w)^30 ~ 0.14, so w ~ 0.0634346: after 30 days of one mode
    // from a cold start its score reaches about 0.86
    let mut agent = sample_agent();
    agent.average_weight = 63435;
    agent.current_mode = TransportMode::Cycle;
    for _ in 0..30 {
        agent.update_habit();
        assert!(agent.habit.cycle <= SCALE);
    }
    assert!(agent.habit.cycle >= 855000, "score {}", agent.habit.cycle);
    assert!(agent.habit.cycle <= 875000, "score {}", agent.habit.cycle);
}

#[test]
fn choose_mode_prefers_strong_habit() {
    // loyalty (0.5 to the car) and norm pull (0.5 to walking) are both
    // beaten by a strong public-transport habit
    let mut agent = sample_agent();
    agent.consistency = 500000;
    agent.last_mode = TransportMode::Car;
    agent.norm = TransportMode::Walk;
    agent.habit = ModeTable { car: 100000, public_transport: 900000, cycle: 0, walk: 0 };
    agent.choose_mode(&Weather::Good, false);
    assert_eq!(agent.current_mode, TransportMode::PublicTransport);
}

#[test]
fn choose_mode_never_cycles_without_a_bike() {
    let mut agent = sample_agent();
    agent.owns_bike = false;
    agent.habit = ModeTable { car: 0, public_transport: 0, cycle: SCALE, walk: 0 };
    agent.norm = TransportMode::Cycle;
    agent.choose_mode(&Weather::Good, false);
    assert_ne!(agent.current_mode, TransportMode::Cycle);
    // with a bike the same agent cycles
    let mut cyclist = sample_agent();
    cyclist.owns_bike = true;
    cyclist.habit = ModeTable { car: 0, public_transport: 0, cycle: SCALE, walk: 0 };
    cyclist.norm = TransportMode::Cycle;
    cyclist.choose_mode(&Weather::Good, false);
    assert_eq!(cyclist.current_mode, TransportMode::Cycle);
}

#[test]
fn choose_mode_penalizes_unowned_car() {
    let mut agent = sample_agent();
    agent.owns_car = false;
    agent.habit = ModeTable { car: 600000, public_transport: 200000, cycle: 0, walk: 0 };
    assert!(CAR_WITHOUT_OWNERSHIP_PENALTY >= SCALE);
    agent.choose_mode(&Weather::Good, false);
    assert_eq!(agent.current_mode, TransportMode::PublicTransport);
}

#[test]
fn choose_mode_weather_penalty_amplified_on_change() {
    // a committed walker in bad weather: the single penalty leaves
    // walking ahead of a 0.3 car habit, a change in the weather doubles
    // the penalty and the car wins
    let mut agent = sample_agent();
    agent.weather_sensitivity = 900000;
    agent.habit = ModeTable { car: 300000, public_transport: 0, cycle: 0, walk: 900000 };
    agent.last_mode = TransportMode::Walk;
    agent.norm = TransportMode::Walk;
    let mut same = agent.clone();
    same.choose_mode(&Weather::Bad, false);
    assert_eq!(same.current_mode, TransportMode::Walk);
    let mut changed = agent.clone();
    changed.choose_mode(&Weather::Bad, true);
    assert_eq!(changed.current_mode, TransportMode::Car);
}

#[test]
fn choose_mode_is_total_over_many_inputs() {
    // every reachable combination returns exactly one of the four modes
    let modes = [
        TransportMode::Car,
        TransportMode::PublicTransport,
        TransportMode::Cycle,
        TransportMode::Walk,
    ];
    for &last in &modes {
        for &norm in &modes {
            for &weather in &[Weather::Good, Weather::Bad] {
                for &change in &[false, true] {
                    for &owns_bike in &[false, true] {
                        for &owns_car in &[false, true] {
                            let mut agent = sample_agent();
                            agent.last_mode = last;
                            agent.norm = norm;
                            agent.owns_bike = owns_bike;
                            agent.owns_car = owns_car;
                            agent.habit = ModeTable {
                                car: 250000,
                                public_transport: 400000,
                                cycle: 700000,
                                walk: 100000,
                            };
                            agent.consistency = 300000;
                            agent.weather_sensitivity = 600000;
                            agent.choose_mode(&weather, change);
                            assert!(modes.contains(&agent.current_mode));
                            if agent.current_mode == TransportMode::Cycle {
                                assert!(owns_bike);
                            }
                        }
                    }
                }
            }
        }
    }
}

#[test]
fn count_in_subgroup_weighted_shares() {
    let modes = vec![
        TransportMode::Car,
        TransportMode::Car,
        TransportMode::Walk,
        TransportMode::Cycle,
    ];
    let shares = count_in_subgroup(&modes, SCALE);
    assert_eq!(shares.car, 500000);
    assert_eq!(shares.walk, 250000);
    assert_eq!(shares.cycle, 250000);
    // a mode nobody took has share zero
    assert_eq!(shares.public_transport, 0);
    // the weight scales the shares
    let half = count_in_subgroup(&modes, 500000);
    assert_eq!(half.car, 250000);
}

#[test]
fn count_in_subgroup_empty_group_is_all_zero() {
    let shares = count_in_subgroup(&Vec::new(), SCALE);
    assert_eq!(shares.car, 0);
    assert_eq!(shares.public_transport, 0);
    assert_eq!(shares.cycle, 0);
    assert_eq!(shares.walk, 0);
}

#[test]
fn norm_ties_break_by_priority_order() {
    let same = ModeTable { car: 200000, public_transport: 200000, cycle: 200000, walk: 200000 };
    let zero = ModeTable { car: 0, public_transport: 0, cycle: 0, walk: 0 };
    // all equal: the car wins by priority
    assert_eq!(norm_from_shares(&same, &zero), TransportMode::Car);
    // a strictly dominant mode wins
    let walk_heavy = ModeTable { car: 100000, public_transport: 0, cycle: 0, walk: 300000 };
    assert_eq!(norm_from_shares(&walk_heavy, &zero), TransportMode::Walk);
    // the two channels add up
    let social = ModeTable { car: 300000, public_transport: 0, cycle: 250000, walk: 0 };
    let neighbours = ModeTable { car: 0, public_transport: 0, cycle: 100000, walk: 0 };
    assert_eq!(norm_from_shares(&social, &neighbours), TransportMode::Cycle);
}
