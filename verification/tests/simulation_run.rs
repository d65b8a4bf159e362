//! Tests of the statistics aggregator and of full simulation runs.

use motivate::agent::Agent;
use motivate::intervention::{Intervention, InterventionScheduler, NeighbourhoodChange};
use motivate::journey_type::JourneyType;
use motivate::mode_table::{ModeDeltaTable, ModeTable};
use motivate::neighbourhood::Neighbourhood;
use motivate::population::Population;
use motivate::simulation::Simulation;
use motivate::statistics::{
    count_active_mode, count_active_mode_by_commute_length, count_active_mode_by_neighbourhood,
};
use motivate::transport_mode::TransportMode;
use motivate::weather::Weather;

fn plain_agent(neighbourhood: usize, mode: TransportMode, commute: JourneyType) -> Agent {
    Agent {
        neighbourhood,
        commute_length: commute,
        commute_length_continuous: 0,
        weather_sensitivity: 0,
        consistency: 0,
        social_connectivity: 0,
        neighbourhood_connectivity: 0,
        average_weight: 100000,
        habit: ModeTable::uniform(0),
        current_mode: mode,
        last_mode: mode,
        norm: mode,
        owns_bike: mode == TransportMode::Cycle,
        owns_car: true,
        social_network: Vec::new(),
        neighbours: Vec::new(),
    }
}

fn plain_neighbourhood(id: &str) -> Neighbourhood {
    Neighbourhood {
        id: String::from(id),
        supportiveness: ModeTable::uniform(500000),
        capacity: ModeTable::uniform(100),
    }
}

#[test]
fn parameters_validate_and_count_days() {
    let parameters = motivate::parameters::Parameters {
        total_years: 3,
        number_of_people: 100,
        number_of_simulations: 4,
        social_connectivity: 300000,
        subculture_connectivity: 250000,
        neighbourhood_connectivity: 200000,
        number_of_social_network_links: 5,
        number_of_neighbour_links: 3,
        days_in_habit_average: 30,
        distributions: vec![(5000000, 1000000, 500000)],
    };
    assert!(parameters.is_wf());
    assert_eq!(parameters.total_days(), 1095);
    let mut bad = parameters;
    bad.social_connectivity = 1000001;
    assert!(!bad.is_wf());
}

#[test]
fn count_active_mode_counts_walk_and_cycle() {
    let agents = vec![
        plain_agent(0, TransportMode::Car, JourneyType::LocalCommute),
        plain_agent(0, TransportMode::Walk, JourneyType::LocalCommute),
        plain_agent(0, TransportMode::Cycle, JourneyType::CityCommute),
        plain_agent(0, TransportMode::PublicTransport, JourneyType::DistantCommute),
    ];
    assert_eq!(count_active_mode(&agents), 2);
}

#[test]
fn count_active_mode_is_idempotent() {
    let agents = vec![
        plain_agent(0, TransportMode::Walk, JourneyType::LocalCommute),
        plain_agent(0, TransportMode::Car, JourneyType::CityCommute),
        plain_agent(0, TransportMode::Cycle, JourneyType::DistantCommute),
    ];
    let first = count_active_mode(&agents);
    let second = count_active_mode(&agents);
    assert_eq!(first, second);
}

#[test]
fn grouped_counts_sum_to_the_ungrouped_count() {
    let agents = vec![
        plain_agent(0, TransportMode::Walk, JourneyType::LocalCommute),
        plain_agent(1, TransportMode::Cycle, JourneyType::LocalCommute),
        plain_agent(0, TransportMode::Car, JourneyType::CityCommute),
        plain_agent(1, TransportMode::Walk, JourneyType::CityCommute),
        plain_agent(2, TransportMode::Cycle, JourneyType::DistantCommute),
        plain_agent(2, TransportMode::PublicTransport, JourneyType::DistantCommute),
    ];
    let total = count_active_mode(&agents);
    let by_journey = count_active_mode_by_commute_length(&agents);
    assert_eq!(
        by_journey.local_commute + by_journey.city_commute + by_journey.distant_commute,
        total
    );
    assert_eq!(by_journey.local_commute, 2);
    assert_eq!(by_journey.city_commute, 1);
    assert_eq!(by_journey.distant_commute, 1);
    let population = Population {
        agents,
        neighbourhoods: vec![
            plain_neighbourhood("N1"),
            plain_neighbourhood("N2"),
            plain_neighbourhood("N3"),
        ],
        number_of_bikes: 0,
        number_of_cars: 0,
    };
    let by_neighbourhood = count_active_mode_by_neighbourhood(&population);
    assert_eq!(by_neighbourhood, vec![1, 2, 1]);
    assert_eq!(by_neighbourhood.iter().sum::<usize>(), total);
}

#[test]
fn simulation_new_runs_the_configuration_checks() {
    let good = Population {
        agents: vec![plain_agent(0, TransportMode::Car, JourneyType::LocalCommute)],
        neighbourhoods: vec![plain_neighbourhood("N1")],
        number_of_bikes: 1,
        number_of_cars: 1,
    };
    assert!(Simulation::new(good, Vec::new(), vec![Weather::Good; 3]).is_ok());
    // a weight outside the unit interval is rejected
    let mut broken_agent = plain_agent(0, TransportMode::Car, JourneyType::LocalCommute);
    broken_agent.consistency = 1000001;
    let broken = Population {
        agents: vec![broken_agent],
        neighbourhoods: vec![plain_neighbourhood("N1")],
        number_of_bikes: 1,
        number_of_cars: 1,
    };
    match Simulation::new(broken, Vec::new(), vec![Weather::Good; 3]) {
        Err(fault) => assert_eq!(fault, motivate::errors::ConfigError::MalformedPopulation),
        Ok(_) => panic!("a malformed population must be rejected"),
    }
    // an agent pointing outside the arena is rejected too
    let stray = Population {
        agents: vec![plain_agent(1, TransportMode::Car, JourneyType::LocalCommute)],
        neighbourhoods: vec![plain_neighbourhood("N1")],
        number_of_bikes: 1,
        number_of_cars: 1,
    };
    match Simulation::new(stray, Vec::new(), vec![Weather::Good; 3]) {
        Err(fault) => assert_eq!(fault, motivate::errors::ConfigError::MalformedPopulation),
        Ok(_) => panic!("a stray neighbourhood index must be rejected"),
    }
}

#[test]
fn run_produces_one_snapshot_per_day() {
    let population = Population {
        agents: (0..10)
            .map(|i| plain_agent(0, TransportMode::Walk, JourneyType::LocalCommute))
            .map(|mut agent| {
                agent.social_network = vec![0, 1];
                agent.neighbours = vec![2];
                agent
            })
            .collect(),
        neighbourhoods: vec![plain_neighbourhood("N1")],
        number_of_bikes: 10,
        number_of_cars: 10,
    };
    let scheduler = InterventionScheduler::new(Vec::new()).unwrap();
    let mut simulation = Simulation {
        population,
        scheduler,
        weather_pattern: vec![Weather::Good; 30],
        completed_days: 0,
    };
    let snapshots = simulation.run().unwrap();
    assert_eq!(snapshots.len(), 30);
    assert_eq!(snapshots[0].day, 1);
    assert_eq!(snapshots[29].day, 30);
    for snapshot in &snapshots {
        assert!(snapshot.active <= 10);
        assert_eq!(
            snapshot.active_by_journey.local_commute
                + snapshot.active_by_journey.city_commute
                + snapshot.active_by_journey.distant_commute,
            snapshot.active
        );
        assert_eq!(snapshot.active_by_neighbourhood.iter().sum::<usize>(), snapshot.active);
    }
}

#[test]
fn run_aborts_on_a_bad_intervention() {
    let population = Population {
        agents: vec![plain_agent(0, TransportMode::Car, JourneyType::LocalCommute)],
        neighbourhoods: vec![plain_neighbourhood("N1")],
        number_of_bikes: 0,
        number_of_cars: 0,
    };
    let mut change = NeighbourhoodChange {
        id: String::from("somewhere else"),
        increase_in_supportiveness: ModeDeltaTable::zero(),
        increase_in_capacity: ModeDeltaTable::zero(),
    };
    change.increase_in_supportiveness.walk = 1;
    let intervention = Intervention {
        day: 2,
        neighbourhood_changes: vec![change],
        change_in_number_of_bikes: 0,
        change_in_number_of_cars: 0,
    };
    let scheduler = InterventionScheduler::new(vec![intervention]).unwrap();
    let mut simulation = Simulation {
        population,
        scheduler,
        weather_pattern: vec![Weather::Good; 5],
        completed_days: 0,
    };
    match simulation.run() {
        Err(fault) => assert_eq!(fault, motivate::errors::ConfigError::UnknownNeighbourhood),
        Ok(_) => panic!("a run with a bad intervention must abort"),
    }
}

#[test]
fn end_to_end_intervention_lands_exactly_on_day_400() {
    // 100 agents, 3 years, one intervention on day 400 raising the
    // Cycle supportiveness of neighbourhood N1 by 0.3
    let agents: Vec<Agent> = (0..100)
        .map(|i| {
            let mode = if i % 2 == 0 { TransportMode::Car } else { TransportMode::Walk };
            let mut agent = plain_agent(0, mode, JourneyType::LocalCommute);
            agent.social_network = vec![(i + 1) % 100, (i + 7) % 100];
            agent.neighbours = vec![(i + 3) % 100];
            agent.social_connectivity = 300000;
            agent.neighbourhood_connectivity = 200000;
            agent.consistency = 400000;
            agent
        })
        .collect();
    let mut neighbourhood = plain_neighbourhood("N1");
    neighbourhood.supportiveness.cycle = 200000;
    let mut change = NeighbourhoodChange {
        id: String::from("N1"),
        increase_in_supportiveness: ModeDeltaTable::zero(),
        increase_in_capacity: ModeDeltaTable::zero(),
    };
    change.increase_in_supportiveness.cycle = 300000;
    let intervention = Intervention {
        day: 400,
        neighbourhood_changes: vec![change],
        change_in_number_of_bikes: 0,
        change_in_number_of_cars: 0,
    };
    let population = Population {
        agents,
        neighbourhoods: vec![neighbourhood],
        number_of_bikes: 50,
        number_of_cars: 50,
    };
    let scheduler = InterventionScheduler::new(vec![intervention]).unwrap();
    let mut simulation = Simulation {
        population,
        scheduler,
        weather_pattern: vec![Weather::Good; 3 * 365],
        completed_days: 0,
    };
    let before = simulation.population.neighbourhoods[0].supportiveness.cycle;
    assert_eq!(before, 200000);
    for _ in 0..399 {
        simulation.step().unwrap();
    }
    // unchanged on day 399
    assert_eq!(simulation.population.neighbourhoods[0].supportiveness.cycle, before);
    simulation.step().unwrap();
    // exactly the pre-intervention value plus 0.3 on day 400
    assert_eq!(
        simulation.population.neighbourhoods[0].supportiveness.cycle,
        before + 300000
    );
    // the rest of the run completes cleanly
    while simulation.completed_days < 3 * 365 {
        simulation.step().unwrap();
    }
    assert_eq!(simulation.population.neighbourhoods[0].supportiveness.cycle, before + 300000);
}
