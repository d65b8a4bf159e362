//! Tests of the weather process and of the social network generator.

use motivate::errors::ConfigError;
use motivate::social_network::generate_social_network;
use motivate::weather::{
    make_weather_pattern_from_draws, make_weather_pattern_nonpy, TransitionMatrix, Weather,
};
use motivate::SCALE;

#[test]
fn transition_matrix_accepts_rows_summing_to_one() {
    let matrix = TransitionMatrix::new(886000, 114000, 699000, 301000).unwrap();
    assert_eq!(matrix.good_to_good, 886000);
    assert_eq!(matrix.bad_to_bad, 301000);
}

#[test]
fn transition_matrix_rejects_degenerate_rows() {
    assert_eq!(
        TransitionMatrix::new(886000, 115000, 699000, 301000),
        Err(ConfigError::DegenerateTransitionRow)
    );
    assert_eq!(
        TransitionMatrix::new(SCALE, 0, 1, 1),
        Err(ConfigError::DegenerateTransitionRow)
    );
}

#[test]
fn weather_pattern_follows_the_draws() {
    let matrix = TransitionMatrix::new(800000, 200000, 300000, 700000).unwrap();
    // day 0: 400000 < 500000 so Bad; day 1: from Bad, 900000 >= 300000
    // so Bad; day 2: from Bad, 100000 < 300000 so Good
    let draws = vec![400000u64, 900000, 100000];
    let pattern = make_weather_pattern_from_draws(&matrix, 500000, &draws);
    assert_eq!(pattern, vec![Weather::Bad, Weather::Bad, Weather::Good]);
}

#[test]
fn deterministic_matrix_gives_all_good_weather() {
    // P(Good|Good) = 1, P(Bad|Bad) = 1, no chance of rain on day 0:
    // the sequence is Good on every day
    let matrix = TransitionMatrix::new(SCALE, 0, 0, SCALE).unwrap();
    let pattern = make_weather_pattern_nonpy(&matrix, 0, 365);
    assert_eq!(pattern.len(), 365);
    assert!(pattern.iter().all(|w| *w == Weather::Good));
}

#[test]
fn weather_pattern_has_one_value_per_day() {
    let matrix = TransitionMatrix::new(886000, 114000, 699000, 301000).unwrap();
    let pattern = make_weather_pattern_nonpy(&matrix, 140000, 100);
    assert_eq!(pattern.len(), 100);
}

#[test]
fn generated_network_meets_degree_and_shape_guarantees() {
    let adjacency = generate_social_network(3, 20).unwrap();
    assert_eq!(adjacency.len(), 20);
    for (v, links) in adjacency.iter().enumerate() {
        // minimum degree
        assert!(links.len() >= 3, "vertex {} has {} links", v, links.len());
        for (j, &w) in links.iter().enumerate() {
            // no self-loops, valid vertices
            assert!((w as usize) < 20);
            assert_ne!(w as usize, v);
            // no duplicate edges
            for &w2 in &links[j + 1..] {
                assert_ne!(w, w2);
            }
            // symmetry
            assert!(adjacency[w as usize].contains(&(v as u32)));
        }
    }
}

#[test]
fn generated_network_rejects_impossible_minimum_degree() {
    assert!(matches!(
        generate_social_network(5, 3),
        Err(ConfigError::TooFewPeopleForLinks)
    ));
    assert!(matches!(
        generate_social_network(3, 3),
        Err(ConfigError::TooFewPeopleForLinks)
    ));
}

#[test]
fn generated_network_handles_tiny_populations() {
    let empty = generate_social_network(4, 0).unwrap();
    assert!(empty.is_empty());
    let pair = generate_social_network(1, 2).unwrap();
    assert_eq!(pair.len(), 2);
    assert_eq!(pair[0], vec![1]);
    assert_eq!(pair[1], vec![0]);
}
