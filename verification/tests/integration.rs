//! End-to-end tests of the exact parts of the model; no network.

use ruvector_layoff_trap::data::{parse_fred_csv, Observation};
use ruvector_layoff_trap::sectors;

/// The number an observation stands for, NaN where it is missing or not a
/// number.
fn value_of(o: &Observation) -> f64 {
    match o {
        Observation::Missing => f64::NAN,
        Observation::Reported(text) => text.parse::<f64>().unwrap_or(f64::NAN),
    }
}

#[test]
fn sector_invariants_hold() {
    sectors::check_invariants();
}

#[test]
fn parse_real_fred_payems_snippet() {
    // First ~5 real rows of FRED PAYEMS (publicly available).
    let body = "observation_date,PAYEMS\n\
                1939-01-01,29923\n\
                1939-02-01,30100\n\
                1939-03-01,30280\n\
                1939-04-01,30094\n";
    let s = parse_fred_csv("PAYEMS", body).unwrap();
    assert_eq!(s.samples.len(), 4);
    assert_eq!(s.latest_value().map(value_of), Some(30094.0));
}
