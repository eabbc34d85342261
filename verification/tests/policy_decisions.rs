//! Policy labels, crossing detection and the report's year selection.

use ruvector_layoff_trap::simulation::{record_crossing, report_shows_year, PolicyKind};

#[test]
fn policy_labels() {
    assert_eq!(PolicyKind::Laissez.label(), "laissez");
    assert_eq!(PolicyKind::Retraining.label(), "retraining");
    assert_eq!(PolicyKind::ProofGate.label(), "proof-gate");
}

#[test]
fn crossing_is_the_first_year_below() {
    let below = [false, false, true, false, true];
    let mut crossing = None;
    for (i, &b) in below.iter().enumerate() {
        crossing = record_crossing(crossing, i + 1, b);
    }
    assert_eq!(crossing, Some(3));
}

#[test]
fn no_crossing_when_never_below() {
    let mut crossing = None;
    for year in 1..=20 {
        crossing = record_crossing(crossing, year, false);
    }
    assert_eq!(crossing, None);
}

#[test]
fn a_known_crossing_is_kept() {
    assert_eq!(record_crossing(Some(4), 9, true), Some(4));
    assert_eq!(record_crossing(Some(4), 9, false), Some(4));
    assert_eq!(record_crossing(None, 9, true), Some(9));
}

#[test]
fn report_shows_even_years_and_the_last() {
    assert!(report_shows_year(0, 20));
    assert!(!report_shows_year(1, 20));
    assert!(report_shows_year(20, 20));
    assert!(!report_shows_year(19, 20));
    assert!(report_shows_year(25, 25));
}
