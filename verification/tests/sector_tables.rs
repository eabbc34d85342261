//! The sector calibration tables.

use ruvector_layoff_trap::sectors::{
    share_total, total_near_unity, AUTOMATION_EXPOSURE_PERCENT, CONSUMPTION_SHARE_PER_MILLE,
    EMPLOYMENT_SHARE_PER_MILLE, FIXED_COST_FLOOR_PERCENT, N_SECTORS, SUPERSECTORS,
};

#[test]
fn share_totals_are_exact() {
    assert_eq!(share_total(&EMPLOYMENT_SHARE_PER_MILLE), 1039);
    assert_eq!(share_total(&CONSUMPTION_SHARE_PER_MILLE), 1000);
}

#[test]
fn tolerance_is_strict_five_percent() {
    assert!(total_near_unity(1000));
    assert!(total_near_unity(951));
    assert!(total_near_unity(1049));
    assert!(!total_near_unity(950));
    assert!(!total_near_unity(1050));
    assert!(!total_near_unity(0));
}

#[test]
fn share_total_of_other_tables() {
    assert_eq!(share_total(&AUTOMATION_EXPOSURE_PERCENT), 785);
    assert_eq!(share_total(&FIXED_COST_FLOOR_PERCENT), 1244);
}

#[test]
fn tables_cover_every_supersector() {
    assert_eq!(SUPERSECTORS.len(), N_SECTORS);
    assert_eq!(SUPERSECTORS[0], "Mining & Logging");
    assert_eq!(SUPERSECTORS[14], "Government");
}
