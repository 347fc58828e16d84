use monte_carlo_risk::horizon::YearPhase;
use monte_carlo_risk::tally::{count_outcomes, PathTally};

#[test]
fn fresh_tally_is_clean() {
    let tally = PathTally::new();
    assert_eq!(tally.years, 0);
    assert_eq!(tally.crash_years, 0);
    assert_eq!(tally.shortfall_years, 0);
    assert!(!tally.failed());
}

#[test]
fn saving_years_count_crashes_but_never_fail() {
    let mut tally = PathTally::new();
    tally.record_year(YearPhase::Accumulation, true, true, true);
    tally.record_year(YearPhase::Accumulation, false, true, true);
    assert_eq!(tally.years, 2);
    assert_eq!(tally.crash_years, 1);
    assert_eq!(tally.shortfall_years, 0);
    assert!(!tally.depleted);
    assert!(!tally.floor_breached);
    assert!(!tally.failed());
}

#[test]
fn shortfall_in_retirement_depletes() {
    let mut tally = PathTally::new();
    tally.record_year(YearPhase::Retirement { retirement_year: 0 }, false, true, false);
    tally.record_year(YearPhase::Retirement { retirement_year: 1 }, false, true, false);
    assert_eq!(tally.shortfall_years, 2);
    assert!(tally.depleted);
    assert!(!tally.floor_breached);
    assert!(tally.failed());
}

#[test]
fn floor_breach_fails_and_stays_failed() {
    let mut tally = PathTally::new();
    tally.record_year(YearPhase::Retirement { retirement_year: 0 }, false, false, true);
    assert!(tally.floor_breached);
    assert!(!tally.depleted);
    assert!(tally.failed());
    tally.record_year(YearPhase::Retirement { retirement_year: 1 }, false, false, false);
    assert!(tally.failed());
}

fn tally(depleted: bool, floor_breached: bool) -> PathTally {
    PathTally {
        years: 8,
        crash_years: 1,
        shortfall_years: if depleted { 1 } else { 0 },
        depleted,
        floor_breached,
    }
}

#[test]
fn outcome_counts_of_a_run() {
    let paths = vec![tally(true, true), tally(true, false), tally(false, true), tally(false, false), tally(false, false)];
    let counts = count_outcomes(&paths);
    assert_eq!(counts.paths, 5);
    assert_eq!(counts.failed, 3);
    assert_eq!(counts.depleted, 2);
    assert_eq!(counts.floor_breached, 2);
}

#[test]
fn outcome_counts_of_no_paths() {
    let counts = count_outcomes(&vec![]);
    assert_eq!(counts.paths, 0);
    assert_eq!(counts.failed, 0);
}
