use monte_carlo_risk::horizon::{PlanHorizon, YearPhase};

#[test]
fn default_horizon_is_accepted() {
    let horizon = PlanHorizon::default();
    assert!(horizon.validate().is_ok());
    assert_eq!(horizon.total_years(), 40);
}

#[test]
fn too_few_simulations_are_rejected() {
    let horizon = PlanHorizon { simulations: 99, accumulation_years: 4, retirement_years: 4 };
    let error = horizon.validate().expect_err("too few paths");
    assert_eq!(error, "simulations must be at least 100");
}

#[test]
fn simulation_count_is_checked_before_the_horizon() {
    let horizon = PlanHorizon { simulations: 0, accumulation_years: 0, retirement_years: 0 };
    let error = horizon.validate().expect_err("too few paths");
    assert!(error.contains("simulations"));
}

#[test]
fn empty_horizon_is_rejected() {
    let horizon = PlanHorizon { simulations: 100, accumulation_years: 0, retirement_years: 0 };
    let error = horizon.validate().expect_err("no years");
    assert_eq!(error, "total modeled years must be at least 1");
}

#[test]
fn one_year_horizon_is_accepted() {
    let saving = PlanHorizon { simulations: 100, accumulation_years: 1, retirement_years: 0 };
    let spending = PlanHorizon { simulations: 100, accumulation_years: 0, retirement_years: 1 };
    assert!(saving.validate().is_ok());
    assert!(spending.validate().is_ok());
}

#[test]
fn phases_follow_the_plan() {
    let horizon = PlanHorizon { simulations: 500, accumulation_years: 4, retirement_years: 4 };
    let phases: Vec<YearPhase> = (0..horizon.total_years()).map(|year| horizon.phase_of_year(year)).collect();
    assert_eq!(
        phases,
        vec![
            YearPhase::Accumulation,
            YearPhase::Accumulation,
            YearPhase::Accumulation,
            YearPhase::Accumulation,
            YearPhase::Retirement { retirement_year: 0 },
            YearPhase::Retirement { retirement_year: 1 },
            YearPhase::Retirement { retirement_year: 2 },
            YearPhase::Retirement { retirement_year: 3 },
        ]
    );
}

#[test]
fn retirement_from_the_first_year() {
    let horizon = PlanHorizon { simulations: 500, accumulation_years: 0, retirement_years: 3 };
    assert_eq!(horizon.phase_of_year(0), YearPhase::Retirement { retirement_year: 0 });
}
