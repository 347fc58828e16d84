use vstd::prelude::*;

verus! {

/// The shape of a simulation run: how many paths are drawn, and how many
/// years each path spends saving before it starts spending.
#[derive(Clone, Copy, Debug, PartialEq, Eq, Structural)]
pub struct PlanHorizon {
    pub simulations: usize,
    pub accumulation_years: usize,
    pub retirement_years: usize,
}

/// Where a modeled year falls in the plan.
#[derive(Clone, Copy, Debug, PartialEq, Eq, Structural)]
pub enum YearPhase {
    /// A saving year: the year's contribution is paid in.
    Accumulation,
    /// A spending year, numbered from 0 at the first year of retirement.
    Retirement { retirement_year: usize },
}

/// The fewest paths a run may draw.
pub const MIN_SIMULATIONS: usize = 100;

/// The phase of year `year` (counted from 0) in a plan that saves for
/// `accumulation_years` years.
pub open spec fn spec_phase(accumulation_years: nat, year: nat) -> YearPhase {
    if year >= accumulation_years {
        YearPhase::Retirement { retirement_year: (year - accumulation_years) as usize }
    } else {
        YearPhase::Accumulation
    }
}

impl PlanHorizon {
    /// Whether the shape is one a run accepts: enough paths and a horizon of
    /// at least one year.
    pub open spec fn spec_valid(self) -> bool {
        self.simulations >= MIN_SIMULATIONS && self.accumulation_years + self.retirement_years >= 1
    }

    /// Checks the run shape. The first failing check decides the message:
    /// too few paths before an empty horizon.
    pub fn validate(&self) -> (r: Result<(), String>)
        requires
            self.accumulation_years + self.retirement_years <= usize::MAX,
        ensures
            r is Ok <==> self.spec_valid(),
            self.simulations < MIN_SIMULATIONS ==> (r matches Err(e) && e@
                == "simulations must be at least 100"@),
            self.simulations >= MIN_SIMULATIONS && self.accumulation_years + self.retirement_years
                < 1 ==> (r matches Err(e) && e@ == "total modeled years must be at least 1"@),
    {
        if self.simulations < MIN_SIMULATIONS {
            return Err("simulations must be at least 100".to_owned());
        }
        if self.accumulation_years + self.retirement_years < 1 {
            return Err("total modeled years must be at least 1".to_owned());
        }
        Ok(())
    }

    /// The number of modeled years: saving years plus spending years.
    pub fn total_years(&self) -> (years: usize)
        requires
            self.accumulation_years + self.retirement_years <= usize::MAX,
        ensures
            years == self.accumulation_years + self.retirement_years,
    {
        self.accumulation_years + self.retirement_years
    }

    /// The phase of year `year`, counted from 0: saving years come first,
    /// then spending years, numbered from 0.
    pub fn phase_of_year(&self, year: usize) -> (phase: YearPhase)
        ensures
            phase == spec_phase(self.accumulation_years as nat, year as nat),
    {
        if year >= self.accumulation_years {
            YearPhase::Retirement { retirement_year: year - self.accumulation_years }
        } else {
            YearPhase::Accumulation
        }
    }
}

impl Default for PlanHorizon {
    /// The balanced plan: 25,000 paths, 15 saving years, then 25 spending years.
    fn default() -> (horizon: PlanHorizon)
        ensures
            horizon == (PlanHorizon {
                simulations: 25_000,
                accumulation_years: 15,
                retirement_years: 25,
            }),
    {
        PlanHorizon { simulations: 25_000, accumulation_years: 15, retirement_years: 25 }
    }
}

/// Over the modeled years, the first `accumulation_years` are saving years
/// and the rest are spending years, numbered 0, 1, ... up to
/// `retirement_years - 1` in order: every planned spending year is modeled
/// exactly once.
pub proof fn lemma_phases_cover_plan(horizon: PlanHorizon, year: nat)
    requires
        year < horizon.accumulation_years + horizon.retirement_years,
    ensures
        year < horizon.accumulation_years <==> spec_phase(
            horizon.accumulation_years as nat,
            year,
        ) is Accumulation,
        year >= horizon.accumulation_years ==> spec_phase(horizon.accumulation_years as nat, year)
            == (YearPhase::Retirement {
            retirement_year: (year - horizon.accumulation_years) as usize,
        }),
        year >= horizon.accumulation_years ==> year - horizon.accumulation_years
            < horizon.retirement_years,
{
}

} // verus!
