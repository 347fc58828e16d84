use vstd::prelude::*;
use crate::horizon::YearPhase;

verus! {

/// The year-by-year record of one simulated path: how many years were
/// modeled, how many of them had a market crash, how many spending years
/// could not be funded in full, and whether the path ran dry or fell
/// below the real wealth floor after retirement began.
#[derive(Clone, Copy, Debug, PartialEq, Eq, Structural)]
pub struct PathTally {
    pub years: usize,
    pub crash_years: usize,
    pub shortfall_years: usize,
    pub depleted: bool,
    pub floor_breached: bool,
}

/// How many paths of a run failed, ran dry, or fell below the floor.
#[derive(Clone, Copy, Debug, PartialEq, Eq, Structural)]
pub struct OutcomeCounts {
    pub paths: usize,
    pub failed: usize,
    pub depleted: usize,
    pub floor_breached: usize,
}

impl PathTally {
    /// A tally that a path can reach: no counter exceeds the years modeled,
    /// and a path has run dry exactly when some spending year fell short.
    pub open spec fn wf(self) -> bool {
        &&& self.crash_years <= self.years
        &&& self.shortfall_years <= self.years
        &&& self.depleted == (self.shortfall_years > 0)
    }

    /// A path fails when it ran short of spending or fell below the floor.
    pub open spec fn spec_failed(self) -> bool {
        self.depleted || self.floor_breached
    }

    /// The tally after one more modeled year. Shortfalls and floor breaches
    /// only count in spending years.
    pub open spec fn spec_record_year(
        self,
        phase: YearPhase,
        crash_event: bool,
        shortfall: bool,
        below_floor: bool,
    ) -> PathTally {
        let retired = phase is Retirement;
        PathTally {
            years: (self.years + 1) as usize,
            crash_years: if crash_event {
                (self.crash_years + 1) as usize
            } else {
                self.crash_years
            },
            shortfall_years: if retired && shortfall {
                (self.shortfall_years + 1) as usize
            } else {
                self.shortfall_years
            },
            depleted: self.depleted || (retired && shortfall),
            floor_breached: self.floor_breached || (retired && below_floor),
        }
    }

    /// The tally of a path before its first year.
    pub fn new() -> (tally: PathTally)
        ensures
            tally == (PathTally {
                years: 0,
                crash_years: 0,
                shortfall_years: 0,
                depleted: false,
                floor_breached: false,
            }),
            tally.wf(),
    {
        PathTally { years: 0, crash_years: 0, shortfall_years: 0, depleted: false, floor_breached: false }
    }

    /// Records one modeled year: whether a crash hit the markets, and, in a
    /// spending year, whether the spending could not be funded in full and
    /// whether real wealth ended below the floor.
    pub fn record_year(&mut self, phase: YearPhase, crash_event: bool, shortfall: bool, below_floor: bool)
        requires
            old(self).wf(),
            old(self).years < usize::MAX,
        ensures
            *final(self) == old(self).spec_record_year(phase, crash_event, shortfall, below_floor),
            final(self).wf(),
            final(self).years == old(self).years + 1,
            crash_event ==> final(self).crash_years == old(self).crash_years + 1,
            !crash_event ==> final(self).crash_years == old(self).crash_years,
            (phase is Retirement && shortfall) ==> final(self).shortfall_years
                == old(self).shortfall_years + 1 && final(self).depleted,
            !(phase is Retirement && shortfall) ==> final(self).shortfall_years
                == old(self).shortfall_years && final(self).depleted == old(self).depleted,
            (phase is Retirement && below_floor) ==> final(self).floor_breached,
            !(phase is Retirement && below_floor) ==> final(self).floor_breached
                == old(self).floor_breached,
    {
        let retired = match phase {
            YearPhase::Retirement { .. } => true,
            YearPhase::Accumulation => false,
        };
        if retired && shortfall {
            self.shortfall_years = self.shortfall_years + 1;
            self.depleted = true;
        }
        if crash_event {
            self.crash_years = self.crash_years + 1;
        }
        if retired && below_floor {
            self.floor_breached = true;
        }
        self.years = self.years + 1;
    }

    /// Whether the path failed: it ran short of spending or fell below the
    /// real wealth floor after retirement began.
    pub fn failed(&self) -> (failed: bool)
        ensures
            failed == self.spec_failed(),
    {
        self.depleted || self.floor_breached
    }
}

/// What one modeled year does to a tally: the year is counted; a crash
/// year is counted whatever the phase; in a spending year that could not be
/// funded the shortfall is counted and the path has run dry, whether or not
/// it also fell below the floor or saw a crash; a spending year that ends
/// below the floor marks the breach; nothing else changes.
pub proof fn lemma_record_year_effects(
    tally: PathTally,
    phase: YearPhase,
    crash_event: bool,
    shortfall: bool,
    below_floor: bool,
)
    requires
        tally.wf(),
        tally.years < usize::MAX,
    ensures
        tally.spec_record_year(phase, crash_event, shortfall, below_floor).years == tally.years + 1,
        crash_event ==> tally.spec_record_year(phase, crash_event, shortfall, below_floor).crash_years
            == tally.crash_years + 1,
        !crash_event ==> tally.spec_record_year(phase, crash_event, shortfall, below_floor).crash_years
            == tally.crash_years,
        (phase is Retirement && shortfall) ==> tally.spec_record_year(
            phase,
            crash_event,
            shortfall,
            below_floor,
        ).shortfall_years == tally.shortfall_years + 1,
        (phase is Retirement && shortfall) ==> tally.spec_record_year(
            phase,
            crash_event,
            shortfall,
            below_floor,
        ).depleted,
        !(phase is Retirement && shortfall) ==> tally.spec_record_year(
            phase,
            crash_event,
            shortfall,
            below_floor,
        ).shortfall_years == tally.shortfall_years,
        !(phase is Retirement && shortfall) ==> tally.spec_record_year(
            phase,
            crash_event,
            shortfall,
            below_floor,
        ).depleted == tally.depleted,
        (phase is Retirement && below_floor) ==> tally.spec_record_year(
            phase,
            crash_event,
            shortfall,
            below_floor,
        ).floor_breached,
        !(phase is Retirement && below_floor) ==> tally.spec_record_year(
            phase,
            crash_event,
            shortfall,
            below_floor,
        ).floor_breached == tally.floor_breached,
{
}

/// A failed path stays failed, whatever later years bring.
pub proof fn lemma_failure_is_permanent(
    tally: PathTally,
    phase: YearPhase,
    crash_event: bool,
    shortfall: bool,
    below_floor: bool,
)
    requires
        tally.spec_failed(),
    ensures
        tally.spec_record_year(phase, crash_event, shortfall, below_floor).spec_failed(),
{
}

/// Saving years never fail a path: only spending years can.
pub proof fn lemma_saving_years_never_fail(
    tally: PathTally,
    crash_event: bool,
    shortfall: bool,
    below_floor: bool,
)
    ensures
        tally.spec_record_year(YearPhase::Accumulation, crash_event, shortfall, below_floor).spec_failed()
            == tally.spec_failed(),
{
}

/// Number of failed paths among `paths`.
pub open spec fn count_failed(paths: Seq<PathTally>) -> nat
    decreases paths.len(),
{
    if paths.len() == 0 {
        0
    } else {
        count_failed(paths.drop_last()) + if paths.last().spec_failed() {
            1nat
        } else {
            0nat
        }
    }
}

/// Number of paths among `paths` that ran dry.
pub open spec fn count_depleted(paths: Seq<PathTally>) -> nat
    decreases paths.len(),
{
    if paths.len() == 0 {
        0
    } else {
        count_depleted(paths.drop_last()) + if paths.last().depleted {
            1nat
        } else {
            0nat
        }
    }
}

/// Number of paths among `paths` that fell below the floor.
pub open spec fn count_floor_breached(paths: Seq<PathTally>) -> nat
    decreases paths.len(),
{
    if paths.len() == 0 {
        0
    } else {
        count_floor_breached(paths.drop_last()) + if paths.last().floor_breached {
            1nat
        } else {
            0nat
        }
    }
}

/// The counts are bounded by the number of paths, and failure counts lie
/// between the larger of the two causes and their sum; so each rate that a
/// report derives from them lies between 0 and 1, and the failure rate is
/// at least either cause's rate.
pub proof fn lemma_outcome_counts_bounded(paths: Seq<PathTally>)
    ensures
        count_failed(paths) <= paths.len(),
        count_depleted(paths) <= count_failed(paths),
        count_floor_breached(paths) <= count_failed(paths),
        count_failed(paths) <= count_depleted(paths) + count_floor_breached(paths),
    decreases paths.len(),
{
    if paths.len() > 0 {
        lemma_outcome_counts_bounded(paths.drop_last());
    }
}

/// Each count is the number of paths that satisfy its condition: the
/// length of the run filtered by that condition.
pub proof fn lemma_counts_are_filter_lengths(paths: Seq<PathTally>)
    ensures
        count_failed(paths) == paths.filter(|p: PathTally| p.depleted || p.floor_breached).len(),
        count_depleted(paths) == paths.filter(|p: PathTally| p.depleted).len(),
        count_floor_breached(paths) == paths.filter(|p: PathTally| p.floor_breached).len(),
    decreases paths.len(),
{
    reveal(Seq::filter);
    if paths.len() > 0 {
        lemma_counts_are_filter_lengths(paths.drop_last());
    }
}

/// No paths, no counts; appending one path to a run raises each count by
/// one exactly when that path meets the count's condition.
pub proof fn lemma_counts_append(paths: Seq<PathTally>, path: PathTally)
    ensures
        count_failed(Seq::<PathTally>::empty()) == 0,
        count_depleted(Seq::<PathTally>::empty()) == 0,
        count_floor_breached(Seq::<PathTally>::empty()) == 0,
        count_failed(paths.push(path)) == count_failed(paths) + if path.depleted
            || path.floor_breached {
            1nat
        } else {
            0nat
        },
        count_depleted(paths.push(path)) == count_depleted(paths) + if path.depleted {
            1nat
        } else {
            0nat
        },
        count_floor_breached(paths.push(path)) == count_floor_breached(paths) + if path.floor_breached {
            1nat
        } else {
            0nat
        },
{
    assert(paths.push(path).drop_last() =~= paths);
}

/// Counts the failed, depleted and floor-breaching paths of a run.
pub fn count_outcomes(paths: &Vec<PathTally>) -> (counts: OutcomeCounts)
    ensures
        counts.paths == paths.len(),
        counts.failed == count_failed(paths@),
        counts.depleted == count_depleted(paths@),
        counts.floor_breached == count_floor_breached(paths@),
        counts.failed == paths@.filter(|p: PathTally| p.depleted || p.floor_breached).len(),
        counts.depleted == paths@.filter(|p: PathTally| p.depleted).len(),
        counts.floor_breached == paths@.filter(|p: PathTally| p.floor_breached).len(),
{
    let mut failed: usize = 0;
    let mut depleted: usize = 0;
    let mut floor_breached: usize = 0;
    let mut i: usize = 0;
    while i < paths.len()
        invariant
            i <= paths.len(),
            failed == count_failed(paths@.take(i as int)),
            depleted == count_depleted(paths@.take(i as int)),
            floor_breached == count_floor_breached(paths@.take(i as int)),
        decreases paths.len() - i,
    {
        proof {
            lemma_outcome_counts_bounded(paths@.take(i as int));
            assert(paths@.take(i + 1).drop_last() =~= paths@.take(i as int));
        }
        let path = &paths[i];
        if path.failed() {
            failed = failed + 1;
        }
        if path.depleted {
            depleted = depleted + 1;
        }
        if path.floor_breached {
            floor_breached = floor_breached + 1;
        }
        i = i + 1;
    }
    assert(paths@.take(paths.len() as int) =~= paths@);
    proof {
        lemma_counts_are_filter_lengths(paths@);
    }
    OutcomeCounts { paths: paths.len(), failed, depleted, floor_breached }
}

} // verus!
