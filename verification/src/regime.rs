use vstd::prelude::*;

verus! {

/// The market regime that a simulated year is drawn in; each regime shifts
/// expected returns, volatilities and inflation in its own way.
#[derive(Clone, Copy, Debug, PartialEq, Eq, Structural)]
pub enum MarketRegime {
    Expansion,
    Steady,
    Slowdown,
    Stagflation,
    Recovery,
}

} // verus!
