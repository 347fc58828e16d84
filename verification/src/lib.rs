//! Verified core of a Monte Carlo portfolio risk simulator: the integer
//! bookkeeping, scheduling and report-layout decisions around the
//! floating-point market model.

pub mod seed;
pub mod layout;
pub mod histogram;
pub mod horizon;
pub mod tally;
pub mod regime;
