//! Decisions and data shaping for recording live two-sided betting rounds:
//! the phase values of the remote source, the per-round state machine, the
//! per-side wager totals and the sequence of store writes for a resolved round.
pub mod decimal;
pub mod snapshot;
pub mod totals;
pub mod round;
pub mod record;
pub mod store;
