//! A backtesting engine for a simple equities trading client.
//!
//! The library owns the time-indexed price store ([`database::DataBase`]),
//! the trading-calendar date search, the momentum ranking signal
//! ([`strategy::algorithm`]), the account ledger ([`strategy::Account`]) and
//! the day-by-day runner ([`time_runner::TimeRunner`]) that turns signals into
//! simulated positions and a final valuation.  Broker commands are plain
//! tagged records ([`command`]); building and dispatching HTTP requests from
//! them, and reading bar files from disk, are left to the surrounding
//! program, which hands this library plain values.

use vstd::prelude::*;

pub mod command;
pub mod database;
pub mod parse;
pub mod strategy;
pub mod time_runner;

verus! {

/// A fatal outcome of a backtest: the run cannot continue past it.
///
/// Insufficient history for the momentum signal and days without a ranking
/// candidate are *not* errors; they are ordinary "no signal today" outcomes.
#[derive(Debug, Clone)]
pub enum BacktestError {
    /// A symbol that the run needs has no backing data in the store.
    DataUnavailable { stock: String },
    /// A row of a symbol's raw data could not be validated; `row` is the
    /// position of the offending row in that symbol's input.
    MalformedRecord { stock: String, row: usize },
    /// The momentum denominator (the close price at the horizon) was zero.
    DivisionByZero,
    /// Ledger or valuation arithmetic left the representable range.
    Overflow,
}

} // verus!
