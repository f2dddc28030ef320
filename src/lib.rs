//! Moving-average crossover signals over price candles, a book of open lots
//! with stop-loss and take-profit exits, and a single-position backtest.
//! Prices and sizes are fixed-point integers with eight decimal places.
use vstd::prelude::*;

pub mod moving_average;
pub mod price;
pub mod signal;
pub mod crossover;
pub mod position_book;
pub mod engine;
pub mod backtest;

verus! {

} // verus!
