//! A mean-reversion trading decision engine with machine-checked contracts.
//!
//! Prices are sampled one at a time, kept in a bounded rolling window and
//! compared with the window's moving average. A two-state position machine
//! turns each comparison into a `Buy`, `Sell` or `Hold` signal, every executed
//! signal is appended to a trade ledger, and the ledger is finally folded into
//! realized buy/sell pairs with their profit.
//!
//! All quantities are exact: a price is a fixed-point decimal, a moving
//! average is a fraction, and every comparison is carried out on integers.

pub mod config;
pub mod decimal;
pub mod engine;
pub mod ledger;
pub mod performance;
pub mod position;
pub mod price;
pub mod window;
