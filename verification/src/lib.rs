//! A verified core for an unattended algorithmic-trading engine.
//!
//! A fleet of independent bot instances, each bound to a (timeframe, symbol,
//! strategy) triple, periodically evaluates market data and opens or closes
//! leveraged positions against a simulated capital balance.  Every amount
//! (price, capital, fee, P&L, percentage) is a fixed-point integer so that the
//! numeric semantics of fees, leverage and trailing stops can be stated and
//! proved exactly.  The I/O shell around this library (market-data fetch,
//! persistence, the scheduling loops' sleeps) lives outside of it and hands
//! plain values in and out.

pub mod bot;
pub mod calculator;
pub mod entry_manager;
pub mod enums;
pub mod fixed;
pub mod models;
pub mod position_manager;
pub mod stats;
pub mod strategy;
pub mod ta;
pub mod tools;
