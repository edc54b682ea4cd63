//! # alphavantage
//!
//! Interprets the JSON responses of the Alpha Vantage quote API (intraday, daily,
//! weekly and monthly price series, currency exchange rates, ticker searches) as
//! typed, internally consistent records.
//!
//! Every parser is an executable function whose result is pinned down by a
//! specification over the decoded document; the laws that relate them are stated
//! and proved beside them.
pub mod api;
pub mod datetime;
pub mod error;
pub mod exchange_rate;
pub mod json;
pub mod numeric;
pub mod tickers;
pub mod time_series;

pub use crate::error::Error;
