//! A single-instrument, event-driven backtesting engine.
//!
//! Market records are replayed in order against a matching engine that keeps
//! a book of limit orders and a book of local stop orders; the resulting
//! trades are turned into a mark-to-market result per calendar day.
//!
//! Every price, volume and amount is a fixed-point number: an integer count
//! of `1 / UNIT`. Every timestamp is a count of milliseconds of local
//! wall-clock time since 1970-01-01T00:00:00.
//!
//! The engine calls nothing: what a strategy is to hear comes back from each
//! operation as a list of events, and a run is driven step by step by its
//! caller, who hands the events on and feeds the strategy's orders back.

pub mod backtesting;
pub mod clock;
pub mod counting;
pub mod error;
pub mod gui;
pub mod ident;
pub mod numeric;
pub mod text;
pub mod trader;
