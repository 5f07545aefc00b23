//! The backtesting engine: replay, matching and daily accounting.

pub mod base;
pub mod daily;
pub mod engine;
pub mod matching;
pub mod orders;
pub mod replay;
pub mod result;
pub mod setup;

pub use base::BacktestingMode;
pub use daily::DailyResult;
pub use engine::BacktestingEngine;
