//! Value types shared by every part of the trading platform.

pub mod constant;
pub mod object;
pub mod setting;
pub mod utility;
