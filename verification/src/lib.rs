//! Verified core of `potato-hue`, a service that pulses a Philips Hue light
//! whenever Pot Potato is snatched.

pub mod bridge;
pub mod command;
pub mod config;
pub mod error;
pub mod holder;
pub mod json;
pub mod light;
pub mod listing;
pub mod potato;
pub mod pulse;
pub mod text;
pub mod units;
pub mod watch;
