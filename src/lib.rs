//! Control core of a network-triggered button presser: the configuration
//! store for press duration and duty cycle, the parser for setting requests,
//! and the sequencer that turns each trigger into one timed actuation.

pub mod config;
pub mod query;
pub mod sequencer;
