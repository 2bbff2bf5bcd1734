//! Timed replay of recorded event messages: a length-delimited frame codec,
//! a scenario builder that turns a log of JSON lines into delayed events,
//! and the decision logic of a two-party send/receive replay engine.

pub mod codec;
pub mod event_time;
pub mod scenario;
pub mod engine;
