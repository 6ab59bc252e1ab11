//! A live quiz session engine: connection registry, session state machine,
//! scoring, leaderboards, reconnection and input validation, each stated and
//! proved with Verus. Transport, persistence and clocks stay with the caller,
//! which hands the engine plain values.

pub mod model;
pub mod text;
pub mod validation;
pub mod scoring;
pub mod session;
pub mod stats;
pub mod registry;
pub mod engine;
pub mod protocol;
