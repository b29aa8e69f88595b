//! A rate-limiting adapter between a producer and a consumer of values: at
//! most one value per window is forwarded, and it is always the latest one.
//!
//! The library holds the worker's decisions as a verified state machine; a
//! driver performs the waits, receives and sends that each action asks for.

pub mod laws;
pub mod limiter;

pub use limiter::{Action, Event, Phase, RateLimiter};
