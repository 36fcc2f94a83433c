//! Telemetry and peer-health engine for a desktop accessibility bus monitor.
//!
//! The crate keeps the bookkeeping of a live bus dashboard: a directory of
//! validated bus peers, an online statistics engine for round-trip latencies,
//! the decision logic of the periodic health poller, and the event
//! classification scoreboard with its rolling windows. All durations are
//! carried as whole nanoseconds in unsigned integers.

pub mod bus;
pub mod citizen;
pub mod counter;
pub mod math;
pub mod monitor;
pub mod names;
pub mod poller;
pub mod render;
pub mod stats;
