//! Connection-oriented message relay: a registry of live peer connections,
//! destination resolution, per-line routing decisions, liveness sweeping,
//! and a bounded best-effort telemetry queue.

pub mod addr;
pub mod config;
pub mod debug_mode;
pub mod framing;
pub mod jsonio;
pub mod lookup;
pub mod message;
pub mod registry;
pub mod session;
pub mod sweeper;
pub mod telemetry;
