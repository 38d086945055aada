//! Hardware energy measurement engine.
//!
//! The library measures energy consumption of heterogeneous hardware
//! sources and aggregates paired start/end readings into comparable,
//! time-bounded sessions.  Energy is carried as whole microjoules, power
//! as microwatts and time as nanoseconds, so that every derived quantity
//! is computed exactly.

pub mod adapters;
pub mod clock;
pub mod errors;
pub mod instrument;
pub mod measurement;
pub mod monitor;
pub mod plugins;
pub mod rapl;
pub mod registry;
pub mod session;
