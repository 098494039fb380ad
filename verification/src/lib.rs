//! Live-telemetry engine for a real-time combat analytics tool.
//!
//! The crate ingests decoded network-protocol messages (entity state deltas,
//! buff changes, skill cooldowns, scene transitions) and maintains a
//! continuously updated aggregate view of the current encounter: per-player
//! damage/healing/tanking totals, boss health bookkeeping, active buffs and
//! recalculated skill cooldowns. Every state transition is a plain function
//! from decoded values to new state plus a list of emission actions, so the
//! surrounding process can do the locking and I/O while this crate holds the
//! verified rules.

pub mod buff_names;
pub mod buffs;
pub mod cooldown;
pub mod encounter;
pub mod engine;
pub mod kvlist;
pub mod models;
pub mod optimizer;
pub mod scene;
pub mod varint;
