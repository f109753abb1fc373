//! Telemetry alerts and chat commands for a bonded-cellular streaming unit.
//!
//! The library holds the decisions of the bot as verified state machines and
//! pure functions: the session and its retry policy, the reading of the unit's
//! status codes, the change detection over network interfaces and battery
//! samples, the confirmation of start and stop actions, and the routing of
//! chat commands behind a shared cooldown.

pub mod config;
pub mod dispatch;
pub mod error;
pub mod liveu;
pub mod liveu_monitor;
pub mod nginx;
pub mod text;
pub mod twitch;
