//! A periodic host telemetry collector.
//!
//! At a fixed cadence the collector draws a snapshot of CPU, memory and
//! temperature readings, assembles it into a flat table of named values and
//! hands the table to a transport. This crate holds the rules of that cycle:
//!
//! - [`config`]: the options and the clamped interval;
//! - [`sampler`]: drawing a snapshot from the host;
//! - [`snapshot`]: a cycle's readings and the table that is built from them;
//! - [`table`]: the table itself;
//! - [`collector`]: the connect-then-run state machine and its drift-free
//!   schedule.
//!
//! The transport session, the timer and the log are the caller's business.

pub mod collector;
pub mod config;
pub mod sampler;
pub mod snapshot;
pub mod table;
