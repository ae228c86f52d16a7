//! Decision core of a closed-loop irrigation controller.
//!
//! The crate holds the watering window, the sector catalog, the daily planners
//! and the tick-driven state machine. Everything here is pure: valve commands
//! and log records are returned as values for the caller to carry out.

pub mod api;
pub mod config;
pub mod db;
pub mod sensors;
pub mod text;
pub mod time;
pub mod utils;
pub mod watering;

use vstd::prelude::*;

verus! {

/// Capacity of the control-signal bus.
pub const MAX_MSGS: usize = 100;

} // verus!
