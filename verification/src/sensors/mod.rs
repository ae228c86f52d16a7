//! The interface to the valves.

pub mod interface;
