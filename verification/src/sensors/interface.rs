//! Commands to the valve controller.

use vstd::prelude::*;

verus! {

/// A command to the valve controller.
#[derive(Clone, Copy, Debug, PartialEq, Eq, Structural)]
pub enum ControlMessage {
    /// Open the valve of the sector.
    Activate(u32),
    /// Close the valve of the sector.
    Deactivate(u32),
}

/// The valve that is open once `commands` have been carried out in order,
/// starting with `valve` open (or none).
pub open spec fn valve_after(valve: Option<u32>, commands: Seq<ControlMessage>) -> Option<u32>
    decreases commands.len(),
{
    if commands.len() == 0 {
        valve
    } else {
        match commands.last() {
            ControlMessage::Activate(id) => Some(id),
            ControlMessage::Deactivate(_) => None,
        }
    }
}

/// Whether `commands`, carried out in order with `valve` open at first (or
/// none), never open a valve while one is open, and close only the valve that
/// is open.
pub open spec fn one_valve_at_a_time(valve: Option<u32>, commands: Seq<ControlMessage>) -> bool
    decreases commands.len(),
{
    if commands.len() == 0 {
        true
    } else {
        let before = commands.drop_last();
        &&& one_valve_at_a_time(valve, before)
        &&& match commands.last() {
            ControlMessage::Activate(_) => valve_after(valve, before) is None,
            ControlMessage::Deactivate(id) => valve_after(valve, before) == Some(id),
        }
    }
}

} // verus!
