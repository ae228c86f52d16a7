//! The watering core: data, window, planners and the state machine.

pub mod ds;
pub mod machine_laws;
pub mod modes;
pub mod plan_laws;
pub mod schedule;
pub mod state_machine;
pub mod water_window;
pub mod watering_alg;
pub mod watering_system;

use vstd::prelude::*;

verus! {

/// Water depths are whole numbers of depth units. One unit is 1/3600 of a
/// micrometre: the depth that a sprinkler rated at one micrometre per hour
/// delivers in one second. Rates are whole micrometres per hour, so a sector
/// gains exactly its rate in units for every second it is watered.
pub const UNITS_PER_MICROMETRE: i64 = 3_600;

/// Depth units in one millimetre.
pub const UNITS_PER_MM: i64 = 3_600_000;

/// Depth units in one centimetre.
pub const UNITS_PER_CM: i64 = 36_000_000;

/// Rate units (micrometres per hour) in one centimetre per hour.
pub const RATE_PER_CM_HOUR: i64 = 10_000;

/// Rate units (micrometres per hour) in one millimetre per hour.
pub const RATE_PER_MM_HOUR: i64 = 1_000;

/// Depth units that a percolation rate of one micrometre per hour removes in
/// a day.
pub const DAILY_PERCOLATION_FACTOR: i64 = 86_400;

/// Depth taken off every sector's progress on the first day of a week:
/// 2.5 cm.
pub const WEEKLY_RESET_DEPTH: i64 = 90_000_000;

} // verus!
