//! Settings that are read once at start.

use vstd::prelude::*;

verus! {

/// Default name of the settings file.
pub const CONFIG_FILE: &'static str = "./nic.toml";

/// Where the sector catalog, the schedules and the event log are kept.
#[derive(Debug)]
pub struct Database {
    pub name: String,
}

impl Default for Database {
    fn default() -> (r: Self)
        ensures
            r.name@ == "nic.db"@,
    {
        Self { name: "nic.db".to_owned() }
    }
}

/// Where the web surface listens.
#[derive(Debug)]
pub struct WebServer {
    pub address: String,
}

impl Default for WebServer {
    fn default() -> (r: Self)
        ensures
            r.address@ == "0.0.0.0:8080"@,
    {
        Self { address: "0.0.0.0:8080".to_owned() }
    }
}

/// Where the message broker is reached, and under which name.
#[derive(Debug)]
pub struct MQTT {
    pub address: String,
    pub client_id: String,
}

impl Default for MQTT {
    fn default() -> (r: Self)
        ensures
            r.address@ == "localhost:1883"@,
            r.client_id@ == "nic"@,
    {
        Self { address: "localhost:1883".to_owned(), client_id: "nic".to_owned() }
    }
}

/// Settings of the watering core.
#[derive(Copy, Clone, Debug, PartialEq, Eq, Structural)]
pub struct Watering {
    /// Seconds left between two consecutive sectors of a plan.
    pub sector_transation_secs: i64,
    /// Longest session of a sector that has no limit of its own, in seconds.
    pub max_duration_secs: i64,
    /// Shortest session that is worth scheduling, in seconds.
    pub min_watering_secs: i64,
    /// Hour of the day at which the watering window opens.
    pub window_start_hour: i64,
    /// Hours for which the watering window stays open.
    pub window_duration_hours: i64,
}

impl Watering {
    /// Settings with which a machine can be built and run: the slack is not
    /// negative and the window is one that a day can hold.
    pub open spec fn wf(self) -> bool {
        &&& 0 <= self.sector_transation_secs
        &&& 0 <= self.window_start_hour <= 23
        &&& 1 <= self.window_duration_hours <= 24
    }

    /// Whether the settings can be used.
    pub fn is_valid(&self) -> (r: bool)
        ensures
            r == self.wf(),
    {
        0 <= self.sector_transation_secs && 0 <= self.window_start_hour && self.window_start_hour
            <= 23 && 1 <= self.window_duration_hours && self.window_duration_hours <= 24
    }
}

impl Default for Watering {
    fn default() -> (r: Self)
        ensures
            r == (Watering {
                sector_transation_secs: 20,
                max_duration_secs: 1800,
                min_watering_secs: 300,
                window_start_hour: 22,
                window_duration_hours: 8,
            }),
            r.wf(),
    {
        Self {
            sector_transation_secs: 20,
            max_duration_secs: 1800,
            min_watering_secs: 300,
            window_start_hour: 22,
            window_duration_hours: 8,
        }
    }
}

} // verus!
