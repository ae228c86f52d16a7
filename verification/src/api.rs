//! The answers to status queries.

use vstd::prelude::*;

verus! {

/// Answer to a query for the machine's state.
#[derive(Debug, Clone)]
pub struct WateringStateResponse {
    pub error: Option<String>,
    pub mode: Option<String>,
    pub state: Option<String>,
    pub current_cycle: Option<String>,
}

impl WateringStateResponse {
    /// The answer given when the query failed.
    pub fn new_error() -> (r: Self)
        ensures
            r.error matches Some(e) && e@ == "Error"@,
            r.mode is None,
            r.state is None,
            r.current_cycle is None,
    {
        Self { error: Some("Error".to_owned()), mode: None, state: None, current_cycle: None }
    }
}

/// Answer to a query for the cycle in execution.
#[derive(Debug, Clone)]
pub struct CycleResponse {
    pub error: Option<String>,
    /// Start of the cycle's first element.
    pub id: Option<i64>,
    /// For each element of the cycle: the sector and a label of its duration.
    pub instructions: Option<Vec<(u32, String)>>,
}

impl CycleResponse {
    /// The answer given when the query failed.
    pub fn new_error() -> (r: Self)
        ensures
            r.error matches Some(e) && e@ == "Error"@,
            r.id is None,
            r.instructions is None,
    {
        Self { error: Some("Error".to_owned()), id: None, instructions: None }
    }
}

} // verus!
