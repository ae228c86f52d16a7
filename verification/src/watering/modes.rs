//! The three operating modes and what each carries.

use super::ds::DailyPlan;
use vstd::prelude::*;

verus! {

/// Operating mode of the controller.
#[derive(Clone, Copy, Debug, PartialEq, Eq, Structural)]
pub enum Mode {
    Auto,
    Manual,
    Wizard,
}

/// The name of a mode, as it is written in requests and in the log.
pub open spec fn mode_name(mode: Mode) -> Seq<char> {
    match mode {
        Mode::Auto => "auto"@,
        Mode::Manual => "manual"@,
        Mode::Wizard => "wizard"@,
    }
}

/// The mode that a name stands for.
pub open spec fn mode_named(name: Seq<char>) -> Option<Mode> {
    if name == "auto"@ {
        Some(Mode::Auto)
    } else if name == "manual"@ {
        Some(Mode::Manual)
    } else if name == "wizard"@ {
        Some(Mode::Wizard)
    } else {
        None
    }
}

impl Mode {
    /// The mode's name.
    pub fn to_string(&self) -> (r: String)
        ensures
            r@ == mode_name(*self),
    {
        match self {
            Mode::Auto => "auto".to_owned(),
            Mode::Manual => "manual".to_owned(),
            Mode::Wizard => "wizard".to_owned(),
        }
    }

    /// The mode with the given name, or an error for a name that is none.
    pub fn from_str(input: &str) -> (r: Result<Mode, &'static str>)
        ensures
            r is Ok <==> mode_named(input@) is Some,
            r matches Ok(mode) ==> mode_named(input@) == Some(mode),
            r matches Err(e) ==> e@ == "Invalid mode"@,
    {
        let name = input.to_owned();
        if name == "auto".to_owned() {
            Ok(Mode::Auto)
        } else if name == "manual".to_owned() {
            Ok(Mode::Manual)
        } else if name == "wizard".to_owned() {
            Ok(Mode::Wizard)
        } else {
            Err("Invalid mode")
        }
    }

    /// The mode with the given number: 0 for Auto, 1 for Manual, 2 for
    /// Wizard.
    pub fn from_usize(n: usize) -> (r: Option<Mode>)
        ensures
            r == if n == 0 {
                Some(Mode::Auto)
            } else if n == 1 {
                Some(Mode::Manual)
            } else if n == 2 {
                Some(Mode::Wizard)
            } else {
                None
            },
    {
        if n == 0 {
            Some(Mode::Auto)
        } else if n == 1 {
            Some(Mode::Manual)
        } else if n == 2 {
            Some(Mode::Wizard)
        } else {
            None
        }
    }
}

/// A name and the mode it names go back and forth.
pub proof fn lemma_mode_names_round_trip(mode: Mode)
    ensures
        mode_named(mode_name(mode)) == Some(mode),
{
    reveal_strlit("auto");
    reveal_strlit("manual");
    reveal_strlit("wizard");
    assert("auto"@.len() == 4);
    assert("manual"@.len() == 6);
    assert("wizard"@.len() == 6);
    assert("manual"@[0] == 'm');
    assert("wizard"@[0] == 'w');
}

/// The fixed weekly schedule, laid out for today.
#[derive(Clone, Debug)]
pub struct ModeAuto {
    pub daily_plan: Vec<DailyPlan>,
}

/// The adaptive plan.
#[derive(Clone, Debug)]
pub struct ModeWizard {
    pub daily_plan: Vec<DailyPlan>,
}

/// Direct operator control; it carries nothing.
#[derive(Clone, Debug)]
pub struct ModeManual;

} // verus!
