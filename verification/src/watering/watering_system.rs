//! The control dispatcher: what one pass of the outer loop does to the
//! machine, given the time, the signal that was waiting on the bus and the
//! day's weather figures.

use super::ds::{CtrlSignal, CycleView, DailyPlan, SectorInfo, WaterSector, WateringEvent};
use super::machine_laws::{
    lemma_one_valve_at_a_time, lemma_pass_keeps_machine_well_formed, lemma_progress_never_negative,
    no_negative_progress,
};
use super::modes::{mode_name, Mode};
use super::schedule::Schedule;
use super::state_machine::{state_view, MachineView, SMState, StateMachine, StateView, TickOutput};
use super::watering_alg::{all_wf, packing_fits, packing_is_possible, sectors_are_valid};
use crate::api::{CycleResponse, WateringStateResponse};
use crate::config::Watering;
use crate::sensors::interface::{one_valve_at_a_time, valve_after, ControlMessage};
use crate::text::{decimal, minutes_text, push_decimal, push_minutes};
use crate::utils::{in_calendar_range, is_in_calendar_range, sod, sod_spec};
use vstd::prelude::*;
use vstd::string::StringExecFns;

verus! {

/// The dispatcher: it owns the machine and is the only one to change it.
/// The day for which the daily adjustment was made last is kept by the loop
/// and handed in with every pass.
#[derive(Debug)]
pub struct WateringSystem {
    pub sm: StateMachine,
}

/// A query that the dispatcher answers from the machine.
#[derive(Clone, Copy, Debug, PartialEq, Eq, Structural)]
pub enum Query {
    State,
    Cycle,
}

/// What the dispatcher does with a signal from the bus: it hands a mode
/// change, a stop and a weather signal to the machine, answers a query, and
/// passes over everything else.
#[derive(Clone, Copy, Debug, PartialEq, Eq, Structural)]
pub enum Dispatch {
    ToMachine,
    Answer(Query),
    Ignore,
}

/// What a pass of the loop hands to the caller.
#[derive(Debug)]
pub struct PassOutput {
    /// Valve commands, in the order in which to send them.
    pub commands: Vec<ControlMessage>,
    /// The record of the session that the tick completed, if any.
    pub event: Option<WateringEvent>,
    /// The query to answer, if the signal was one.
    pub query: Option<Query>,
}

/// What the dispatcher does with `signal`.
pub open spec fn dispatch_of(signal: CtrlSignal) -> Dispatch {
    match signal {
        CtrlSignal::Weather(_) => Dispatch::ToMachine,
        CtrlSignal::StopMachine => Dispatch::ToMachine,
        CtrlSignal::ChgMode(_) => Dispatch::ToMachine,
        CtrlSignal::GetState => Dispatch::Answer(Query::State),
        CtrlSignal::GetCycle => Dispatch::Answer(Query::Cycle),
        _ => Dispatch::Ignore,
    }
}

/// Whether the daily adjustment is due at `now`: the day of `now` is not the
/// day for which it was made last.
pub open spec fn adjustment_due(last_day: int, now: int) -> bool {
    last_day != sod_spec(now)
}

/// The value of a figure that may be missing: nothing counts as zero.
pub open spec fn figure(value: Option<i64>) -> int {
    match value {
        Some(v) => v as int,
        None => 0,
    }
}

/// The machine after the dispatcher's daily step at `now`: adjusted if the
/// adjustment is due, and unchanged if it was made for this day already.
pub open spec fn after_daily_step(
    machine: MachineView,
    last_day: int,
    now: int,
    daily_et: Option<i64>,
    daily_rain: Option<i64>,
) -> MachineView {
    if adjustment_due(last_day, now) {
        machine.daily_adjusted(now, figure(daily_et), figure(daily_rain))
    } else {
        machine
    }
}

/// The machine after the dispatcher has dealt with the signal that was
/// waiting, if one was.
pub open spec fn after_signal(machine: MachineView, signal: Option<CtrlSignal>, now: i64)
    -> MachineView {
    match signal {
        Some(s) => machine.signalled(s, now),
        None => machine,
    }
}

/// The valve commands that follow the signal that was waiting.
pub open spec fn commands_of_signal(machine: MachineView, signal: Option<CtrlSignal>, now: i64)
    -> Seq<ControlMessage> {
    match signal {
        Some(s) => machine.signal_commands(s, now as int),
        None => Seq::empty(),
    }
}

/// The machine after one pass of the loop at `now`: the daily step first,
/// then the signal, then the tick.
pub open spec fn after_pass_of_loop(
    machine: MachineView,
    last_day: int,
    now: i64,
    signal: Option<CtrlSignal>,
    daily_et: Option<i64>,
    daily_rain: Option<i64>,
) -> MachineView {
    after_signal(
        after_daily_step(machine, last_day, now as int, daily_et, daily_rain),
        signal,
        now,
    ).ticked(now)
}

/// Whether the loop goes on: the end of a simulation is not reached and no
/// shutdown was asked for.
pub fn keeps_running(end_time: Option<i64>, now: i64, shutdown: bool) -> (r: bool)
    ensures
        r == (!shutdown && match end_time {
            Some(end) => now < end,
            None => true,
        }),
{
    !shutdown && match end_time {
        Some(end) => now < end,
        None => true,
    }
}

impl WateringSystem {
    /// A dispatcher over a machine at rest.
    pub fn new(
        sectors: Vec<SectorInfo>,
        auto_schedule: Schedule,
        starting_mode: Option<Mode>,
        current_time: i64,
        cfg: Watering,
    ) -> (r: Self)
        requires
            in_calendar_range(current_time as int),
            cfg.wf(),
        ensures
            r.sm@ == StateMachine::new_view(sectors@, auto_schedule@, starting_mode, current_time, cfg),
            r.sm@.timeframe.wf(),
            all_wf(sectors@) ==> r.sm@.wf(),
    {
        WateringSystem { sm: StateMachine::new(starting_mode, sectors, current_time, auto_schedule, cfg) }
    }

    /// Whether a pass of the loop can be made at `now`: the time is one that
    /// the calendar knows, every sector meets the sector invariants, and the
    /// starts of a plan for the catalog can be held.
    pub open spec fn runs_at(&self, now: int) -> bool {
        &&& in_calendar_range(now)
        &&& all_wf(self.sm.sectors@)
        &&& packing_fits(
            self.sm.sectors@.len() as int,
            self.sm.timeframe,
            self.sm.cfg.sector_transation_secs as int,
            7,
        )
    }

    /// Whether a pass of the loop can be made at `now`.
    pub fn can_run_at(&self, now: i64) -> (r: bool)
        ensures
            r == self.runs_at(now as int),
    {
        is_in_calendar_range(now) && sectors_are_valid(&self.sm.sectors) && packing_is_possible(
            self.sm.sectors.len(),
            &self.sm.timeframe,
            self.sm.cfg.sector_transation_secs,
            7,
        )
    }

    /// Whether the daily adjustment is due at `now`.
    pub fn needs_daily_adjustment(last_day: i64, now: i64) -> (r: bool)
        ensures
            r == adjustment_due(last_day as int, now as int),
    {
        last_day != sod(now)
    }

    /// The daily step. Where the day of `now` is the day of `last_day`
    /// nothing happens. Else `last_day` becomes the day of `now` and the
    /// machine is adjusted with the day's evapotranspiration and rain, each
    /// counted as zero where it is missing.
    pub fn do_daily_adjustments(
        &mut self,
        last_day: &mut i64,
        now: i64,
        daily_et: Option<i64>,
        daily_rain: Option<i64>,
    )
        requires
            adjustment_due(*old(last_day) as int, now as int) ==> old(self).runs_at(now as int),
        ensures
            *final(last_day) == sod_spec(now as int),
            final(self).sm@ == after_daily_step(
                old(self).sm@,
                *old(last_day) as int,
                now as int,
                daily_et,
                daily_rain,
            ),
            all_wf(old(self).sm.sectors@) ==> all_wf(final(self).sm.sectors@),
    {
        let day_start = sod(now);
        if *last_day == day_start {
            return ;
        }
        *last_day = day_start;
        let et = match daily_et {
            Some(v) => v,
            None => 0,
        };
        let rain = match daily_rain {
            Some(v) => v,
            None => 0,
        };
        self.sm.do_daily_adjustments(now, et, rain);
    }

    /// What the dispatcher does with `signal`.
    pub fn classify(signal: &CtrlSignal) -> (r: Dispatch)
        ensures
            r == dispatch_of(*signal),
    {
        match signal {
            CtrlSignal::Weather(_) => Dispatch::ToMachine,
            CtrlSignal::StopMachine => Dispatch::ToMachine,
            CtrlSignal::ChgMode(_) => Dispatch::ToMachine,
            CtrlSignal::GetState => Dispatch::Answer(Query::State),
            CtrlSignal::GetCycle => Dispatch::Answer(Query::Cycle),
            _ => Dispatch::Ignore,
        }
    }

    /// Deals with one signal from the bus: hands it to the machine if it is
    /// for the machine, and says which query to answer if it is one. Returns
    /// the valve commands and the query.
    pub fn handle_control_signals(&mut self, signal: CtrlSignal, current_time: i64) -> (r: (
        Vec<ControlMessage>,
        Option<Query>,
    ))
        ensures
            final(self).sm@ == old(self).sm@.signalled(signal, current_time),
            r.0@ == old(self).sm@.signal_commands(signal, current_time as int),
            r.1 == match dispatch_of(signal) {
                Dispatch::Answer(query) => Some(query),
                _ => None,
            },
            one_valve_at_a_time(old(self).sm@.state.energized(), r.0@),
            valve_after(old(self).sm@.state.energized(), r.0@) == final(self).sm@.state.energized(),
            no_negative_progress(old(self).sm@.sectors) ==> no_negative_progress(
                final(self).sm@.sectors,
            ),
    {
        match WateringSystem::classify(&signal) {
            Dispatch::ToMachine => (self.sm.handle_signal(signal, current_time), None),
            Dispatch::Answer(query) => (Vec::new(), Some(query)),
            Dispatch::Ignore => (Vec::new(), None),
        }
    }

    /// One pass of the loop at `now`: the daily step, then the signal that
    /// was waiting, then the tick. The valve commands of the signal come
    /// before those of the tick.
    pub fn run_pass(
        &mut self,
        last_day: &mut i64,
        now: i64,
        signal: Option<CtrlSignal>,
        daily_et: Option<i64>,
        daily_rain: Option<i64>,
    ) -> (out: PassOutput)
        requires
            now + 86_399 <= i64::MAX,
            old(self).sm.timeframe.day_start_time <= old(self).sm.timeframe.day_end_time,
            adjustment_due(*old(last_day) as int, now as int) ==> old(self).runs_at(now as int),
        ensures
            *final(last_day) == sod_spec(now as int),
            final(self).sm@ == after_pass_of_loop(
                old(self).sm@,
                *old(last_day) as int,
                now,
                signal,
                daily_et,
                daily_rain,
            ),
            out.commands@ == commands_of_signal(
                after_daily_step(
                    old(self).sm@,
                    *old(last_day) as int,
                    now as int,
                    daily_et,
                    daily_rain,
                ),
                signal,
                now,
            ) + after_signal(
                after_daily_step(
                    old(self).sm@,
                    *old(last_day) as int,
                    now as int,
                    daily_et,
                    daily_rain,
                ),
                signal,
                now,
            ).tick_commands(now),
            out.event == after_signal(
                after_daily_step(
                    old(self).sm@,
                    *old(last_day) as int,
                    now as int,
                    daily_et,
                    daily_rain,
                ),
                signal,
                now,
            ).tick_event(now),
            out.query == match signal {
                Some(s) => match dispatch_of(s) {
                    Dispatch::Answer(query) => Some(query),
                    _ => None,
                },
                None => None,
            },
            one_valve_at_a_time(old(self).sm@.state.energized(), out.commands@),
            valve_after(old(self).sm@.state.energized(), out.commands@)
                == final(self).sm@.state.energized(),
            no_negative_progress(old(self).sm@.sectors) ==> no_negative_progress(
                final(self).sm@.sectors,
            ),
            old(self).sm@.wf() ==> final(self).sm@.wf(),
    {
        proof {
            lemma_one_valve_at_a_time(self.sm@, *last_day as int, now, signal, daily_et, daily_rain);
            if self.sm@.wf() {
                lemma_pass_keeps_machine_well_formed(
                    self.sm@,
                    *last_day as int,
                    now,
                    signal,
                    daily_et,
                    daily_rain,
                );
            }
            if no_negative_progress(self.sm@.sectors) {
                lemma_progress_never_negative(
                    self.sm@,
                    *last_day as int,
                    now,
                    signal,
                    daily_et,
                    daily_rain,
                );
            }
        }
        self.do_daily_adjustments(last_day, now, daily_et, daily_rain);
        let mut commands: Vec<ControlMessage> = Vec::new();
        let mut query: Option<Query> = None;
        match signal {
            Some(s) => {
                let (signal_commands, asked) = self.handle_control_signals(s, now);
                commands = signal_commands;
                query = asked;
            },
            None => {},
        }
            let tick = self.sm.update(now);
        let TickOutput { commands: tick_commands, event } = tick;
        let mut tick_commands = tick_commands;
        commands.append(&mut tick_commands);
        PassOutput { commands, event, query }
    }
}

/// The description of a state: what the machine does and to which sector.
pub open spec fn state_text(state: StateView) -> Seq<char> {
    match state {
        StateView::Idle => "Idle"@,
        StateView::Watering(sec) => "Watering sector "@ + decimal(sec.id as int) + " for "@
            + minutes_text(sec.duration as int) + " minutes"@,
        StateView::Paused(prior, _) => match *prior {
            StateView::Watering(sec) => "Paused sector "@ + decimal(sec.id as int),
            _ => "Paused"@,
        },
    }
}

/// A plan element written out field by field.
pub open spec fn element_text(element: WaterSector) -> Seq<char> {
    "WaterSector { id: "@ + decimal(element.id as int) + ", start: "@ + decimal(
        element.start as int,
    ) + ", duration: "@ + decimal(element.duration as int) + " }"@
}

/// The elements of a plan written out, with a comma between them.
pub open spec fn elements_text(plan: Seq<WaterSector>) -> Seq<char>
    decreases plan.len(),
{
    if plan.len() == 0 {
        Seq::empty()
    } else if plan.len() == 1 {
        element_text(plan[0])
    } else {
        elements_text(plan.drop_last()) + ", "@ + element_text(plan.last())
    }
}

/// The description of a cycle: its identifier and its plan.
pub open spec fn cycle_text(cycle: CycleView) -> Seq<char> {
    "Cycle ID: "@ + decimal(cycle.id as int) + ", Instructions: DailyPlan(["@ + elements_text(
        cycle.plan,
    ) + "])"@
}

/// The label of a plan element's duration.
pub open spec fn duration_label(duration: int) -> Seq<char> {
    decimal(duration) + " minutes"@
}

/// Appends a plan element written out field by field.
fn push_element(text: &mut String, element: &WaterSector)
    ensures
        final(text)@ == old(text)@ + element_text(*element),
{
    let ghost before = text@;
    text.append("WaterSector { id: ");
    push_decimal(text, element.id as i64);
    text.append(", start: ");
    push_decimal(text, element.start);
    text.append(", duration: ");
    push_decimal(text, element.duration);
    text.append(" }");
    assert(text@ =~= before + element_text(*element));
}

/// Appends the elements of a plan, with a comma between them.
fn push_elements(text: &mut String, plan: &DailyPlan)
    ensures
        final(text)@ == old(text)@ + elements_text(plan@),
{
    let ghost before = text@;
    let n = plan.0.len();
    let mut i: usize = 0;
    assert(plan@.subrange(0, 0) =~= Seq::<WaterSector>::empty());
    assert(text@ =~= before + elements_text(plan@.subrange(0, 0)));
    while i < n
        invariant
            i <= n,
            n == plan@.len(),
            text@ == before + elements_text(plan@.subrange(0, i as int)),
        decreases n - i,
    {
        let ghost so_far = text@;
        let ghost upto = plan@.subrange(0, i + 1);
        proof {
            assert(upto.last() == plan@[i as int]);
            assert(upto.drop_last() =~= plan@.subrange(0, i as int));
            assert(upto[0] == plan@[0]);
        }
        if i > 0 {
            text.append(", ");
        }
        push_element(text, &plan.0[i]);
        assert(text@ =~= before + elements_text(upto));
        i += 1;
    }
    assert(plan@.subrange(0, n as int) =~= plan@);
}

impl WateringSystem {
    /// The answer to a query for the state: the mode by its name, the state
    /// described, and the cycle in execution described if there is one.
    pub fn get_state(&self) -> (r: WateringStateResponse)
        ensures
            r.error is None,
            r.mode matches Some(mode) && mode@ == mode_name(self.sm@.current_mode),
            r.state matches Some(state) && state@ == state_text(self.sm@.state),
            match self.sm@.cycle {
                Some(cycle) => r.current_cycle matches Some(text) && text@ == cycle_text(cycle),
                None => r.current_cycle is None,
            },
    {
        let mut state = String::new();
        match &self.sm.state {
            SMState::Idle => {
                state.append("Idle");
            },
            SMState::Watering(sec) => {
                state.append("Watering sector ");
                push_decimal(&mut state, sec.id as i64);
                state.append(" for ");
                push_minutes(&mut state, sec.duration);
                state.append(" minutes");
            },
            SMState::Paused(data) => {
                match &*data.state {
                    SMState::Watering(sec) => {
                        assert(state_view(*data.state) == StateView::Watering(*sec));
                        state.append("Paused sector ");
                        push_decimal(&mut state, sec.id as i64);
                    },
                    _ => {
                        assert(!(state_view(*data.state) is Watering));
                        state.append("Paused");
                    },
                }
            },
        }
        assert(state@ =~= state_text(self.sm@.state));
        let current_cycle = match &self.sm.cycle {
            Some(cycle) => {
                let mut text = String::new();
                text.append("Cycle ID: ");
                push_decimal(&mut text, cycle.id);
                text.append(", Instructions: DailyPlan([");
                push_elements(&mut text, &cycle.daily_plan);
                text.append("])");
                assert(text@ =~= cycle_text(cycle@));
                Some(text)
            },
            None => None,
        };
        WateringStateResponse {
            error: None,
            mode: Some(self.sm.current_mode.to_string()),
            state: Some(state),
            current_cycle,
        }
    }

    /// The answer to a query for the cycle: its identifier, and for each of
    /// its elements the sector and the label of its duration. Both are
    /// missing while no cycle is in execution.
    pub fn get_cycle(&self) -> (r: CycleResponse)
        ensures
            r.error is None,
            match self.sm@.cycle {
                Some(cycle) => {
                    &&& r.id == Some(cycle.id)
                    &&& r.instructions matches Some(list) && list@.len() == cycle.plan.len()
                        && forall|i: int|
                        0 <= i < cycle.plan.len() ==> (#[trigger] list@[i]).0 == cycle.plan[i].id
                            && list@[i].1@ == duration_label(cycle.plan[i].duration as int)
                },
                None => r.id is None && r.instructions is None,
            },
    {
        match &self.sm.cycle {
            Some(cycle) => {
                let mut list: Vec<(u32, String)> = Vec::new();
                let n = cycle.daily_plan.0.len();
                let mut i: usize = 0;
                while i < n
                    invariant
                        i <= n,
                        n == cycle@.plan.len(),
                        list@.len() == i,
                        forall|k: int|
                            0 <= k < i ==> (#[trigger] list@[k]).0 == cycle@.plan[k].id
                                && list@[k].1@ == duration_label(cycle@.plan[k].duration as int),
                    decreases n - i,
                {
                    let sec = cycle.daily_plan.0[i];
                    let mut label = String::new();
                    push_decimal(&mut label, sec.duration);
                    label.append(" minutes");
                    assert(label@ =~= duration_label(sec.duration as int));
                    list.push((sec.id, label));
                    i += 1;
                }
                CycleResponse { error: None, id: Some(cycle.id), instructions: Some(list) }
            },
            None => CycleResponse { error: None, id: None, instructions: None },
        }
    }
}

} // verus!
