//! The tick-driven state machine: Idle, Watering and Paused, and every
//! transition between them as a function of the machine and the event.
//!
//! The machine opens no valve and writes no log itself. Each transition
//! returns the valve commands, and the tick returns the record of a
//! completed session, for the caller to carry out in the order given.

use super::ds::{
    accrue_sector, accrued, find_sector, plan_is_due, plans_view, saturate, saturate_i128,
    sector_with_id, stamp_sector, stamped, CtrlSignal, Cycle, CycleView, DailyPlan, SectorInfo,
    WaterSector, WateringEvent, WeatherSignal,
};
use super::machine_laws::{
    lemma_new_machine_is_well_formed, lemma_signal_keeps_coherence, lemma_tick_keeps_coherence,
    lemma_pause_keeps_one_valve, lemma_resume_keeps_one_valve, lemma_signal_keeps_one_valve,
    lemma_signal_keeps_progress, lemma_stamped_keeps_progress, lemma_start_keeps_one_valve,
    lemma_tick_and_session, lemma_tick_keeps_one_valve, lemma_tick_keeps_progress,
    no_negative_progress,
};
use super::modes::{Mode, ModeAuto, ModeManual, ModeWizard};
use super::schedule::{auto_plans, load_auto_schedule, EntryView, Schedule};
use super::water_window::WaterWin;
use super::watering_alg::{
    adjust_daily_sector_progress, adjusted_all, all_wf, calc_wizard_daily_plan, generated_plans,
    packing_fits, remaining_days,
};
use crate::config::Watering;
use crate::sensors::interface::{one_valve_at_a_time, valve_after, ControlMessage};
use crate::utils::{
    fresh_catalog, get_week_day_from_ts, in_calendar_range, keyed_by_id,
    load_sectors_into_hashmap, weekday_of, Weekday,
};
use vstd::prelude::*;

verus! {

/// What a paused machine remembers: the state it was in and the weather
/// signals that keep it paused.
#[derive(Debug, PartialEq)]
pub struct PausedData {
    pub state: Box<SMState>,
    pub signals: Vec<WeatherSignal>,
}

/// State of the machine. A valve is open exactly while it is `Watering`.
#[derive(Debug, Default, PartialEq)]
pub enum SMState {
    #[default]
    Idle,
    Watering(WaterSector),
    Paused(PausedData),
}

/// What a state is as a value.
pub enum StateView {
    Idle,
    Watering(WaterSector),
    Paused(Box<StateView>, Seq<WeatherSignal>),
}

impl StateView {
    /// The valve that is open in this state.
    pub open spec fn energized(self) -> Option<u32> {
        match self {
            StateView::Watering(sec) => Some(sec.id),
            _ => None,
        }
    }
}

/// The value of a state: that of the state it remembers, where it is
/// paused, and the signals it holds in their order.
pub open spec fn state_view(state: SMState) -> StateView
    decreases state,
{
    match state {
        SMState::Idle => StateView::Idle,
        SMState::Watering(sec) => StateView::Watering(sec),
        SMState::Paused(data) => StateView::Paused(
            Box::new(state_view(*data.state)),
            data.signals@,
        ),
    }
}

impl View for SMState {
    type V = StateView;

    open spec fn view(&self) -> StateView {
        state_view(*self)
    }
}

impl SMState {
    pub fn is_watering(&self) -> (r: bool)
        ensures
            r == (self@ is Watering),
    {
        match self {
            SMState::Watering(_) => true,
            _ => false,
        }
    }

    pub fn is_paused(&self) -> (r: bool)
        ensures
            r == (self@ is Paused),
    {
        match self {
            SMState::Paused(_) => true,
            _ => false,
        }
    }

    pub fn is_idle(&self) -> (r: bool)
        ensures
            r == (self@ is Idle),
    {
        match self {
            SMState::Idle => true,
            _ => false,
        }
    }

    /// A state with the same value.
    pub fn duplicate(&self) -> (r: SMState)
        ensures
            r@ == self@,
        decreases self,
    {
        match self {
            SMState::Idle => SMState::Idle,
            SMState::Watering(sec) => SMState::Watering(*sec),
            SMState::Paused(data) => {
                let signals = data.signals.clone();
                assert(signals@ =~= data.signals@);
                SMState::Paused(PausedData { state: Box::new(data.state.duplicate()), signals })
            },
        }
    }

    /// A copy of the state in a box.
    pub fn boxed(&self) -> (r: Box<SMState>)
        ensures
            r@ == self@,
    {
        Box::new(self.duplicate())
    }
}

impl Clone for SMState {
    fn clone(&self) -> (r: Self)
        ensures
            r@ == self@,
    {
        self.duplicate()
    }
}

impl Clone for PausedData {
    fn clone(&self) -> (r: Self)
        ensures
            state_view(*r.state) == state_view(*self.state),
            r.signals@ == self.signals@,
    {
        let signals = self.signals.clone();
        assert(signals@ =~= self.signals@);
        PausedData { state: self.state.boxed(), signals }
    }
}

/// The signals without any occurrence of `gone`.
pub open spec fn without(signals: Seq<WeatherSignal>, gone: WeatherSignal) -> Seq<WeatherSignal>
    decreases signals.len(),
{
    if signals.len() == 0 {
        Seq::empty()
    } else if signals.last() == gone {
        without(signals.drop_last(), gone)
    } else {
        without(signals.drop_last(), gone).push(signals.last())
    }
}

/// What a tick hands to the caller.
#[derive(Debug)]
pub struct TickOutput {
    /// Valve commands, in the order in which to send them.
    pub commands: Vec<ControlMessage>,
    /// The record of the session that this tick completed, if it completed
    /// one.
    pub event: Option<WateringEvent>,
}

/// The machine.
#[derive(Debug)]
pub struct StateMachine {
    /// The sector catalog.
    pub sectors: Vec<SectorInfo>,
    /// The current watering window.
    pub timeframe: WaterWin,
    pub state: SMState,
    pub current_mode: Mode,
    /// The cycle in execution.
    pub cycle: Option<Cycle>,
    /// The fixed weekly schedule.
    pub auto_schedule: Schedule,
    pub mode_manual: ModeManual,
    pub mode_auto: ModeAuto,
    pub mode_wizard: ModeWizard,
    pub cfg: Watering,
}

/// What a machine is as a value.
pub struct MachineView {
    pub sectors: Seq<SectorInfo>,
    pub timeframe: WaterWin,
    pub state: StateView,
    pub current_mode: Mode,
    pub cycle: Option<CycleView>,
    pub auto_schedule: Seq<EntryView>,
    pub auto_plans: Seq<Seq<WaterSector>>,
    pub wizard_plans: Seq<Seq<WaterSector>>,
    pub cfg: Watering,
}

impl View for StateMachine {
    type V = MachineView;

    open spec fn view(&self) -> MachineView {
        MachineView {
            sectors: self.sectors@,
            timeframe: self.timeframe,
            state: self.state@,
            current_mode: self.current_mode,
            cycle: match self.cycle {
                Some(cycle) => Some(cycle@),
                None => None,
            },
            auto_schedule: self.auto_schedule@,
            auto_plans: plans_view(self.mode_auto.daily_plan@),
            wizard_plans: plans_view(self.mode_wizard.daily_plan@),
            cfg: self.cfg,
        }
    }
}

/// Whether the signals are start signals, each held once.
pub open spec fn held_once(signals: Seq<WeatherSignal>) -> bool {
    &&& forall|i: int| 0 <= i < signals.len() ==> (#[trigger] signals[i]).is_start()
    &&& forall|i: int, j: int| 0 <= i < j < signals.len() ==> signals[i] != signals[j]
}

impl MachineView {
    /// Whether the state and the cycle agree. An Idle machine has no cycle. A
    /// watering machine has a cycle, and waters the element at which the
    /// cycle stands. A paused machine remembers a watering state, of the
    /// element at which its cycle stands, and holds at least one start
    /// signal, each once.
    pub open spec fn coherent(self) -> bool {
        match self.state {
            StateView::Idle => self.cycle is None,
            StateView::Watering(sec) => self.cycle matches Some(cycle) && cycle.current() == Some(
                sec,
            ),
            StateView::Paused(prior, signals) => {
                &&& *prior matches StateView::Watering(sec) && (self.cycle matches Some(cycle)
                    && cycle.current() == Some(sec))
                &&& signals.len() > 0
                &&& held_once(signals)
            },
        }
    }

    /// Whether the machine is one that the transitions can have made of a
    /// machine at rest with a valid catalog: every sector meets the sector
    /// invariants, no two entries are for the same sector, the window is
    /// well formed, and the state and the cycle agree.
    pub open spec fn wf(self) -> bool {
        &&& all_wf(self.sectors)
        &&& keyed_by_id(self.sectors)
        &&& self.timeframe.wf()
        &&& self.coherent()
    }

    /// The plans of the mode that is active. Manual has none.
    pub open spec fn active_plans(self) -> Seq<Seq<WaterSector>> {
        match self.current_mode {
            Mode::Auto => self.auto_plans,
            Mode::Wizard => self.wizard_plans,
            Mode::Manual => Seq::empty(),
        }
    }

    /// The machine after a stop: no cycle, the first plan of the active mode
    /// gone if there was one, and Idle.
    pub open spec fn stopped(self) -> MachineView {
        MachineView {
            cycle: None,
            state: StateView::Idle,
            auto_plans: if self.current_mode == Mode::Auto && self.auto_plans.len() > 0 {
                self.auto_plans.drop_first()
            } else {
                self.auto_plans
            },
            wizard_plans: if self.current_mode == Mode::Wizard && self.wizard_plans.len() > 0 {
                self.wizard_plans.drop_first()
            } else {
                self.wizard_plans
            },
            ..self
        }
    }

    /// Whether an Idle machine starts a cycle at `now`: it is Idle, the
    /// active mode has a plan, and the first plan is due.
    pub open spec fn starts_at(self, now: int) -> bool {
        &&& self.state is Idle
        &&& self.active_plans().len() > 0
        &&& plan_is_due(self.active_plans()[0], now)
    }

    /// The machine after the Idle transition at `now`: watering the first
    /// element of the first plan of the active mode if that plan is due, and
    /// unchanged otherwise.
    pub open spec fn started(self, now: int) -> MachineView {
        if self.starts_at(now) {
            let plan = self.active_plans()[0];
            MachineView {
                cycle: Some(CycleView::fresh(plan).advanced()),
                state: StateView::Watering(plan[0]),
                ..self
            }
        } else {
            self
        }
    }

    /// The valve commands of the Idle transition at `now`.
    pub open spec fn start_commands(self, now: int) -> Seq<ControlMessage> {
        if self.starts_at(now) {
            seq![ControlMessage::Activate(self.active_plans()[0][0].id)]
        } else {
            Seq::empty()
        }
    }

    /// The element that follows the current one in the cycle, if there is a
    /// cycle and it has one.
    pub open spec fn next_in_cycle(self) -> Option<WaterSector> {
        match self.cycle {
            Some(cycle) => cycle.advanced().current(),
            None => None,
        }
    }

    /// The machine after the session of `sec` has ended at `now`: the
    /// sector's latest deactivation is `now`, and the machine waters the next
    /// element of the cycle, or stops if there is none.
    pub open spec fn completed(self, sec: WaterSector, now: i64) -> MachineView {
        let closed = MachineView { sectors: stamped(self.sectors, sec.id, now), ..self };
        match self.next_in_cycle() {
            Some(next) => MachineView {
                cycle: Some(self.cycle->0.advanced()),
                state: StateView::Watering(next),
                ..closed
            },
            None => closed.stopped(),
        }
    }

    /// Depth that the session of `sec` has applied when it ends at `now`:
    /// the seconds since its start at the sector's rate, and nothing for a
    /// sector that the catalog does not hold.
    pub open spec fn water_applied(self, sec: WaterSector, now: int) -> int {
        match sector_with_id(self.sectors, sec.id) {
            Some(sector) => saturate((now - sec.start) * sector.sprinkler_debit),
            None => 0,
        }
    }

    /// The machine with its window rolled to `now`.
    pub open spec fn rolled(self, now: int) -> MachineView {
        MachineView { timeframe: self.timeframe.rolled(now), ..self }
    }

    /// The machine after the tick at `now`. The window is rolled first. A
    /// machine that waters a sector whose session has ended closes it and
    /// moves on; one whose session still runs credits the sector for a
    /// second. An Idle machine in Auto or Wizard mode starts the first plan
    /// of its mode if that is due. A paused machine waits.
    pub open spec fn ticked(self, now: i64) -> MachineView {
        let machine = self.rolled(now as int);
        match machine.state {
            StateView::Watering(sec) => if now >= sec.end() {
                machine.completed(sec, now)
            } else {
                MachineView { sectors: accrued(machine.sectors, sec.id), ..machine }
            },
            StateView::Idle => machine.started(now as int),
            StateView::Paused(_, _) => machine,
        }
    }

    /// The valve commands of the tick at `now`.
    pub open spec fn tick_commands(self, now: i64) -> Seq<ControlMessage> {
        match self.state {
            StateView::Watering(sec) => if now >= sec.end() {
                match self.next_in_cycle() {
                    Some(next) => seq![
                        ControlMessage::Deactivate(sec.id),
                        ControlMessage::Activate(next.id),
                    ],
                    None => seq![ControlMessage::Deactivate(sec.id)],
                }
            } else {
                Seq::empty()
            },
            StateView::Idle => self.start_commands(now as int),
            StateView::Paused(_, _) => Seq::empty(),
        }
    }

    /// The record that the tick at `now` hands out: that of the session
    /// which it completes, if it completes one.
    pub open spec fn tick_event(self, now: i64) -> Option<WateringEvent> {
        match self.state {
            StateView::Watering(sec) => if now >= sec.end() {
                Some(
                    WateringEvent {
                        cycle_id: match self.cycle {
                            Some(cycle) => Some(cycle.id),
                            None => None,
                        },
                        sector: sec,
                        water_applied: self.water_applied(sec, now as int) as i64,
                        mode: self.current_mode,
                    },
                )
            } else {
                None
            },
            _ => None,
        }
    }

    /// The machine after the pause transition for `signal` at `now`. Only a
    /// machine in Wizard mode pauses. From Watering it remembers the state
    /// and the signal, and the sector's latest deactivation is `now`. A
    /// paused machine adds the signal to those it holds, unless it holds it
    /// already.
    pub open spec fn paused_by(self, signal: WeatherSignal, now: i64) -> MachineView {
        if self.current_mode != Mode::Wizard {
            self
        } else {
            match self.state {
                StateView::Watering(sec) => MachineView {
                    sectors: stamped(self.sectors, sec.id, now),
                    state: StateView::Paused(Box::new(self.state), seq![signal]),
                    ..self
                },
                StateView::Paused(prior, signals) => MachineView {
                    state: StateView::Paused(
                        prior,
                        if signals.contains(signal) {
                            signals
                        } else {
                            signals.push(signal)
                        },
                    ),
                    ..self
                },
                StateView::Idle => self,
            }
        }
    }

    /// The valve commands of the pause transition.
    pub open spec fn pause_commands(self) -> Seq<ControlMessage> {
        match self.state {
            StateView::Watering(sec) => if self.current_mode == Mode::Wizard {
                seq![ControlMessage::Deactivate(sec.id)]
            } else {
                Seq::empty()
            },
            _ => Seq::empty(),
        }
    }

    /// Whether the resume transition for `signal` ends the pause: the signal
    /// ends a start signal, the machine is paused, and it holds no other
    /// signal than that start signal.
    pub open spec fn pause_ends_with(self, signal: WeatherSignal) -> bool {
        &&& signal.ends() is Some
        &&& self.state matches StateView::Paused(_, signals) && without(signals, signal.ends()->0).len()
            == 0
    }

    /// The machine after the resume transition for `signal` at `now`. A
    /// signal that ends no start signal changes nothing, and neither does any
    /// signal while the machine is not paused. Else the start signal is
    /// taken from those held. While one is left the machine stays paused.
    /// Once none is left it goes back to the state it remembers if `now` is
    /// in the window, and stops if it is not.
    pub open spec fn resumed_by(self, signal: WeatherSignal, now: int) -> MachineView {
        match (signal.ends(), self.state) {
            (Some(start), StateView::Paused(prior, signals)) => {
                let left = without(signals, start);
                if left.len() > 0 {
                    MachineView { state: StateView::Paused(prior, left), ..self }
                } else if self.timeframe.contains(now) {
                    MachineView { state: *prior, ..self }
                } else {
                    self.stopped()
                }
            },
            _ => self,
        }
    }

    /// The valve commands of the resume transition.
    pub open spec fn resume_commands(self, signal: WeatherSignal, now: int) -> Seq<ControlMessage> {
        if self.pause_ends_with(signal) && self.timeframe.contains(now) {
            match self.state {
                StateView::Paused(prior, _) => match *prior {
                    StateView::Watering(sec) => seq![ControlMessage::Activate(sec.id)],
                    _ => Seq::empty(),
                },
                _ => Seq::empty(),
            }
        } else {
            Seq::empty()
        }
    }

    /// The machine in `mode`.
    pub open spec fn in_mode(self, mode: Mode) -> MachineView {
        MachineView { current_mode: mode, ..self }
    }

    /// The machine after a weather signal: a start signal goes to the pause
    /// transition and a stop signal to the resume transition.
    pub open spec fn weathered(self, signal: WeatherSignal, now: i64) -> MachineView {
        if signal.is_start() {
            self.paused_by(signal, now)
        } else {
            self.resumed_by(signal, now as int)
        }
    }

    /// The valve commands that follow a weather signal.
    pub open spec fn weather_commands(self, signal: WeatherSignal, now: int) -> Seq<
        ControlMessage,
    > {
        if signal.is_start() {
            self.pause_commands()
        } else {
            self.resume_commands(signal, now)
        }
    }

    /// The machine after a control signal. A mode change sets the mode, a
    /// stop sets Manual mode, a weather signal pauses or resumes, and no
    /// other signal bears on the machine.
    pub open spec fn signalled(self, signal: CtrlSignal, now: i64) -> MachineView {
        match signal {
            CtrlSignal::ChgMode(mode) => self.in_mode(mode),
            CtrlSignal::StopMachine => self.in_mode(Mode::Manual),
            CtrlSignal::Weather(weather) => self.weathered(weather, now),
            _ => self,
        }
    }

    /// The valve commands that follow a control signal.
    pub open spec fn signal_commands(self, signal: CtrlSignal, now: int) -> Seq<ControlMessage> {
        match signal {
            CtrlSignal::Weather(weather) => self.weather_commands(weather, now),
            _ => Seq::empty(),
        }
    }

    /// The machine after the daily adjustment at `now`: every sector's
    /// progress corrected for the day, with the weekly reset on a Monday, the
    /// adaptive plan made anew from the corrected catalog, and the fixed
    /// schedule laid out for the day.
    pub open spec fn daily_adjusted(self, now: int, daily_et: int, daily_rain: int) -> MachineView {
        let sectors = adjusted_all(
            self.sectors,
            daily_et,
            daily_rain,
            weekday_of(now) == Weekday::Mon,
        );
        MachineView {
            sectors,
            wizard_plans: generated_plans(
                sectors,
                remaining_days(now),
                self.timeframe,
                self.cfg.sector_transation_secs as int,
                self.cfg.min_watering_secs as int,
            ),
            auto_plans: auto_plans(self.auto_schedule, now),
            ..self
        }
    }
}

/// A fresh cycle over the first of the plans if that plan is due.
fn first_due_cycle(plans: &Vec<DailyPlan>, current_time: i64) -> (r: Option<Cycle>)
    ensures
        r is Some <==> plans@.len() > 0 && plan_is_due(plans@[0]@, current_time as int),
        r matches Some(cycle) ==> cycle@ == CycleView::fresh(plans@[0]@),
{
    if plans.len() > 0 {
        plans[0].get_cycle(current_time)
    } else {
        None
    }
}

/// Takes the first plan off the list if it has one.
fn drop_first_plan(plans: &mut Vec<DailyPlan>)
    ensures
        plans_view(final(plans)@) == if old(plans)@.len() > 0 {
            plans_view(old(plans)@).drop_first()
        } else {
            plans_view(old(plans)@)
        },
{
    if plans.len() > 0 {
        let ghost before = plans@;
        let _ = plans.remove(0);
        assert(plans_view(plans@) =~= plans_view(before).drop_first());
    }
}

/// Whether the signals hold `signal`.
fn holds_signal(signals: &Vec<WeatherSignal>, signal: WeatherSignal) -> (r: bool)
    ensures
        r == signals@.contains(signal),
{
    let n = signals.len();
    let mut i: usize = 0;
    while i < n
        invariant
            i <= n,
            n == signals@.len(),
            forall|j: int| 0 <= j < i ==> signals@[j] != signal,
        decreases n - i,
    {
        if signals[i] == signal {
            return true;
        }
        i += 1;
    }
    false
}

/// The signals without any occurrence of `gone`.
fn signals_without(signals: &Vec<WeatherSignal>, gone: WeatherSignal) -> (r: Vec<WeatherSignal>)
    ensures
        r@ == without(signals@, gone),
{
    let mut left: Vec<WeatherSignal> = Vec::new();
    let n = signals.len();
    let mut i: usize = 0;
    while i < n
        invariant
            i <= n,
            n == signals@.len(),
            left@ == without(signals@.subrange(0, i as int), gone),
        decreases n - i,
    {
        proof {
            let upto = signals@.subrange(0, i + 1);
            assert(upto.last() == signals@[i as int]);
            assert(upto.drop_last() =~= signals@.subrange(0, i as int));
        }
        if signals[i] != gone {
            left.push(signals[i]);
        }
        i += 1;
    }
    assert(signals@.subrange(0, n as int) =~= signals@);
    left
}

impl StateMachine {
    /// The value of a machine at rest.
    pub open spec fn new_view(
        sectors: Seq<SectorInfo>,
        auto_schedule: Seq<EntryView>,
        starting_mode: Option<Mode>,
        current_time: i64,
        cfg: Watering,
    ) -> MachineView {
        MachineView {
            sectors: fresh_catalog(sectors),
            timeframe: WaterWin::on_day_of(
                current_time as int,
                cfg.window_start_hour as int,
                cfg.window_duration_hours as int,
            ),
            state: StateView::Idle,
            current_mode: match starting_mode {
                Some(mode) => mode,
                None => Mode::Auto,
            },
            cycle: None,
            auto_schedule,
            auto_plans: auto_plans(auto_schedule, current_time as int),
            wizard_plans: Seq::empty(),
            cfg,
        }
    }

    /// A machine at rest: Idle, without a cycle, in `starting_mode` or in
    /// Auto mode if none is given. The catalog is made of `sectors`, the
    /// window is that of the settings on the day of `current_time`, and the
    /// fixed schedule is laid out for that day.
    pub fn new(
        starting_mode: Option<Mode>,
        sectors: Vec<SectorInfo>,
        current_time: i64,
        auto_schedule: Schedule,
        cfg: Watering,
    ) -> (r: Self)
        requires
            in_calendar_range(current_time as int),
            cfg.wf(),
        ensures
            r@ == StateMachine::new_view(sectors@, auto_schedule@, starting_mode, current_time, cfg),
            r@.timeframe.wf(),
            r@.coherent(),
            all_wf(sectors@) ==> r@.wf(),
    {
        proof {
            let made = StateMachine::new_view(
                sectors@,
                auto_schedule@,
                starting_mode,
                current_time,
                cfg,
            );
            if all_wf(sectors@) {
                lemma_new_machine_is_well_formed(made, sectors@);
            }
        }
        let mode_auto = ModeAuto { daily_plan: load_auto_schedule(&auto_schedule, current_time) };
        let mode_wizard = ModeWizard { daily_plan: Vec::new() };
        assert(plans_view(mode_wizard.daily_plan@) =~= Seq::<Seq<WaterSector>>::empty());
        Self {
            state: SMState::Idle,
            sectors: load_sectors_into_hashmap(sectors),
            current_mode: match starting_mode {
                Some(mode) => mode,
                None => Mode::Auto,
            },
            timeframe: WaterWin::new(
                current_time,
                cfg.window_start_hour,
                cfg.window_duration_hours,
            ),
            auto_schedule,
            mode_manual: ModeManual,
            mode_auto,
            mode_wizard,
            cycle: None,
            cfg,
        }
    }

    pub fn is_auto_or_wizard(&self) -> (r: bool)
        ensures
            r == (self.current_mode == Mode::Auto || self.current_mode == Mode::Wizard),
    {
        match self.current_mode {
            Mode::Auto => true,
            Mode::Wizard => true,
            Mode::Manual => false,
        }
    }

    /// Ends the cycle: the first plan of the active mode is done with, and the
    /// machine is Idle.
    pub fn stop(&mut self)
        ensures
            final(self)@ == old(self)@.stopped(),
    {
        self.cycle = None;
        match self.current_mode {
            Mode::Auto => {
                drop_first_plan(&mut self.mode_auto.daily_plan);
            },
            Mode::Wizard => {
                drop_first_plan(&mut self.mode_wizard.daily_plan);
            },
            Mode::Manual => {},
        }
        self.state = SMState::Idle;
    }

    /// The Idle transition: starts the first plan of the active mode if the
    /// machine is Idle and the plan is due, and returns the command that
    /// opens the valve of its first sector.
    pub fn trans_watering(&mut self, current_time: i64) -> (commands: Vec<ControlMessage>)
        ensures
            final(self)@ == old(self)@.started(current_time as int),
            commands@ == old(self)@.start_commands(current_time as int),
            one_valve_at_a_time(old(self)@.state.energized(), commands@),
            valve_after(old(self)@.state.energized(), commands@) == final(self)@.state.energized(),
    {
        proof {
            lemma_start_keeps_one_valve(self@, current_time as int);
        }
        let mut commands: Vec<ControlMessage> = Vec::new();
        if !self.state.is_idle() {
            return commands;
        }
        let due = match self.current_mode {
            Mode::Auto => first_due_cycle(&self.mode_auto.daily_plan, current_time),
            Mode::Wizard => first_due_cycle(&self.mode_wizard.daily_plan, current_time),
            Mode::Manual => None,
        };
        match due {
            Some(cycle) => {
                let mut cycle = cycle;
                match cycle.next_sector() {
                    Some(sec) => {
                        self.cycle = Some(cycle);
                        self.state = SMState::Watering(sec);
                        commands.push(ControlMessage::Activate(sec.id));
                    },
                    None => {},
                }
            },
            None => {},
        }
        commands
    }

    /// Sets the mode. A session that is running goes on.
    pub fn trans_change_mode(&mut self, new_mode: Mode)
        ensures
            final(self)@ == old(self)@.in_mode(new_mode),
    {
        self.current_mode = new_mode;
    }
}

impl StateMachine {
    /// The sector that the machine is watering, if it is watering.
    pub fn watering_sector(&self) -> (r: Option<WaterSector>)
        ensures
            r == match self@.state {
                StateView::Watering(sec) => Some(sec),
                _ => None,
            },
    {
        match &self.state {
            SMState::Watering(sec) => Some(*sec),
            _ => None,
        }
    }

    /// Depth that the session of `sec` has applied when it ends at
    /// `current_time`.
    fn applied_depth(&self, sec: WaterSector, current_time: i64) -> (r: i64)
        ensures
            r == self@.water_applied(sec, current_time as int),
    {
        match find_sector(&self.sectors, sec.id) {
            Some(sector) => {
                let elapsed: i128 = current_time as i128 - sec.start as i128;
                let debit: i128 = sector.sprinkler_debit as i128;
                assert(-0x8000_0000_0000_0000_0000_0000_0000_0000 <= elapsed * debit
                    < 0x8000_0000_0000_0000_0000_0000_0000_0000) by (nonlinear_arith)
                    requires
                        -0x1_0000_0000_0000_0000 < elapsed < 0x1_0000_0000_0000_0000,
                        -0x8000_0000_0000_0000 <= debit < 0x8000_0000_0000_0000,
                ;
                saturate_i128(elapsed * debit)
            },
            None => 0,
        }
    }

    /// The tick. Rolls the window, then closes the session that has ended
    /// and moves on in the cycle, or credits the sector whose session still
    /// runs, or starts the plan that is due. Returns the valve commands and,
    /// where a session ended, its record.
    pub fn update(&mut self, current_time: i64) -> (out: TickOutput)
        requires
            old(self).timeframe.day_start_time <= old(self).timeframe.day_end_time,
            current_time + 86_399 <= i64::MAX,
        ensures
            final(self)@ == old(self)@.ticked(current_time),
            out.commands@ == old(self)@.tick_commands(current_time),
            out.event == old(self)@.tick_event(current_time),
            one_valve_at_a_time(old(self)@.state.energized(), out.commands@),
            valve_after(old(self)@.state.energized(), out.commands@) == final(self)@.state.energized(),
            no_negative_progress(old(self)@.sectors) ==> no_negative_progress(final(self)@.sectors),
            old(self)@.coherent() ==> final(self)@.coherent(),
            final(self)@.state matches StateView::Watering(sec) ==> {
                ||| old(self)@.state == StateView::Watering(sec) && current_time < sec.end()
                ||| old(self)@.state is Idle && sec.start <= current_time
                ||| old(self)@.state matches StateView::Watering(ended) && ended.end()
                    <= current_time && old(self)@.next_in_cycle() == Some(sec)
            },
    {
        proof {
            lemma_tick_keeps_one_valve(self@, current_time);
            lemma_tick_and_session(self@, current_time);
            if self@.coherent() {
                lemma_tick_keeps_coherence(self@, current_time);
            }
            if no_negative_progress(self@.sectors) {
                lemma_tick_keeps_progress(self@, current_time);
            }
        }
        let ghost before = self@;
        self.timeframe.roll_window(current_time);
        let ghost rolled = self@;
        assert(rolled == before.rolled(current_time as int));
        let mut commands: Vec<ControlMessage> = Vec::new();
        let mut event: Option<WateringEvent> = None;
        match self.watering_sector() {
            Some(sec) => {
                if current_time as i128 >= sec.start as i128 + sec.duration as i128 {
                    let water_applied = self.applied_depth(sec, current_time);
                    let cycle_id = match &self.cycle {
                        Some(cycle) => Some(cycle.id),
                        None => None,
                    };
                    event = Some(WateringEvent::new(cycle_id, sec, water_applied, self.current_mode));
                    stamp_sector(&mut self.sectors, sec.id, current_time);
                    commands.push(ControlMessage::Deactivate(sec.id));
                    let next = match self.cycle.take() {
                        Some(cycle) => {
                            let mut cycle = cycle;
                            let next = cycle.next_sector();
                            self.cycle = Some(cycle);
                            next
                        },
                        None => None,
                    };
                    match next {
                        Some(next_sec) => {
                            self.state = SMState::Watering(next_sec);
                            commands.push(ControlMessage::Activate(next_sec.id));
                        },
                        None => {
                            self.stop();
                        },
                    }
                    assert(self@ =~~= rolled.completed(sec, current_time));
                } else {
                    accrue_sector(&mut self.sectors, sec.id);
                }
            },
            None => {
                if self.state.is_idle() {
                    commands = self.trans_watering(current_time);
                }
            },
        }
        assert(commands@ =~= before.tick_commands(current_time));
        TickOutput { commands, event }
    }

    /// The pause transition.
    pub fn trans_pause(&mut self, signal: WeatherSignal, current_time: i64) -> (commands: Vec<
        ControlMessage,
    >)
        ensures
            final(self)@ == old(self)@.paused_by(signal, current_time),
            commands@ == old(self)@.pause_commands(),
            one_valve_at_a_time(old(self)@.state.energized(), commands@),
            valve_after(old(self)@.state.energized(), commands@) == final(self)@.state.energized(),
            no_negative_progress(old(self)@.sectors) ==> no_negative_progress(final(self)@.sectors),
    {
        proof {
            lemma_pause_keeps_one_valve(self@, signal, current_time);
            match self@.state {
                StateView::Watering(sec) => {
                    if no_negative_progress(self@.sectors) {
                        lemma_stamped_keeps_progress(self@.sectors, sec.id, current_time);
                    }
                },
                _ => {},
            }
        }
        let mut commands: Vec<ControlMessage> = Vec::new();
        match self.current_mode {
            Mode::Wizard => {},
            _ => {
                return commands;
            },
        }
        let ghost before = self@;
        let mut state = SMState::Idle;
        core::mem::swap(&mut self.state, &mut state);
        match state {
            SMState::Watering(sec) => {
                stamp_sector(&mut self.sectors, sec.id, current_time);
                commands.push(ControlMessage::Deactivate(sec.id));
                let mut signals: Vec<WeatherSignal> = Vec::new();
                signals.push(signal);
                assert(signals@ =~= seq![signal]);
                self.state = SMState::Paused(
                    PausedData { state: Box::new(SMState::Watering(sec)), signals },
                );
            },
            SMState::Paused(data) => {
                let mut data = data;
                if !holds_signal(&data.signals, signal) {
                    data.signals.push(signal);
                }
                self.state = SMState::Paused(data);
            },
            SMState::Idle => {},
        }
        assert(self@ =~~= before.paused_by(signal, current_time));
        commands
    }

    /// The resume transition.
    pub fn trans_resume(&mut self, env_signal: WeatherSignal, current_time: i64) -> (commands: Vec<
        ControlMessage,
    >)
        ensures
            final(self)@ == old(self)@.resumed_by(env_signal, current_time as int),
            commands@ == old(self)@.resume_commands(env_signal, current_time as int),
            one_valve_at_a_time(old(self)@.state.energized(), commands@),
            valve_after(old(self)@.state.energized(), commands@) == final(self)@.state.energized(),
            final(self)@.sectors == old(self)@.sectors,
    {
        proof {
            lemma_resume_keeps_one_valve(self@, env_signal, current_time as int);
        }
        let mut commands: Vec<ControlMessage> = Vec::new();
        let start = match env_signal.matching_start() {
            Some(start) => start,
            None => {
                return commands;
            },
        };
        let ghost before = self@;
        let mut state = SMState::Idle;
        core::mem::swap(&mut self.state, &mut state);
        match state {
            SMState::Paused(data) => {
                let left = signals_without(&data.signals, start);
                if left.len() > 0 {
                    self.state = SMState::Paused(PausedData { state: data.state, signals: left });
                } else if self.timeframe.is_within(current_time) {
                    let prior: SMState = *data.state;
                    match &prior {
                        SMState::Watering(sec) => {
                            commands.push(ControlMessage::Activate(sec.id));
                        },
                        _ => {},
                    }
                    self.state = prior;
                } else {
                    self.stop();
                }
            },
            other => {
                self.state = other;
            },
        }
        assert(self@ =~~= before.resumed_by(env_signal, current_time as int));
        commands
    }

    /// Takes a signal from the control bus. A mode change sets the mode and a
    /// stop sets Manual mode. A weather signal that reports the start of
    /// adverse weather goes to the pause transition, one that reports its end
    /// to the resume transition. No other signal bears on the machine.
    pub fn handle_signal(&mut self, signal: CtrlSignal, current_time: i64) -> (commands: Vec<
        ControlMessage,
    >)
        ensures
            final(self)@ == old(self)@.signalled(signal, current_time),
            commands@ == old(self)@.signal_commands(signal, current_time as int),
            one_valve_at_a_time(old(self)@.state.energized(), commands@),
            valve_after(old(self)@.state.energized(), commands@) == final(self)@.state.energized(),
            no_negative_progress(old(self)@.sectors) ==> no_negative_progress(final(self)@.sectors),
            old(self)@.coherent() ==> final(self)@.coherent(),
    {
        proof {
            lemma_signal_keeps_one_valve(self@, signal, current_time);
            if self@.coherent() {
                lemma_signal_keeps_coherence(self@, signal, current_time);
            }
            if no_negative_progress(self@.sectors) {
                lemma_signal_keeps_progress(self@, signal, current_time);
            }
        }
        match signal {
            CtrlSignal::ChgMode(new_mode) => {
                self.trans_change_mode(new_mode);
                Vec::new()
            },
            CtrlSignal::StopMachine => {
                self.trans_change_mode(Mode::Manual);
                Vec::new()
            },
            CtrlSignal::Weather(weather) => {
                match weather {
                    WeatherSignal::RainStart => self.trans_pause(weather, current_time),
                    WeatherSignal::WindHigh => self.trans_pause(weather, current_time),
                    WeatherSignal::RainStop => self.trans_resume(weather, current_time),
                    WeatherSignal::WindLow => self.trans_resume(weather, current_time),
                }
            },
            _ => Vec::new(),
        }
    }

    /// The daily adjustment: corrects every sector's progress for the day,
    /// with the weekly reset on a Monday, makes the adaptive plan anew and
    /// lays the fixed schedule out for the day.
    pub fn do_daily_adjustments(&mut self, current_time: i64, daily_et: i64, daily_rain: i64)
        requires
            in_calendar_range(current_time as int),
            all_wf(old(self).sectors@),
            packing_fits(
                old(self).sectors@.len() as int,
                old(self).timeframe,
                old(self).cfg.sector_transation_secs as int,
                7,
            ),
        ensures
            final(self)@ == old(self)@.daily_adjusted(
                current_time as int,
                daily_et as int,
                daily_rain as int,
            ),
            all_wf(final(self).sectors@),
            no_negative_progress(final(self)@.sectors),
            final(self)@.state == old(self)@.state,
    {
        let new_week = match get_week_day_from_ts(current_time) {
            Weekday::Mon => true,
            _ => false,
        };
        adjust_daily_sector_progress(&mut self.sectors, daily_et, daily_rain, new_week);
        self.mode_wizard.daily_plan = calc_wizard_daily_plan(
            &self.sectors,
            current_time,
            self.timeframe,
            self.cfg.sector_transation_secs,
            self.cfg.min_watering_secs,
        );
        self.mode_auto.daily_plan = load_auto_schedule(&self.auto_schedule, current_time);
    }
}

} // verus!
