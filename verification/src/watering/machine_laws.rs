//! What holds of the machine at every tick boundary, and of signals that
//! undo each other.

use super::ds::{accrued, stamped, CtrlSignal, SectorInfo, WaterSector, WeatherSignal};
use super::modes::Mode;
use super::state_machine::{held_once, without, MachineView, StateView};
use super::watering_alg::{adjusted_all, all_wf, daily_loss};
use super::watering_system::{
    adjustment_due, after_daily_step, after_pass_of_loop, after_signal, commands_of_signal,
};
use super::WEEKLY_RESET_DEPTH;
use crate::sensors::interface::{one_valve_at_a_time, valve_after, ControlMessage};
use crate::utils::{fresh_catalog, keyed_by_id, sod_spec, weekday_of, Weekday};
use vstd::prelude::*;

verus! {

/// Whether no sector of the catalog has a negative progress.
pub open spec fn no_negative_progress(sectors: Seq<SectorInfo>) -> bool {
    forall|i: int| 0 <= i < sectors.len() ==> (#[trigger] sectors[i]).progress >= 0
}

/// Whether a watering machine is within the session of its sector at `now`:
/// the session has started and has not ended.
pub open spec fn in_session(state: StateView, now: int) -> bool {
    state matches StateView::Watering(sec) ==> sec.start <= now < sec.end()
}

/// Commands carried out one list after another keep to one valve at a time
/// if each list does, the second starting from the valve that the first
/// leaves open.
pub proof fn lemma_commands_in_sequence(
    valve: Option<u32>,
    first: Seq<ControlMessage>,
    second: Seq<ControlMessage>,
)
    requires
        one_valve_at_a_time(valve, first),
        one_valve_at_a_time(valve_after(valve, first), second),
    ensures
        one_valve_at_a_time(valve, first + second),
        valve_after(valve, first + second) == valve_after(valve_after(valve, first), second),
    decreases second.len(),
{
    if second.len() == 0 {
        assert(first + second =~= first);
    } else {
        let all = first + second;
        assert(all.drop_last() =~= first + second.drop_last());
        assert(all.last() == second.last());
        lemma_commands_in_sequence(valve, first, second.drop_last());
    }
}

/// One command keeps to one valve at a time if it opens a valve while none
/// is open, or closes the valve that is open.
proof fn lemma_one_command(valve: Option<u32>, command: ControlMessage)
    ensures
        one_valve_at_a_time(valve, seq![command]) <==> match command {
            ControlMessage::Activate(_) => valve is None,
            ControlMessage::Deactivate(id) => valve == Some(id),
        },
        valve_after(valve, seq![command]) == match command {
            ControlMessage::Activate(id) => Some(id),
            ControlMessage::Deactivate(_) => None::<u32>,
        },
{
    let commands = seq![command];
    assert(commands.drop_last() =~= Seq::<ControlMessage>::empty());
    assert(commands.last() == command);
    assert(one_valve_at_a_time(valve, commands.drop_last()));
    assert(valve_after(valve, commands.drop_last()) == valve);
}

/// At most one valve is open across a tick: the commands of the tick, sent
/// in order from the valve that the state before the tick has open, never
/// open a second valve, and leave open the valve of the state after.
pub proof fn lemma_tick_keeps_one_valve(machine: MachineView, now: i64)
    ensures
        one_valve_at_a_time(machine.state.energized(), machine.tick_commands(now)),
        valve_after(machine.state.energized(), machine.tick_commands(now)) == machine.ticked(
            now,
        ).state.energized(),
{
    let commands = machine.tick_commands(now);
    let valve = machine.state.energized();
    let rolled = machine.rolled(now as int);
    match machine.state {
        StateView::Watering(sec) => {
            if now >= sec.end() {
                match machine.next_in_cycle() {
                    Some(next) => {
                        let first = seq![ControlMessage::Deactivate(sec.id)];
                        let second = seq![ControlMessage::Activate(next.id)];
                        lemma_one_command(valve, ControlMessage::Deactivate(sec.id));
                        lemma_one_command(None, ControlMessage::Activate(next.id));
                        lemma_commands_in_sequence(valve, first, second);
                        assert(commands =~= first + second);
                        assert(rolled.next_in_cycle() == Some(next));
                    },
                    None => {
                        lemma_one_command(valve, ControlMessage::Deactivate(sec.id));
                        assert(rolled.next_in_cycle() is None);
                    },
                }
            }
        },
        StateView::Idle => {
            if rolled.starts_at(now as int) {
                lemma_one_command(valve, commands[0]);
                assert(commands =~= seq![commands[0]]);
            }
        },
        StateView::Paused(_, _) => {},
    }
}

/// At most one valve is open across the Idle transition.
pub proof fn lemma_start_keeps_one_valve(machine: MachineView, now: int)
    ensures
        one_valve_at_a_time(machine.state.energized(), machine.start_commands(now)),
        valve_after(machine.state.energized(), machine.start_commands(now)) == machine.started(
            now,
        ).state.energized(),
{
    let commands = machine.start_commands(now);
    if commands.len() > 0 {
        lemma_one_command(machine.state.energized(), commands[0]);
        assert(commands =~= seq![commands[0]]);
    }
}

/// At most one valve is open across the pause transition.
pub proof fn lemma_pause_keeps_one_valve(machine: MachineView, signal: WeatherSignal, now: i64)
    ensures
        one_valve_at_a_time(machine.state.energized(), machine.pause_commands()),
        valve_after(machine.state.energized(), machine.pause_commands()) == machine.paused_by(
            signal,
            now,
        ).state.energized(),
{
    let commands = machine.pause_commands();
    if commands.len() > 0 {
        lemma_one_command(machine.state.energized(), commands[0]);
        assert(commands =~= seq![commands[0]]);
    }
}

/// At most one valve is open across the resume transition.
pub proof fn lemma_resume_keeps_one_valve(machine: MachineView, signal: WeatherSignal, now: int)
    ensures
        one_valve_at_a_time(machine.state.energized(), machine.resume_commands(signal, now)),
        valve_after(machine.state.energized(), machine.resume_commands(signal, now))
            == machine.resumed_by(signal, now).state.energized(),
{
    let commands = machine.resume_commands(signal, now);
    if commands.len() > 0 {
        lemma_one_command(machine.state.energized(), commands[0]);
        assert(commands =~= seq![commands[0]]);
    }
}

/// At most one valve is open across a control signal.
pub proof fn lemma_signal_keeps_one_valve(machine: MachineView, signal: CtrlSignal, now: i64)
    ensures
        one_valve_at_a_time(machine.state.energized(), machine.signal_commands(signal, now as int)),
        valve_after(machine.state.energized(), machine.signal_commands(signal, now as int))
            == machine.signalled(signal, now).state.energized(),
{
    let commands = machine.signal_commands(signal, now as int);
    if commands.len() > 0 {
        lemma_one_command(machine.state.energized(), commands[0]);
        assert(commands =~= seq![commands[0]]);
    }
}

/// At most one valve is open at any time: over a whole pass of the loop the
/// commands handed out, sent in order from the valve that the state before
/// the pass has open, never open a valve while another is open and close
/// only the valve that is open, and the valve they leave open is that of the
/// state after the pass, which has one only while it is watering.
pub proof fn lemma_one_valve_at_a_time(
    machine: MachineView,
    last_day: int,
    now: i64,
    signal: Option<CtrlSignal>,
    daily_et: Option<i64>,
    daily_rain: Option<i64>,
)
    ensures
        ({
            let adjusted = after_daily_step(machine, last_day, now as int, daily_et, daily_rain);
            let heard = after_signal(adjusted, signal, now);
            let commands = commands_of_signal(adjusted, signal, now) + heard.tick_commands(now);
            let after = after_pass_of_loop(machine, last_day, now, signal, daily_et, daily_rain);
            &&& one_valve_at_a_time(machine.state.energized(), commands)
            &&& valve_after(machine.state.energized(), commands) == after.state.energized()
            &&& after.state.energized() is Some <==> after.state is Watering
        }),
{
    let adjusted = after_daily_step(machine, last_day, now as int, daily_et, daily_rain);
    let heard = after_signal(adjusted, signal, now);
    assert(adjusted.state == machine.state);
    match signal {
        Some(s) => {
            lemma_signal_keeps_one_valve(adjusted, s, now);
        },
        None => {},
    }
    lemma_tick_keeps_one_valve(heard, now);
    lemma_commands_in_sequence(
        machine.state.energized(),
        commands_of_signal(adjusted, signal, now),
        heard.tick_commands(now),
    );
}

/// What a tick leaves of a watering state. Where the machine waters a sector
/// after the tick at `now`, one of three things holds. The session went on,
/// and `now` is before its end. Or the machine was Idle and began the
/// session on this tick, and `now` is not before its start. Or another
/// session ended on this tick, no later than `now`, and the cycle moved on
/// to this one.
pub proof fn lemma_tick_and_session(machine: MachineView, now: i64)
    ensures
        machine.ticked(now).state matches StateView::Watering(sec) ==> {
            ||| machine.state == StateView::Watering(sec) && now < sec.end()
            ||| machine.state is Idle && sec.start <= now
            ||| machine.state matches StateView::Watering(ended) && ended.end() <= now
                && machine.next_in_cycle() == Some(sec)
        },
{
}

/// A machine that is within the session of its sector stays within it over
/// a tick that comes before the session's end: the session neither ends nor
/// changes.
pub proof fn lemma_session_goes_on(machine: MachineView, earlier: int, now: i64)
    requires
        machine.state is Watering,
        in_session(machine.state, earlier),
        earlier <= now,
        now < machine.state->Watering_0.end(),
    ensures
        machine.ticked(now).state == machine.state,
        in_session(machine.ticked(now).state, now as int),
{
}

/// A session that an Idle machine begins on a tick, and that has not ended
/// by then, is one that the machine is within after the tick.
pub proof fn lemma_session_begins_in_time(machine: MachineView, now: i64)
    requires
        machine.state is Idle,
        machine.ticked(now).state matches StateView::Watering(sec) && now < sec.end(),
    ensures
        in_session(machine.ticked(now).state, now as int),
{
}

/// A session ends on the first tick at or after its end: a machine that
/// waters a sector whose session has ended does not water it on after the
/// tick, unless the cycle hands the same element out again.
pub proof fn lemma_session_ends(machine: MachineView, now: i64)
    requires
        machine.state matches StateView::Watering(sec) && sec.end() <= now,
    ensures
        machine.tick_commands(now).len() > 0,
        machine.tick_commands(now)[0] == ControlMessage::Deactivate(
            machine.state->Watering_0.id,
        ),
        machine.tick_event(now) is Some,
        machine.ticked(now).state is Idle || machine.ticked(now).state == StateView::Watering(
            machine.next_in_cycle()->0,
        ),
{
}

pub proof fn lemma_stamped_keeps_progress(sectors: Seq<SectorInfo>, id: u32, time: i64)
    requires
        no_negative_progress(sectors),
    ensures
        no_negative_progress(stamped(sectors, id, time)),
{
    assert forall|i: int| 0 <= i < sectors.len() implies (#[trigger] stamped(
        sectors,
        id,
        time,
    )[i]).progress >= 0 by {
        assert(sectors[i].progress >= 0);
    }
}

pub proof fn lemma_accrued_keeps_progress(sectors: Seq<SectorInfo>, id: u32)
    requires
        no_negative_progress(sectors),
    ensures
        no_negative_progress(accrued(sectors, id)),
{
    assert forall|i: int| 0 <= i < sectors.len() implies (#[trigger] accrued(sectors, id)[i]).progress
        >= 0 by {
        assert(sectors[i].progress >= 0);
    }
}

/// No sector's progress turns negative over a tick.
pub proof fn lemma_tick_keeps_progress(machine: MachineView, now: i64)
    requires
        no_negative_progress(machine.sectors),
    ensures
        no_negative_progress(machine.ticked(now).sectors),
{
    match machine.state {
        StateView::Watering(sec) => {
            lemma_stamped_keeps_progress(machine.sectors, sec.id, now);
            lemma_accrued_keeps_progress(machine.sectors, sec.id);
        },
        _ => {},
    }
}

/// No sector's progress turns negative over a control signal.
pub proof fn lemma_signal_keeps_progress(machine: MachineView, signal: CtrlSignal, now: i64)
    requires
        no_negative_progress(machine.sectors),
    ensures
        no_negative_progress(machine.signalled(signal, now).sectors),
{
    match machine.state {
        StateView::Watering(sec) => {
            lemma_stamped_keeps_progress(machine.sectors, sec.id, now);
        },
        _ => {},
    }
}

/// No sector's progress is negative after the daily adjustment, whatever
/// it was before.
pub proof fn lemma_adjustment_leaves_no_negative_progress(
    sectors: Seq<SectorInfo>,
    daily_et: int,
    daily_rain: int,
    new_week: bool,
)
    ensures
        no_negative_progress(adjusted_all(sectors, daily_et, daily_rain, new_week)),
{
}

/// Progress is never negative: if no sector's progress is negative before a
/// pass of the loop, none is after it, whatever the time, the signal and
/// the day's figures.
pub proof fn lemma_progress_never_negative(
    machine: MachineView,
    last_day: int,
    now: i64,
    signal: Option<CtrlSignal>,
    daily_et: Option<i64>,
    daily_rain: Option<i64>,
)
    requires
        no_negative_progress(machine.sectors),
    ensures
        no_negative_progress(
            after_pass_of_loop(machine, last_day, now, signal, daily_et, daily_rain).sectors,
        ),
{
    let adjusted = after_daily_step(machine, last_day, now as int, daily_et, daily_rain);
    assert(no_negative_progress(adjusted.sectors));
    let heard = after_signal(adjusted, signal, now);
    match signal {
        Some(s) => {
            lemma_signal_keeps_progress(adjusted, s, now);
        },
        None => {},
    }
    lemma_tick_keeps_progress(heard, now);
}

/// A start signal and the stop signal that ends it undo each other. From a
/// machine in Wizard mode that waters `sec`, the start signal at `paused_at`
/// followed by its stop signal at `resumed_at` leads back to watering `sec`
/// if `resumed_at` is in the window, and to Idle if it is not. The start
/// signal sent twice and then the stop signal sent twice lead to the same
/// state.
pub proof fn lemma_pause_and_resume(
    machine: MachineView,
    sec: WaterSector,
    stop: WeatherSignal,
    paused_at: i64,
    resumed_at: i64,
)
    requires
        machine.current_mode == Mode::Wizard,
        machine.state == StateView::Watering(sec),
        stop.ends() is Some,
    ensures
        ({
            let start = stop.ends()->0;
            let once = machine.weathered(start, paused_at).weathered(stop, resumed_at);
            let twice = machine.weathered(start, paused_at).weathered(start, paused_at).weathered(
                stop,
                resumed_at,
            ).weathered(stop, resumed_at);
            &&& once.state == if machine.timeframe.contains(resumed_at as int) {
                StateView::Watering(sec)
            } else {
                StateView::Idle
            }
            &&& twice.state == once.state
            &&& machine.weathered(start, paused_at).state == StateView::Paused(
                Box::new(StateView::Watering(sec)),
                seq![start],
            )
        }),
{
    let start = stop.ends()->0;
    let held = seq![start];
    assert(held.drop_last() =~= Seq::<WeatherSignal>::empty());
    assert(without(held.drop_last(), start) =~= Seq::<WeatherSignal>::empty());
    assert(without(held, start) =~= Seq::<WeatherSignal>::empty());
    let paused = machine.weathered(start, paused_at);
    assert(paused.state == StateView::Paused(Box::new(StateView::Watering(sec)), held));
    assert(held[0] == start);
    assert(held.contains(start));
    let again = paused.weathered(start, paused_at);
    assert(again.state == paused.state);
    let once = paused.weathered(stop, resumed_at);
    let back = again.weathered(stop, resumed_at);
    assert(back.state == once.state);
    if machine.timeframe.contains(resumed_at as int) {
        assert(once.state == StateView::Watering(sec));
    } else {
        assert(once.state is Idle);
    }
}

/// A start signal that a paused machine holds already changes nothing.
pub proof fn lemma_duplicate_start_signal(machine: MachineView, signal: WeatherSignal, now: i64)
    requires
        machine.state matches StateView::Paused(_, signals) && signals.contains(signal),
    ensures
        machine.paused_by(signal, now) == machine,
        machine.pause_commands().len() == 0,
{
}

/// An Idle machine whose active mode has no plan stays Idle over a tick and
/// sends no command.
pub proof fn lemma_idle_without_plan(machine: MachineView, now: i64)
    requires
        machine.state is Idle,
        machine.active_plans().len() == 0,
    ensures
        machine.ticked(now).state is Idle,
        machine.tick_commands(now).len() == 0,
        machine.tick_event(now) is None,
        machine.ticked(now).sectors == machine.sectors,
{
}

/// A weather signal never pauses a machine that is not in Wizard mode: a
/// start signal leaves such a machine as it is.
pub proof fn lemma_no_pause_outside_wizard(machine: MachineView, signal: WeatherSignal, now: i64)
    requires
        machine.current_mode != Mode::Wizard,
        signal.is_start(),
    ensures
        machine.weathered(signal, now) == machine,
        machine.weather_commands(signal, now as int).len() == 0,
{
}

/// A change of mode touches nothing but the mode: the state, the cycle and
/// the valve stay as they are.
pub proof fn lemma_mode_change_leaves_session(machine: MachineView, mode: Mode, now: i64)
    ensures
        machine.signalled(CtrlSignal::ChgMode(mode), now).state == machine.state,
        machine.signalled(CtrlSignal::ChgMode(mode), now).cycle == machine.cycle,
        machine.signalled(CtrlSignal::ChgMode(mode), now).current_mode == mode,
        machine.signal_commands(CtrlSignal::ChgMode(mode), now as int).len() == 0,
{
}

/// The daily adjustment is made once a day: after the daily step at `now`
/// has set the marker to the day of `now`, the daily step at any time of
/// the same day changes nothing.
pub proof fn lemma_daily_step_once_a_day(
    machine: MachineView,
    last_day: int,
    now: int,
    later: int,
    daily_et: Option<i64>,
    daily_rain: Option<i64>,
    later_et: Option<i64>,
    later_rain: Option<i64>,
)
    requires
        sod_spec(later) == sod_spec(now),
    ensures
        after_daily_step(
            after_daily_step(machine, last_day, now, daily_et, daily_rain),
            sod_spec(now),
            later,
            later_et,
            later_rain,
        ) == after_daily_step(machine, last_day, now, daily_et, daily_rain),
{
}

/// The weekly reset is applied once, on the first daily step of a Monday.
/// That step lowers every sector's progress by the reset depth on top of the
/// day's loss, and no later step of the same day lowers it again. On any
/// other weekday no reset depth is taken.
pub proof fn lemma_weekly_reset_once(
    machine: MachineView,
    last_day: int,
    now: int,
    later: int,
    daily_et: Option<i64>,
    daily_rain: Option<i64>,
)
    requires
        adjustment_due(last_day, now),
        sod_spec(later) == sod_spec(now),
    ensures
        ({
            let first = after_daily_step(machine, last_day, now, daily_et, daily_rain);
            let monday = weekday_of(now) == Weekday::Mon;
            let et = match daily_et {
                Some(v) => v as int,
                None => 0,
            };
            let rain = match daily_rain {
                Some(v) => v as int,
                None => 0,
            };
            &&& first.sectors == adjusted_all(machine.sectors, et, rain, monday)
            &&& forall|i: int|
                0 <= i < machine.sectors.len() ==> daily_loss(
                    #[trigger] machine.sectors[i],
                    et,
                    rain,
                    monday,
                ) == daily_loss(machine.sectors[i], et, rain, false) + if monday {
                    WEEKLY_RESET_DEPTH as int
                } else {
                    0
                }
            &&& after_daily_step(first, sod_spec(now), later, daily_et, daily_rain).sectors
                == first.sectors
        }),
{
}

/// What is left when a signal is taken away holds a signal exactly if the
/// signals held it and it is not the signal taken.
pub proof fn lemma_without_holds(signals: Seq<WeatherSignal>, gone: WeatherSignal, s: WeatherSignal)
    ensures
        without(signals, gone).contains(s) <==> (signals.contains(s) && s != gone),
    decreases signals.len(),
{
    let left = without(signals, gone);
    if signals.len() > 0 {
        let head = signals.drop_last();
        let last = signals.last();
        let inner = without(head, gone);
        lemma_without_holds(head, gone, s);
        if left.contains(s) {
            let k = choose|k: int| 0 <= k < left.len() && left[k] == s;
            if last != gone && k == inner.len() {
                assert(signals[signals.len() - 1] == s);
            } else {
                assert(inner[k] == s);
                assert(inner.contains(s));
                assert(head.contains(s));
                let w = choose|w: int| 0 <= w < head.len() && head[w] == s;
                assert(signals[w] == s);
            }
        }
        if signals.contains(s) && s != gone {
            let w = choose|w: int| 0 <= w < signals.len() && signals[w] == s;
            if w < head.len() {
                assert(head[w] == s);
                assert(head.contains(s));
                assert(inner.contains(s));
                let k = choose|k: int| 0 <= k < inner.len() && inner[k] == s;
                assert(left[k] == s);
            } else {
                assert(left[left.len() - 1] == s);
            }
        }
    }
}

/// Taking a signal away from signals that are held once leaves signals that
/// are held once.
pub proof fn lemma_without(signals: Seq<WeatherSignal>, gone: WeatherSignal)
    requires
        held_once(signals),
    ensures
        held_once(without(signals, gone)),
    decreases signals.len(),
{
    let left = without(signals, gone);
    if signals.len() > 0 {
        let head = signals.drop_last();
        let last = signals.last();
        assert(held_once(head)) by {
            assert forall|i: int| 0 <= i < head.len() implies (#[trigger] head[i]).is_start() by {
                assert(head[i] == signals[i]);
            }
            assert forall|i: int, j: int| 0 <= i < j < head.len() implies head[i] != head[j] by {
                assert(head[i] == signals[i] && head[j] == signals[j]);
            }
        }
        lemma_without(head, gone);
        let inner = without(head, gone);
        if last != gone {
            assert(left == inner.push(last));
            assert forall|i: int| 0 <= i < left.len() implies (#[trigger] left[i]).is_start() by {
                if i < inner.len() {
                    assert(left[i] == inner[i]);
                } else {
                    assert(left[i] == signals[signals.len() - 1]);
                }
            }
            assert forall|i: int, j: int| 0 <= i < j < left.len() implies left[i] != left[j] by {
                assert(left[i] == inner[i]);
                if j < inner.len() {
                    assert(left[j] == inner[j]);
                } else {
                    assert(left[j] == last);
                    lemma_without_holds(head, gone, inner[i]);
                    assert(inner.contains(inner[i]));
                    assert(head.contains(inner[i]));
                    let w = choose|w: int| 0 <= w < head.len() && head[w] == inner[i];
                    assert(signals[w] == head[w]);
                    assert(signals[w] != signals[signals.len() - 1]);
                }
            }
        }
    }
}

/// A control signal leaves the state and the cycle in agreement.
pub proof fn lemma_signal_keeps_coherence(machine: MachineView, signal: CtrlSignal, now: i64)
    requires
        machine.coherent(),
    ensures
        machine.signalled(signal, now).coherent(),
{
    match signal {
        CtrlSignal::Weather(weather) => {
            match machine.state {
                StateView::Paused(prior, signals) => {
                    if weather.is_start() {
                        if machine.current_mode == Mode::Wizard && !signals.contains(weather) {
                            let more = signals.push(weather);
                            assert forall|i: int| 0 <= i < more.len() implies (
                            #[trigger] more[i]).is_start() by {
                                if i < signals.len() {
                                    assert(more[i] == signals[i]);
                                }
                            }
                            assert forall|i: int, j: int| 0 <= i < j < more.len() implies more[i]
                                != more[j] by {
                                assert(more[i] == signals[i]);
                                assert(signals.contains(signals[i]));
                                if j < signals.len() {
                                    assert(more[j] == signals[j]);
                                }
                            }
                        }
                    } else {
                        match weather.ends() {
                            Some(start) => {
                                lemma_without(signals, start);
                            },
                            None => {},
                        }
                    }
                },
                StateView::Watering(sec) => {
                    if weather.is_start() && machine.current_mode == Mode::Wizard {
                        let held = seq![weather];
                        assert(held[0] == weather);
                    }
                },
                StateView::Idle => {},
            }
        },
        _ => {},
    }
}

/// A tick leaves the state and the cycle in agreement.
pub proof fn lemma_tick_keeps_coherence(machine: MachineView, now: i64)
    requires
        machine.coherent(),
    ensures
        machine.ticked(now).coherent(),
{
}

/// The catalog stays valid and keyed by sector over a tick and over a
/// control signal.
pub proof fn lemma_catalog_stays_valid(machine: MachineView, signal: CtrlSignal, now: i64)
    requires
        all_wf(machine.sectors),
        keyed_by_id(machine.sectors),
    ensures
        all_wf(machine.ticked(now).sectors),
        keyed_by_id(machine.ticked(now).sectors),
        all_wf(machine.signalled(signal, now).sectors),
        keyed_by_id(machine.signalled(signal, now).sectors),
{
    match machine.state {
        StateView::Watering(sec) => {
            let marked = stamped(machine.sectors, sec.id, now);
            let gained = accrued(machine.sectors, sec.id);
            assert forall|i: int| 0 <= i < machine.sectors.len() implies (#[trigger] marked[i]).wf()
                && marked[i].id == machine.sectors[i].id by {
                assert(machine.sectors[i].wf());
            }
            assert forall|i: int| 0 <= i < machine.sectors.len() implies (#[trigger] gained[i]).wf()
                && gained[i].id == machine.sectors[i].id by {
                assert(machine.sectors[i].wf());
            }
            assert(keyed_by_id(marked)) by {
                assert forall|i: int, j: int| 0 <= i < j < marked.len() implies (
                #[trigger] marked[i]).id != (#[trigger] marked[j]).id by {
                    assert(machine.sectors[i].id != machine.sectors[j].id);
                }
            }
            assert(keyed_by_id(gained)) by {
                assert forall|i: int, j: int| 0 <= i < j < gained.len() implies (
                #[trigger] gained[i]).id != (#[trigger] gained[j]).id by {
                    assert(machine.sectors[i].id != machine.sectors[j].id);
                }
            }
        },
        _ => {},
    }
}

/// The daily adjustment leaves the catalog valid and keyed by sector.
pub proof fn lemma_adjustment_keeps_catalog(
    sectors: Seq<SectorInfo>,
    daily_et: int,
    daily_rain: int,
    new_week: bool,
)
    requires
        all_wf(sectors),
        keyed_by_id(sectors),
    ensures
        all_wf(adjusted_all(sectors, daily_et, daily_rain, new_week)),
        keyed_by_id(adjusted_all(sectors, daily_et, daily_rain, new_week)),
{
    let after = adjusted_all(sectors, daily_et, daily_rain, new_week);
    assert forall|i: int| 0 <= i < sectors.len() implies (#[trigger] after[i]).wf() && after[i].id
        == sectors[i].id by {
        assert(sectors[i].wf());
    }
    assert forall|i: int, j: int| 0 <= i < j < after.len() implies (#[trigger] after[i]).id != (
    #[trigger] after[j]).id by {
        assert(sectors[i].id != sectors[j].id);
    }
}

/// A well-formed machine stays well formed over a pass of the loop,
/// whatever the signal and the day's figures, at any time from which the
/// window can still be rolled on.
pub proof fn lemma_pass_keeps_machine_well_formed(
    machine: MachineView,
    last_day: int,
    now: i64,
    signal: Option<CtrlSignal>,
    daily_et: Option<i64>,
    daily_rain: Option<i64>,
)
    requires
        machine.wf(),
        now + 86_399 <= i64::MAX,
    ensures
        after_pass_of_loop(machine, last_day, now, signal, daily_et, daily_rain).wf(),
{
    let adjusted = after_daily_step(machine, last_day, now as int, daily_et, daily_rain);
    if adjustment_due(last_day, now as int) {
        lemma_adjustment_keeps_catalog(
            machine.sectors,
            match daily_et {
                Some(v) => v as int,
                None => 0,
            },
            match daily_rain {
                Some(v) => v as int,
                None => 0,
            },
            weekday_of(now as int) == Weekday::Mon,
        );
    }
    assert(adjusted.wf());
    let heard = after_signal(adjusted, signal, now);
    match signal {
        Some(s) => {
            lemma_signal_keeps_coherence(adjusted, s, now);
            lemma_catalog_stays_valid(adjusted, s, now);
        },
        None => {},
    }
    assert(heard.wf());
    lemma_tick_keeps_coherence(heard, now);
    lemma_catalog_stays_valid(heard, CtrlSignal::StopMachine, now);
}

/// A machine at rest over a valid list of sectors is well formed.
pub proof fn lemma_new_machine_is_well_formed(machine: MachineView, sectors: Seq<SectorInfo>)
    requires
        machine.sectors == fresh_catalog(sectors),
        all_wf(sectors),
        machine.timeframe.wf(),
        machine.state is Idle,
        machine.cycle is None,
    ensures
        machine.wf(),
{
    lemma_fresh_catalog(sectors);
}

/// The catalog made of a valid list of sectors is valid and keyed by
/// sector, and every entry starts without progress.
pub proof fn lemma_fresh_catalog(sectors: Seq<SectorInfo>)
    requires
        all_wf(sectors),
    ensures
        all_wf(fresh_catalog(sectors)),
        keyed_by_id(fresh_catalog(sectors)),
        forall|i: int|
            0 <= i < fresh_catalog(sectors).len() ==> (#[trigger] fresh_catalog(
                sectors,
            )[i]).progress == 0,
    decreases sectors.len(),
{
    if sectors.len() > 0 {
        let head = sectors.drop_last();
        assert(all_wf(head)) by {
            assert forall|i: int| 0 <= i < head.len() implies (#[trigger] head[i]).wf() by {
                assert(head[i] == sectors[i]);
            }
        }
        lemma_fresh_catalog(head);
        let before = fresh_catalog(head);
        let entry = SectorInfo { progress: 0, ..sectors.last() };
        assert(sectors.last().wf());
        let after = fresh_catalog(sectors);
        if exists|i: int| 0 <= i < before.len() && (#[trigger] before[i]).id == entry.id {
            assert forall|i: int| 0 <= i < after.len() implies (#[trigger] after[i]).wf()
                && after[i].progress == 0 && after[i].id == before[i].id by {
                assert(before[i].wf());
            }
            assert forall|i: int, j: int| 0 <= i < j < after.len() implies (#[trigger] after[i]).id
                != (#[trigger] after[j]).id by {
                assert(before[i].id != before[j].id);
            }
        } else {
            assert forall|i: int| 0 <= i < after.len() implies (#[trigger] after[i]).wf()
                && after[i].progress == 0 by {
                if i < before.len() {
                    assert(after[i] == before[i]);
                    assert(before[i].wf());
                }
            }
            assert forall|i: int, j: int| 0 <= i < j < after.len() implies (#[trigger] after[i]).id
                != (#[trigger] after[j]).id by {
                assert(after[i] == before[i]);
                if j < before.len() {
                    assert(after[j] == before[j]);
                    assert(before[i].id != before[j].id);
                } else {
                    assert(before[i].id != entry.id);
                }
            }
        }
    }
}

} // verus!
