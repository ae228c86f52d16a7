//! The adaptive planner: weekly water targets turned into the sessions of the
//! next day that needs one, and the daily correction of every sector's
//! progress.

use super::ds::{plans_view, DailyPlan, SectorInfo, WaterSector};
use super::plan_laws::{lemma_day_plans, lemma_generated_plans_are_orderly, orderly};
use super::water_window::WaterWin;
use super::{DAILY_PERCOLATION_FACTOR, WEEKLY_RESET_DEPTH};
use crate::utils::{get_week_day_from_ts, in_calendar_range, weekday_of};
use vstd::prelude::*;

verus! {

/// Seconds left between two consecutive sectors of a plan by default.
pub const SECTOR_TRANSITION_SECS: i64 = 20;

/// Shortest session that is worth scheduling by default, in seconds.
pub const MIN_WATERING_SECS: i64 = 300;

/// Depth that percolation takes from a sector in a day.
pub open spec fn daily_percolation(sector: SectorInfo) -> int {
    sector.percolation_rate * DAILY_PERCOLATION_FACTOR
}

/// Depth by which a day lowers a sector's progress: evapotranspiration less
/// rain, the sector's percolation where that is positive, and the weekly
/// reset depth on the first day of a week.
pub open spec fn daily_loss(sector: SectorInfo, daily_et: int, daily_rain: int, new_week: bool)
    -> int {
    daily_et - daily_rain + (if new_week {
        WEEKLY_RESET_DEPTH as int
    } else {
        0
    }) + (if daily_percolation(sector) > 0 {
        daily_percolation(sector)
    } else {
        0
    })
}

/// A sector after the daily correction: progress less the day's loss, and
/// never below zero.
pub open spec fn adjusted(sector: SectorInfo, daily_et: int, daily_rain: int, new_week: bool)
    -> SectorInfo {
    sector.credited(-daily_loss(sector, daily_et, daily_rain, new_week))
}

/// Every sector after the daily correction.
pub open spec fn adjusted_all(
    sectors: Seq<SectorInfo>,
    daily_et: int,
    daily_rain: int,
    new_week: bool,
) -> Seq<SectorInfo> {
    Seq::new(sectors.len(), |i: int| adjusted(sectors[i], daily_et, daily_rain, new_week))
}

/// Seconds of watering that close a sector's need, capped at its longest
/// session; nothing where the target is met.
pub open spec fn irrigation_time(sector: SectorInfo) -> Option<int> {
    if sector.need() <= 0 {
        None
    } else {
        let full = (sector.need() + sector.sprinkler_debit - 1) / (sector.sprinkler_debit as int);
        Some(if full < sector.max_duration {
            full
        } else {
            sector.max_duration as int
        })
    }
}

/// Days of the week that are left, today included: seven on a Sunday down to
/// one on a Saturday.
pub open spec fn remaining_days(current_time: int) -> int {
    7 - weekday_of(current_time).index_from_sunday()
}

/// Whether a sector cannot reach its target any more if it is left out
/// today, with `remaining` days left.
pub open spec fn must_water(sector: SectorInfo, remaining: int) -> bool {
    sector.need() > sector.daily_capacity() * (remaining - 1)
}

/// Whether a sector cannot reach its target with one full session on each
/// of the `remaining` days.
pub open spec fn over_capacity(sector: SectorInfo, remaining: int) -> bool {
    sector.need() > sector.daily_capacity() * remaining
}

/// The session that a pass gives a sector, in seconds: its irrigation time
/// if it must be watered today and that time is not under `min_secs`.
pub open spec fn session(sector: SectorInfo, remaining: int, min_secs: int) -> Option<int> {
    if must_water(sector, remaining) {
        match irrigation_time(sector) {
            Some(t) => if t < min_secs {
                None
            } else {
                Some(t)
            },
            None => None,
        }
    } else {
        None
    }
}

/// A sector after a pass: credited with the water of its session, if it got
/// one.
pub open spec fn after_session(sector: SectorInfo, remaining: int, min_secs: int) -> SectorInfo {
    match session(sector, remaining, min_secs) {
        Some(t) => sector.credited(t * sector.sprinkler_debit),
        None => sector,
    }
}

/// Every sector after a pass.
pub open spec fn after_pass(sectors: Seq<SectorInfo>, remaining: int, min_secs: int) -> Seq<
    SectorInfo,
> {
    Seq::new(sectors.len(), |i: int| after_session(sectors[i], remaining, min_secs))
}

/// Whether some sector is over capacity.
pub open spec fn needs_evening(sectors: Seq<SectorInfo>, remaining: int) -> bool {
    exists|i: int| 0 <= i < sectors.len() && over_capacity(#[trigger] sectors[i], remaining)
}

/// Whether some sector still has a need.
pub open spec fn any_need(sectors: Seq<SectorInfo>) -> bool {
    exists|i: int| 0 <= i < sectors.len() && (#[trigger] sectors[i]).need() > 0
}

/// The morning plan: sessions packed against `cursor`, the last sector's
/// session ending there and each earlier one ending `slack` seconds before
/// the next begins. The plan lists them in the order of the sectors, which
/// is the order of their starts.
pub open spec fn morning_plan(
    sectors: Seq<SectorInfo>,
    remaining: int,
    min_secs: int,
    slack: int,
    cursor: int,
) -> Seq<WaterSector>
    decreases sectors.len(),
{
    if sectors.len() == 0 {
        Seq::empty()
    } else {
        let sector = sectors.last();
        match session(sector, remaining, min_secs) {
            Some(t) => morning_plan(
                sectors.drop_last(),
                remaining,
                min_secs,
                slack,
                cursor - t - slack,
            ).push(WaterSector { id: sector.id, start: (cursor - t) as i64, duration: t as i64 }),
            None => morning_plan(sectors.drop_last(), remaining, min_secs, slack, cursor),
        }
    }
}

/// The evening plan: sessions laid out from `cursor` onwards in the order of
/// the sectors, each beginning `slack` seconds after the one before has
/// ended.
pub open spec fn evening_plan(
    sectors: Seq<SectorInfo>,
    remaining: int,
    min_secs: int,
    slack: int,
    cursor: int,
) -> Seq<WaterSector>
    decreases sectors.len(),
{
    if sectors.len() == 0 {
        Seq::empty()
    } else {
        let sector = sectors.first();
        match session(sector, remaining, min_secs) {
            Some(t) => seq![WaterSector { id: sector.id, start: cursor as i64, duration: t as i64 }]
                + evening_plan(
                sectors.drop_first(),
                remaining,
                min_secs,
                slack,
                cursor + t + slack,
            ),
            None => evening_plan(sectors.drop_first(), remaining, min_secs, slack, cursor),
        }
    }
}

/// The plan of one pass over `window`: packed against the window's last
/// second in the morning, laid out from its first second in the evening.
pub open spec fn pass_plan(
    sectors: Seq<SectorInfo>,
    window: WaterWin,
    remaining: int,
    morning: bool,
    slack: int,
    min_secs: int,
) -> Seq<WaterSector> {
    if morning {
        morning_plan(sectors, remaining, min_secs, slack, window.day_end_time as int)
    } else {
        evening_plan(sectors, remaining, min_secs, slack, window.day_start_time as int)
    }
}

/// The plans of one day with `remaining` days left, for the window that
/// runs from `start` to `end`. The morning pass packs its sessions against
/// `end`. If a sector is still over capacity after it, an evening pass
/// follows on the credited sectors, from the start of the next day's
/// window. Each pass that has a session gives one plan.
pub open spec fn day_plans(
    sectors: Seq<SectorInfo>,
    remaining: int,
    start: int,
    end: int,
    slack: int,
    min_secs: int,
) -> Seq<Seq<WaterSector>> {
    let morning = morning_plan(sectors, remaining, min_secs, slack, end);
    let after = after_pass(sectors, remaining, min_secs);
    let evening = if needs_evening(after, remaining) {
        evening_plan(after, remaining, min_secs, slack, start + 86_400)
    } else {
        Seq::empty()
    };
    (if morning.len() > 0 {
        seq![morning]
    } else {
        Seq::empty()
    }) + (if evening.len() > 0 {
        seq![evening]
    } else {
        Seq::empty()
    })
}

/// The plans of the first day that has any, looking from the day with
/// `remaining` days left to the last day of the week. The window moves on by
/// a day with each day looked at.
pub open spec fn plans_ahead(
    sectors: Seq<SectorInfo>,
    remaining: int,
    start: int,
    end: int,
    slack: int,
    min_secs: int,
) -> Seq<Seq<WaterSector>>
    decreases remaining,
{
    if remaining <= 0 {
        Seq::empty()
    } else {
        let today = day_plans(sectors, remaining, start, end, slack, min_secs);
        if today.len() > 0 {
            today
        } else {
            plans_ahead(sectors, remaining - 1, start + 86_400, end + 86_400, slack, min_secs)
        }
    }
}

/// What the planner gives: nothing while no sector has a need, and else
/// the plans of the first day that has any.
pub open spec fn generated_plans(
    sectors: Seq<SectorInfo>,
    remaining: int,
    window: WaterWin,
    slack: int,
    min_secs: int,
) -> Seq<Seq<WaterSector>> {
    if any_need(sectors) {
        plans_ahead(
            sectors,
            remaining,
            window.day_start_time as int,
            window.day_end_time as int,
            slack,
            min_secs,
        )
    } else {
        Seq::empty()
    }
}

/// Whether every sector of the sequence meets the sector invariants.
pub open spec fn all_wf(sectors: Seq<SectorInfo>) -> bool {
    forall|i: int| 0 <= i < sectors.len() ==> (#[trigger] sectors[i]).wf()
}

/// Whether the starts of a plan for `count` sectors, packed into `window` or
/// the windows of the `days` days after it, can be held: a session takes a
/// day at most, and `slack` seconds follow it.
pub open spec fn packing_fits(count: int, window: WaterWin, slack: int, days: int) -> bool {
    &&& 0 <= slack
    &&& window.day_start_time <= window.day_end_time
    &&& window.day_start_time - count * (86_400 + slack) >= i64::MIN
    &&& window.day_end_time + days * 86_400 + count * (86_400 + slack) <= i64::MAX
}

/// Whether every sector meets the sector invariants.
pub fn sectors_are_valid(sectors: &Vec<SectorInfo>) -> (r: bool)
    ensures
        r == all_wf(sectors@),
{
    let n = sectors.len();
    let mut i: usize = 0;
    while i < n
        invariant
            i <= n,
            n == sectors@.len(),
            forall|j: int| 0 <= j < i ==> (#[trigger] sectors@[j]).wf(),
        decreases n - i,
    {
        let sector = &sectors[i];
        if !(sector.progress >= 0 && 0 < sector.max_duration && sector.max_duration <= 86_400
            && sector.sprinkler_debit > 0 && sector.percolation_rate >= 0) {
            return false;
        }
        i += 1;
    }
    true
}

/// Whether the starts of a plan for `count` sectors can be held.
pub fn packing_is_possible(count: usize, window: &WaterWin, slack: i64, days: i64) -> (r: bool)
    requires
        0 <= days <= 7,
    ensures
        r == packing_fits(count as int, *window, slack as int, days as int),
{
    if slack < 0 || window.day_start_time > window.day_end_time {
        return false;
    }
    let count = count as i128;
    let step: i128 = 86_400 + slack as i128;
    if count > 0x1_0000_0000_0000i128 {
        assert(count * step > 0x1_0000_0000_0000 * 86_400) by (nonlinear_arith)
            requires
                count > 0x1_0000_0000_0000,
                step >= 86_400,
        ;
        return false;
    }
    assert(0 <= count * step <= 0x1_0000_0000_0000 * (86_400 + i64::MAX)) by (nonlinear_arith)
        requires
            0 <= count <= 0x1_0000_0000_0000,
            86_400 <= step <= 86_400 + i64::MAX,
    ;
    let span: i128 = count * step;
    window.day_start_time as i128 - span >= -9_223_372_036_854_775_808i128
        && window.day_end_time as i128 + days as i128 * 86_400 + span
        <= 9_223_372_036_854_775_807i128
}

/// Depth that percolation takes from a sector in a day.
pub fn calc_daily_percolation(sector: &SectorInfo) -> (r: i64)
    requires
        i64::MIN <= daily_percolation(*sector) <= i64::MAX,
    ensures
        r == daily_percolation(*sector),
{
    sector.percolation_rate * DAILY_PERCOLATION_FACTOR
}

/// Applies the daily correction to every sector: progress falls by the
/// day's loss and stops at zero.
pub fn adjust_daily_sector_progress(
    sectors: &mut Vec<SectorInfo>,
    daily_et: i64,
    daily_rain: i64,
    new_week: bool,
)
    ensures
        final(sectors)@ == adjusted_all(old(sectors)@, daily_et as int, daily_rain as int, new_week),
        forall|i: int| 0 <= i < final(sectors)@.len() ==> (#[trigger] final(sectors)@[i]).progress >= 0,
        all_wf(old(sectors)@) ==> all_wf(final(sectors)@),
{
    let ghost before = sectors@;
    let base: i128 = daily_et as i128 - daily_rain as i128 + if new_week {
        WEEKLY_RESET_DEPTH as i128
    } else {
        0i128
    };
    let n = sectors.len();
    let mut i: usize = 0;
    while i < n
        invariant
            i <= n,
            n == before.len(),
            sectors@.len() == n,
            base == daily_et - daily_rain + (if new_week {
                WEEKLY_RESET_DEPTH as int
            } else {
                0
            }),
            forall|j: int| 0 <= j < i ==> sectors@[j] == adjusted(
                before[j],
                daily_et as int,
                daily_rain as int,
                new_week,
            ),
            forall|j: int| i <= j < n ==> sectors@[j] == before[j],
        decreases n - i,
    {
        let mut sector = sectors[i];
        let percolation: i128 = sector.percolation_rate as i128 * DAILY_PERCOLATION_FACTOR as i128;
        let loss: i128 = base + if percolation > 0 {
            percolation
        } else {
            0
        };
        sector.credit(-loss);
        sectors.set(i, sector);
        i += 1;
    }
    assert(sectors@ =~= adjusted_all(before, daily_et as int, daily_rain as int, new_week));
}

/// Seconds of watering that close the sector's need, capped at its longest
/// session; nothing where the target is met.
pub fn calc_irrigation_time(sector: &SectorInfo) -> (r: Option<i64>)
    requires
        sector.sprinkler_debit > 0,
    ensures
        r is Some <==> irrigation_time(*sector) is Some,
        r matches Some(t) ==> irrigation_time(*sector) == Some(t as int),
        r matches Some(t) ==> (sector.max_duration > 0 ==> 0 < t <= sector.max_duration),
{
    if sector.weekly_target <= sector.progress {
        return None;
    }
    let need: i128 = sector.weekly_target as i128 - sector.progress as i128;
    let debit: i128 = sector.sprinkler_debit as i128;
    let full: i128 = (need + debit - 1) / debit;
    assert(full >= 1) by (nonlinear_arith)
        requires
            need >= 1,
            debit >= 1,
            full == (need + debit - 1) / (debit as int),
    ;
    if full < sector.max_duration as i128 {
        Some(full as i64)
    } else {
        Some(sector.max_duration)
    }
}

/// Days of the week that are left, today included.
pub fn calculate_remaining_days(current_time: i64) -> (r: i64)
    requires
        in_calendar_range(current_time as int),
    ensures
        r == remaining_days(current_time as int),
        1 <= r <= 7,
{
    7 - get_week_day_from_ts(current_time).num_days_from_sunday() as i64
}

/// The session that a pass gives a sector, in seconds.
fn session_for(sector: &SectorInfo, remaining_days: i64, min_secs: i64) -> (r: Option<i64>)
    requires
        sector.wf(),
        0 <= remaining_days <= 7,
    ensures
        r is Some <==> session(*sector, remaining_days as int, min_secs as int) is Some,
        r matches Some(t) ==> session(*sector, remaining_days as int, min_secs as int) == Some(
            t as int,
        ) && 0 < t <= sector.max_duration && min_secs <= t,
{
    let need: i128 = if sector.weekly_target > sector.progress {
        sector.weekly_target as i128 - sector.progress as i128
    } else {
        0
    };
    assert(0 <= sector.max_duration * sector.sprinkler_debit <= 86_400 * i64::MAX)
        by (nonlinear_arith)
        requires
            0 < sector.max_duration <= 86_400,
            0 < sector.sprinkler_debit <= i64::MAX,
    ;
    let capacity: i128 = sector.max_duration as i128 * sector.sprinkler_debit as i128;
    let spare: i128 = remaining_days as i128 - 1;
    assert(-86_400 * i64::MAX <= capacity * spare <= 6 * 86_400 * i64::MAX) by (nonlinear_arith)
        requires
            0 <= capacity <= 86_400 * i64::MAX,
            -1 <= spare <= 6,
    ;
    if need > capacity * spare {
        match calc_irrigation_time(sector) {
            Some(t) => if t < min_secs {
                None
            } else {
                Some(t)
            },
            None => None,
        }
    } else {
        None
    }
}

/// Whether some sector cannot reach its target with one full session on
/// each of the remaining days.
fn any_over_capacity(sectors: &Vec<SectorInfo>, remaining_days: i64) -> (r: bool)
    requires
        all_wf(sectors@),
        0 <= remaining_days <= 7,
    ensures
        r == needs_evening(sectors@, remaining_days as int),
{
    let n = sectors.len();
    let mut i: usize = 0;
    while i < n
        invariant
            i <= n,
            n == sectors@.len(),
            all_wf(sectors@),
            0 <= remaining_days <= 7,
            forall|j: int| 0 <= j < i ==> !over_capacity(#[trigger] sectors@[j], remaining_days as int),
        decreases n - i,
    {
        let sector = sectors[i];
        let need: i128 = if sector.weekly_target > sector.progress {
            sector.weekly_target as i128 - sector.progress as i128
        } else {
            0
        };
        assert(0 <= sector.max_duration * sector.sprinkler_debit <= 86_400 * i64::MAX)
            by (nonlinear_arith)
            requires
                0 < sector.max_duration <= 86_400,
                0 < sector.sprinkler_debit <= i64::MAX,
        ;
        let capacity: i128 = sector.max_duration as i128 * sector.sprinkler_debit as i128;
        assert(0 <= capacity * remaining_days <= 7 * 86_400 * i64::MAX) by (nonlinear_arith)
            requires
                0 <= capacity <= 86_400 * i64::MAX,
                0 <= remaining_days <= 7,
        ;
        if need > capacity * remaining_days as i128 {
            return true;
        }
        i += 1;
    }
    false
}

/// Whether some sector still has a need.
fn any_sector_in_need(sectors: &Vec<SectorInfo>) -> (r: bool)
    ensures
        r == any_need(sectors@),
{
    let n = sectors.len();
    let mut i: usize = 0;
    while i < n
        invariant
            i <= n,
            n == sectors@.len(),
            forall|j: int| 0 <= j < i ==> (#[trigger] sectors@[j]).need() <= 0,
        decreases n - i,
    {
        if sectors[i].weekly_target > sectors[i].progress {
            return true;
        }
        i += 1;
    }
    false
}

/// One pass over the sectors for one day. Every sector that must be watered
/// today, and whose irrigation time is not under `min_secs`, gets a session
/// and is credited with its water at once. A morning pass packs the
/// sessions against the end of `timeframe`, an evening pass lays them out
/// from its start. Returns whether some sector is still over capacity after
/// the pass, and the plan if it has a session.
pub fn get_next_watering_for_day(
    sectors: &mut Vec<SectorInfo>,
    timeframe: &WaterWin,
    remaining_days: i64,
    morning: bool,
    slack: i64,
    min_secs: i64,
) -> (r: (bool, Option<DailyPlan>))
    requires
        all_wf(old(sectors)@),
        0 <= remaining_days <= 7,
        packing_fits(old(sectors)@.len() as int, *timeframe, slack as int, 0),
    ensures
        final(sectors)@ == after_pass(old(sectors)@, remaining_days as int, min_secs as int),
        all_wf(final(sectors)@),
        r.0 == needs_evening(final(sectors)@, remaining_days as int),
        r.1 is Some <==> pass_plan(
            old(sectors)@,
            *timeframe,
            remaining_days as int,
            morning,
            slack as int,
            min_secs as int,
        ).len() > 0,
        r.1 matches Some(p) ==> p@ == pass_plan(
            old(sectors)@,
            *timeframe,
            remaining_days as int,
            morning,
            slack as int,
            min_secs as int,
        ),
{
    let ghost before = sectors@;
    let ghost rem = remaining_days as int;
    let ghost min = min_secs as int;
    let n = sectors.len();
    let mut plan: Vec<WaterSector> = Vec::new();
    if morning {
        let mut cursor: i64 = timeframe.day_end_time;
        let mut i: usize = n;
        proof {
            let whole = morning_plan(before, rem, min, slack as int, cursor as int);
            assert(before.subrange(0, n as int) =~= before);
            assert(whole + plan@ =~= whole);
        }
        while i > 0
            invariant
                i <= n,
                n == before.len(),
                sectors@.len() == n,
                all_wf(before),
                0 <= remaining_days <= 7,
                rem == remaining_days,
                min == min_secs,
                0 <= slack,
                timeframe.day_end_time - n * (86_400 + slack) >= i64::MIN,
                timeframe.day_end_time - (n - i) * (86_400 + slack) <= cursor <= timeframe.day_end_time,
                forall|j: int| 0 <= j < i ==> sectors@[j] == before[j],
                forall|j: int| i <= j < n ==> sectors@[j] == after_session(before[j], rem, min),
                morning_plan(before, rem, min, slack as int, timeframe.day_end_time as int)
                    == morning_plan(before.subrange(0, i as int), rem, min, slack as int, cursor as int)
                    + plan@,
            decreases i,
        {
            let ghost prefix = before.subrange(0, i as int);
            let ghost old_plan = plan@;
            let ghost old_cursor = cursor as int;
            i -= 1;
            let mut sector = sectors[i];
            proof {
                assert(prefix.last() == before[i as int]);
                assert(prefix.drop_last() =~= before.subrange(0, i as int));
                assert((n - i) * (86_400 + slack) == (n - (i + 1)) * (86_400 + slack) + (86_400
                    + slack)) by (nonlinear_arith);
                assert(i * (86_400 + slack) >= 0) by (nonlinear_arith)
                    requires
                        i >= 0,
                        slack >= 0,
                ;
                assert(n * (86_400 + slack) == (n - i) * (86_400 + slack) + i * (86_400 + slack))
                    by (nonlinear_arith);
            }
            match session_for(&sector, remaining_days, min_secs) {
                Some(t) => {
                    let start = cursor - t;
                    let element = WaterSector::new(sector.id, start, t);
                    plan.insert(0, element);
                    assert(0 <= t * sector.sprinkler_debit <= 86_400 * i64::MAX)
                        by (nonlinear_arith)
                        requires
                            0 < t <= 86_400,
                            0 < sector.sprinkler_debit <= i64::MAX,
                    ;
                    sector.credit(t as i128 * sector.sprinkler_debit as i128);
                    sectors.set(i, sector);
                    cursor = start - slack;
                    proof {
                        let rest = morning_plan(
                            before.subrange(0, i as int),
                            rem,
                            min,
                            slack as int,
                            cursor as int,
                        );
                        assert(morning_plan(prefix, rem, min, slack as int, old_cursor)
                            == rest.push(element));
                        assert(rest.push(element) + old_plan =~= rest + plan@);
                    }
                },
                None => {},
            }
        }
        proof {
            assert(before.subrange(0, 0) =~= Seq::<SectorInfo>::empty());
            assert(morning_plan(before, rem, min, slack as int, timeframe.day_end_time as int)
                =~= plan@);
        }
    } else {
        let mut cursor: i64 = timeframe.day_start_time;
        let mut i: usize = 0;
        proof {
            let whole = evening_plan(before, rem, min, slack as int, cursor as int);
            assert(before.subrange(0, n as int) =~= before);
            assert(plan@ + whole =~= whole);
        }
        while i < n
            invariant
                i <= n,
                n == before.len(),
                sectors@.len() == n,
                all_wf(before),
                0 <= remaining_days <= 7,
                rem == remaining_days,
                min == min_secs,
                0 <= slack,
                timeframe.day_start_time + n * (86_400 + slack) <= i64::MAX,
                timeframe.day_start_time <= cursor <= timeframe.day_start_time + i * (86_400 + slack),
                forall|j: int| 0 <= j < i ==> sectors@[j] == after_session(before[j], rem, min),
                forall|j: int| i <= j < n ==> sectors@[j] == before[j],
                evening_plan(before, rem, min, slack as int, timeframe.day_start_time as int)
                    == plan@ + evening_plan(
                    before.subrange(i as int, n as int),
                    rem,
                    min,
                    slack as int,
                    cursor as int,
                ),
            decreases n - i,
        {
            let ghost suffix = before.subrange(i as int, n as int);
            let ghost old_plan = plan@;
            let ghost old_cursor = cursor as int;
            let mut sector = sectors[i];
            proof {
                assert(suffix.first() == before[i as int]);
                assert(suffix.drop_first() =~= before.subrange(i + 1, n as int));
                assert((i + 1) * (86_400 + slack) == i * (86_400 + slack) + (86_400 + slack))
                    by (nonlinear_arith);
                assert((n - (i + 1)) * (86_400 + slack) >= 0) by (nonlinear_arith)
                    requires
                        n - (i + 1) >= 0,
                        slack >= 0,
                ;
                assert(n * (86_400 + slack) == (i + 1) * (86_400 + slack) + (n - (i + 1)) * (
                86_400 + slack)) by (nonlinear_arith);
            }
            match session_for(&sector, remaining_days, min_secs) {
                Some(t) => {
                    let element = WaterSector::new(sector.id, cursor, t);
                    plan.push(element);
                    assert(0 <= t * sector.sprinkler_debit <= 86_400 * i64::MAX)
                        by (nonlinear_arith)
                        requires
                            0 < t <= 86_400,
                            0 < sector.sprinkler_debit <= i64::MAX,
                    ;
                    sector.credit(t as i128 * sector.sprinkler_debit as i128);
                    sectors.set(i, sector);
                    cursor = cursor + t + slack;
                    proof {
                        let rest = evening_plan(
                            before.subrange(i + 1, n as int),
                            rem,
                            min,
                            slack as int,
                            cursor as int,
                        );
                        assert(evening_plan(suffix, rem, min, slack as int, old_cursor)
                            == seq![element] + rest);
                        assert(old_plan + (seq![element] + rest) =~= plan@ + rest);
                    }
                },
                None => {},
            }
            i += 1;
        }
        proof {
            assert(before.subrange(n as int, n as int) =~= Seq::<SectorInfo>::empty());
            assert(evening_plan(before, rem, min, slack as int, timeframe.day_start_time as int)
                =~= plan@);
        }
    }
    assert(sectors@ =~= after_pass(before, rem, min));
    let need_evening = any_over_capacity(sectors, remaining_days);
    if plan.len() > 0 {
        (need_evening, Some(DailyPlan(plan)))
    } else {
        (need_evening, None)
    }
}

/// Plans the sessions of the first day that needs any, from the day with
/// `remaining_days` left onwards. `timeframe` is the window of that first
/// day.
pub fn generate_daily_plan(
    sectors: &Vec<SectorInfo>,
    remaining_days: i64,
    timeframe: WaterWin,
    slack: i64,
    min_secs: i64,
) -> (plans: Vec<DailyPlan>)
    requires
        all_wf(sectors@),
        0 <= remaining_days <= 7,
        packing_fits(sectors@.len() as int, timeframe, slack as int, remaining_days as int),
    ensures
        plans_view(plans@) == generated_plans(
            sectors@,
            remaining_days as int,
            timeframe,
            slack as int,
            min_secs as int,
        ),
        plans@.len() <= 2,
        forall|p: int|
            0 <= p < plans@.len() ==> orderly(
                (#[trigger] plans@[p])@,
                sectors@,
                slack as int,
                min_secs as int,
            ),
{
    proof {
        lemma_generated_plans_are_orderly(
            sectors@,
            remaining_days as int,
            timeframe,
            slack as int,
            min_secs as int,
        );
        let found = generated_plans(
            sectors@,
            remaining_days as int,
            timeframe,
            slack as int,
            min_secs as int,
        );
        assert forall|made: Seq<DailyPlan>| #[trigger] plans_view(made) == found implies made.len()
            <= 2 && forall|p: int|
            0 <= p < made.len() ==> orderly(
                (#[trigger] made[p])@,
                sectors@,
                slack as int,
                min_secs as int,
            ) by {
            assert(plans_view(made).len() == made.len());
            assert forall|p: int| 0 <= p < made.len() implies orderly(
                (#[trigger] made[p])@,
                sectors@,
                slack as int,
                min_secs as int,
            ) by {
                assert(plans_view(made)[p] == made[p]@);
            }
        }
    }
    plans_of_first_day(sectors, remaining_days, timeframe, slack, min_secs)
}

/// Plans one day with `remaining_days` left, for the window `timeframe`. A
/// morning pass packs the sessions of the sectors that cannot wait against
/// the end of the window. If a sector is still over capacity after it, an
/// evening pass follows from the start of the next day's window. Returns the
/// plans of the passes that have a session: none, one or two.
pub fn plan_for_day(
    sectors: &Vec<SectorInfo>,
    remaining_days: i64,
    timeframe: WaterWin,
    slack: i64,
    min_secs: i64,
) -> (plans: Vec<DailyPlan>)
    requires
        all_wf(sectors@),
        0 <= remaining_days <= 7,
        packing_fits(sectors@.len() as int, timeframe, slack as int, 1),
    ensures
        plans_view(plans@) == day_plans(
            sectors@,
            remaining_days as int,
            timeframe.day_start_time as int,
            timeframe.day_end_time as int,
            slack as int,
            min_secs as int,
        ),
        plans@.len() <= 2,
        forall|p: int|
            0 <= p < plans@.len() ==> orderly(
                (#[trigger] plans@[p])@,
                sectors@,
                slack as int,
                min_secs as int,
            ),
{
    let ghost count = sectors@.len() as int;
    proof {
        assert(count * (86_400 + slack) >= 0) by (nonlinear_arith)
            requires
                count >= 0,
                slack >= 0,
        ;
        lemma_day_plans(
            sectors@,
            remaining_days as int,
            timeframe.day_start_time as int,
            timeframe.day_end_time as int,
            slack as int,
            min_secs as int,
        );
    }
    let mut plans: Vec<DailyPlan> = Vec::new();
    let mut work = sectors.clone();
    assert(work@ =~= sectors@);
    let (need_evening, morning) = get_next_watering_for_day(
        &mut work,
        &timeframe,
        remaining_days,
        true,
        slack,
        min_secs,
    );
    match morning {
        Some(plan) => {
            plans.push(plan);
        },
        None => {},
    }
    if need_evening {
        let next = timeframe.next();
        let (_, evening) = get_next_watering_for_day(
            &mut work,
            &next,
            remaining_days,
            false,
            slack,
            min_secs,
        );
        match evening {
            Some(plan) => {
                plans.push(plan);
            },
            None => {},
        }
    }
    assert(plans_view(plans@) =~= day_plans(
        sectors@,
        remaining_days as int,
        timeframe.day_start_time as int,
        timeframe.day_end_time as int,
        slack as int,
        min_secs as int,
    ));
    assert forall|p: int| 0 <= p < plans@.len() implies orderly(
        (#[trigger] plans@[p])@,
        sectors@,
        slack as int,
        min_secs as int,
    ) by {
        assert(plans_view(plans@)[p] == plans@[p]@);
    }
    plans
}

/// The look-ahead itself: the plans of the first day that has any.
fn plans_of_first_day(
    sectors: &Vec<SectorInfo>,
    remaining_days: i64,
    timeframe: WaterWin,
    slack: i64,
    min_secs: i64,
) -> (plans: Vec<DailyPlan>)
    requires
        all_wf(sectors@),
        0 <= remaining_days <= 7,
        packing_fits(sectors@.len() as int, timeframe, slack as int, remaining_days as int),
    ensures
        plans_view(plans@) == generated_plans(
            sectors@,
            remaining_days as int,
            timeframe,
            slack as int,
            min_secs as int,
        ),
{
    if !any_sector_in_need(sectors) {
        let plans: Vec<DailyPlan> = Vec::new();
        assert(plans_view(plans@) =~= Seq::<Seq<WaterSector>>::empty());
        return plans;
    }
    let ghost count = sectors@.len() as int;
    let mut window = timeframe;
    let mut rem = remaining_days;
    while rem > 0
        invariant
            0 <= rem <= remaining_days <= 7,
            all_wf(sectors@),
            any_need(sectors@),
            count == sectors@.len(),
            0 <= slack,
            timeframe.day_start_time <= timeframe.day_end_time,
            timeframe.day_start_time - count * (86_400 + slack) >= i64::MIN,
            timeframe.day_end_time + remaining_days * 86_400 + count * (86_400 + slack) <= i64::MAX,
            window.day_start_time == timeframe.day_start_time + (remaining_days - rem) * 86_400,
            window.day_end_time == timeframe.day_end_time + (remaining_days - rem) * 86_400,
            plans_ahead(
                sectors@,
                remaining_days as int,
                timeframe.day_start_time as int,
                timeframe.day_end_time as int,
                slack as int,
                min_secs as int,
            ) == plans_ahead(
                sectors@,
                rem as int,
                window.day_start_time as int,
                window.day_end_time as int,
                slack as int,
                min_secs as int,
            ),
        decreases rem,
    {
        proof {
            assert(count * (86_400 + slack) >= 0) by (nonlinear_arith)
                requires
                    count >= 0,
                    slack >= 0,
            ;
        }
        let plans = plan_for_day(sectors, rem, window, slack, min_secs);
        if plans.len() > 0 {
            return plans;
        }
        window.next_mut();
        rem -= 1;
    }
    let plans: Vec<DailyPlan> = Vec::new();
    assert(plans_view(plans@) =~= Seq::<Seq<WaterSector>>::empty());
    plans
}

/// The adaptive plan as of `current_time`: the sessions of the first day,
/// from today to the end of the week, on which some sector must be watered.
/// `timeframe` is today's window, `slack` the seconds left between two
/// sectors, and `min_secs` the shortest session worth scheduling.
pub fn calc_wizard_daily_plan(
    sectors: &Vec<SectorInfo>,
    current_time: i64,
    timeframe: WaterWin,
    slack: i64,
    min_secs: i64,
) -> (plans: Vec<DailyPlan>)
    requires
        all_wf(sectors@),
        in_calendar_range(current_time as int),
        packing_fits(sectors@.len() as int, timeframe, slack as int, 7),
    ensures
        plans_view(plans@) == generated_plans(
            sectors@,
            remaining_days(current_time as int),
            timeframe,
            slack as int,
            min_secs as int,
        ),
        plans@.len() <= 2,
        forall|p: int|
            0 <= p < plans@.len() ==> orderly(
                (#[trigger] plans@[p])@,
                sectors@,
                slack as int,
                min_secs as int,
            ),
{
    let remaining = calculate_remaining_days(current_time);
    generate_daily_plan(sectors, remaining, timeframe, slack, min_secs)
}

/// The adaptive plan with the default slack and shortest session.
pub fn calc_daily_plan(sectors: &Vec<SectorInfo>, current_time: i64, timeframe: WaterWin) -> (plans:
    Vec<DailyPlan>)
    requires
        all_wf(sectors@),
        in_calendar_range(current_time as int),
        packing_fits(sectors@.len() as int, timeframe, 20, 7),
    ensures
        plans_view(plans@) == generated_plans(
            sectors@,
            remaining_days(current_time as int),
            timeframe,
            20,
            300,
        ),
        plans@.len() <= 2,
        forall|p: int| 0 <= p < plans@.len() ==> orderly((#[trigger] plans@[p])@, sectors@, 20, 300),
{
    calc_wizard_daily_plan(
        sectors,
        current_time,
        timeframe,
        SECTOR_TRANSITION_SECS,
        MIN_WATERING_SECS,
    )
}

} // verus!
