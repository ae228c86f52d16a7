//! What holds of every plan that the adaptive planner makes.

use super::ds::{sorted_by_start, spaced_by, SectorInfo, WaterSector};
use super::water_window::WaterWin;
use super::watering_alg::{
    after_pass, after_session, all_wf, day_plans, evening_plan, generated_plans, morning_plan,
    irrigation_time, packing_fits, plans_ahead, session,
};
use vstd::prelude::*;

verus! {

/// Whether a plan element is a session of one of the sectors: it bears the
/// sector's identifier, is not shorter than `min_secs` and not longer than
/// the sector's longest session.
pub open spec fn session_of(element: WaterSector, sectors: Seq<SectorInfo>, min_secs: int) -> bool {
    exists|j: int|
        0 <= j < sectors.len() && (#[trigger] sectors[j]).id == element.id && min_secs
            <= element.duration && 0 < element.duration <= sectors[j].max_duration
}

/// Whether every element of a plan is a session of one of the sectors.
pub open spec fn sessions_of(plan: Seq<WaterSector>, sectors: Seq<SectorInfo>, min_secs: int)
    -> bool {
    forall|k: int| 0 <= k < plan.len() ==> session_of(#[trigger] plan[k], sectors, min_secs)
}

/// Whether each element starts exactly `slack` seconds after the one before
/// it has ended.
pub open spec fn packed_with(plan: Seq<WaterSector>, slack: int) -> bool {
    forall|k: int| 0 <= k < plan.len() - 1 ==> #[trigger] plan[k + 1].start == plan[k].end() + slack
}

/// Seconds from the start of a plan's first element to the end of its last,
/// for a plan that is packed with `slack`: the durations and the slack
/// between them.
pub open spec fn plan_span(plan: Seq<WaterSector>, slack: int) -> int
    decreases plan.len(),
{
    if plan.len() == 0 {
        0
    } else if plan.len() == 1 {
        plan[0].duration as int
    } else {
        plan_span(plan.drop_last(), slack) + slack + plan.last().duration
    }
}

/// Whether every element of a plan runs between `from` and `until`.
pub open spec fn runs_within(plan: Seq<WaterSector>, from: int, until: int) -> bool {
    forall|k: int| 0 <= k < plan.len() ==> from <= (#[trigger] plan[k]).start && plan[k].end() <= until
}

/// The span of a packed plan is the distance from its first start to its
/// last end.
pub proof fn lemma_span_of_packed_plan(plan: Seq<WaterSector>, slack: int)
    requires
        plan.len() > 0,
        packed_with(plan, slack),
    ensures
        plan.last().end() == plan[0].start + plan_span(plan, slack),
    decreases plan.len(),
{
    if plan.len() > 1 {
        let head = plan.drop_last();
        assert forall|k: int| 0 <= k < head.len() - 1 implies #[trigger] head[k + 1].start
            == head[k].end() + slack by {
            assert(head[k + 1] == plan[k + 1]);
            assert(head[k] == plan[k]);
        }
        lemma_span_of_packed_plan(head, slack);
        let last = plan.len() - 1;
        assert(plan[last - 1 + 1].start == plan[last - 1].end() + slack);
        assert(head.last() == plan[last - 1]);
        assert(head[0] == plan[0]);
    }
}

/// A plan that is packed with a slack that is not negative, and whose
/// durations are positive, is in ascending order of start and leaves the
/// slack between its elements.
pub proof fn lemma_packed_is_sorted_and_spaced(plan: Seq<WaterSector>, slack: int)
    requires
        packed_with(plan, slack),
        0 <= slack,
        forall|k: int| 0 <= k < plan.len() ==> (#[trigger] plan[k]).duration > 0,
    ensures
        sorted_by_start(plan),
        spaced_by(plan, slack),
{
    assert forall|i: int, j: int| 0 <= i <= j < plan.len() implies plan[i].start
        <= plan[j].start by {
        lemma_packed_steps(plan, slack, i, j);
    }
}

proof fn lemma_packed_steps(plan: Seq<WaterSector>, slack: int, i: int, j: int)
    requires
        packed_with(plan, slack),
        0 <= slack,
        forall|k: int| 0 <= k < plan.len() ==> (#[trigger] plan[k]).duration > 0,
        0 <= i <= j < plan.len(),
    ensures
        plan[i].start <= plan[j].start,
    decreases j - i,
{
    if i < j {
        lemma_packed_steps(plan, slack, i, j - 1);
        assert(plan[j - 1 + 1].start == plan[j - 1].end() + slack);
    }
}

/// A pass leaves every sector within its invariants, with its identifier
/// and its longest session unchanged.
pub proof fn lemma_after_pass_keeps_sectors(sectors: Seq<SectorInfo>, remaining: int, min_secs: int)
    requires
        all_wf(sectors),
    ensures
        all_wf(after_pass(sectors, remaining, min_secs)),
        after_pass(sectors, remaining, min_secs).len() == sectors.len(),
        forall|j: int|
            0 <= j < sectors.len() ==> (#[trigger] after_pass(sectors, remaining, min_secs)[j]).id
                == sectors[j].id && after_pass(sectors, remaining, min_secs)[j].max_duration
                == sectors[j].max_duration,
        forall|j: int|
            0 <= j < sectors.len() ==> (#[trigger] after_pass(
                sectors,
                remaining,
                min_secs,
            )[j]).progress >= sectors[j].progress,
{
    let after = after_pass(sectors, remaining, min_secs);
    assert forall|j: int| 0 <= j < sectors.len() implies (#[trigger] after[j]).wf() && after[j].id
        == sectors[j].id && after[j].max_duration == sectors[j].max_duration && after[j].progress
        >= sectors[j].progress by {
        let s = sectors[j];
        assert(s.wf());
        assert(after[j] == after_session(s, remaining, min_secs));
        lemma_session_bounds(s, remaining, min_secs);
        match session(s, remaining, min_secs) {
            Some(t) => {
                assert(t * s.sprinkler_debit >= 0) by (nonlinear_arith)
                    requires
                        t > 0,
                        s.sprinkler_debit > 0,
                ;
            },
            None => {},
        }
    }
}

/// The irrigation time of a sector that has a need is, up to the cap of the
/// longest session, the least number of seconds that deliver the need at the
/// sector's rate.
pub proof fn lemma_irrigation_time_closes_need(sector: SectorInfo)
    requires
        sector.sprinkler_debit > 0,
        sector.need() > 0,
    ensures
        irrigation_time(sector) matches Some(t) && {
            ||| t == sector.max_duration && t * sector.sprinkler_debit <= sector.need()
                + sector.sprinkler_debit - 1
            ||| t < sector.max_duration && (t - 1) * sector.sprinkler_debit < sector.need() <= t
                * sector.sprinkler_debit
        },
{
    let need = sector.need();
    let debit = sector.sprinkler_debit as int;
    let full = (need + debit - 1) / debit;
    assert((full - 1) * debit < need <= full * debit) by (nonlinear_arith)
        requires
            need >= 1,
            debit >= 1,
            full == (need + debit - 1) / debit,
    ;
    if full >= sector.max_duration {
        assert(sector.max_duration * debit <= full * debit) by (nonlinear_arith)
            requires
                sector.max_duration <= full,
                debit >= 1,
        ;
        assert(full * debit <= need + debit - 1) by (nonlinear_arith)
            requires
                need >= 1,
                debit >= 1,
                full == (need + debit - 1) / debit,
        ;
    }
}

/// The session that a pass gives a sector within its invariants is positive,
/// not under `min_secs` and not over the sector's longest session.
pub proof fn lemma_session_bounds(sector: SectorInfo, remaining: int, min_secs: int)
    requires
        sector.wf(),
    ensures
        session(sector, remaining, min_secs) matches Some(t) ==> 0 < t <= sector.max_duration
            && min_secs <= t,
{
    if sector.need() > 0 {
        let need = sector.need();
        let debit = sector.sprinkler_debit as int;
        assert((need + debit - 1) / debit >= 1) by (nonlinear_arith)
            requires
                need >= 1,
                debit >= 1,
        ;
    }
}

/// The morning plan: its elements are sessions of the sectors, packed so
/// that the last one ends at the cursor.
pub proof fn lemma_morning_plan(
    sectors: Seq<SectorInfo>,
    remaining: int,
    min_secs: int,
    slack: int,
    cursor: int,
)
    requires
        all_wf(sectors),
        0 <= slack,
        cursor <= i64::MAX,
        cursor - sectors.len() * (86_400 + slack) >= i64::MIN,
    ensures
        ({
            let plan = morning_plan(sectors, remaining, min_secs, slack, cursor);
            &&& plan.len() <= sectors.len()
            &&& sessions_of(plan, sectors, min_secs)
            &&& packed_with(plan, slack)
            &&& plan.len() > 0 ==> plan.last().end() == cursor
            &&& runs_within(plan, cursor - sectors.len() * (86_400 + slack), cursor)
        }),
    decreases sectors.len(),
{
    let plan = morning_plan(sectors, remaining, min_secs, slack, cursor);
    let count = sectors.len() as int;
    if count > 0 {
        let sector = sectors.last();
        let head = sectors.drop_last();
        assert(sector.wf());
        assert(all_wf(head)) by {
            assert forall|i: int| 0 <= i < head.len() implies (#[trigger] head[i]).wf() by {
                assert(head[i] == sectors[i]);
            }
        }
        lemma_session_bounds(sector, remaining, min_secs);
        assert(count * (86_400 + slack) == (count - 1) * (86_400 + slack) + (86_400 + slack))
            by (nonlinear_arith);
        assert((count - 1) * (86_400 + slack) >= 0) by (nonlinear_arith)
            requires
                count >= 1,
                slack >= 0,
        ;
        match session(sector, remaining, min_secs) {
            Some(t) => {
                let rest = morning_plan(head, remaining, min_secs, slack, cursor - t - slack);
                lemma_morning_plan(head, remaining, min_secs, slack, cursor - t - slack);
                let element = WaterSector {
                    id: sector.id,
                    start: (cursor - t) as i64,
                    duration: t as i64,
                };
                assert(plan == rest.push(element));
                assert(session_of(element, sectors, min_secs)) by {
                    assert(sectors[count - 1].id == element.id);
                }
                assert forall|k: int| 0 <= k < plan.len() implies session_of(
                    #[trigger] plan[k],
                    sectors,
                    min_secs,
                ) by {
                    if k < rest.len() {
                        assert(plan[k] == rest[k]);
                        assert(session_of(rest[k], head, min_secs));
                        let j = choose|j: int|
                            0 <= j < head.len() && (#[trigger] head[j]).id == rest[k].id && min_secs
                                <= rest[k].duration && 0 < rest[k].duration <= head[j].max_duration;
                        assert(sectors[j] == head[j]);
                    }
                }
                assert forall|k: int| 0 <= k < plan.len() - 1 implies #[trigger] plan[k + 1].start
                    == plan[k].end() + slack by {
                    if k + 1 < rest.len() {
                        assert(plan[k + 1] == rest[k + 1]);
                        assert(plan[k] == rest[k]);
                    } else {
                        assert(plan[k] == rest.last());
                    }
                }
                assert forall|k: int| 0 <= k < plan.len() implies cursor - count * (86_400 + slack)
                    <= (#[trigger] plan[k]).start && plan[k].end() <= cursor by {
                    if k < rest.len() {
                        assert(plan[k] == rest[k]);
                    }
                }
            },
            None => {
                lemma_morning_plan(head, remaining, min_secs, slack, cursor);
                let rest = morning_plan(head, remaining, min_secs, slack, cursor);
                assert(plan == rest);
                assert forall|k: int| 0 <= k < plan.len() implies session_of(
                    #[trigger] plan[k],
                    sectors,
                    min_secs,
                ) by {
                    assert(session_of(rest[k], head, min_secs));
                    let j = choose|j: int|
                        0 <= j < head.len() && (#[trigger] head[j]).id == rest[k].id && min_secs
                            <= rest[k].duration && 0 < rest[k].duration <= head[j].max_duration;
                    assert(sectors[j] == head[j]);
                }
            },
        }
    }
}

/// The evening plan: its elements are sessions of the sectors, packed so
/// that the first one starts at the cursor.
pub proof fn lemma_evening_plan(
    sectors: Seq<SectorInfo>,
    remaining: int,
    min_secs: int,
    slack: int,
    cursor: int,
)
    requires
        all_wf(sectors),
        0 <= slack,
        i64::MIN <= cursor,
        cursor + sectors.len() * (86_400 + slack) <= i64::MAX,
    ensures
        ({
            let plan = evening_plan(sectors, remaining, min_secs, slack, cursor);
            &&& plan.len() <= sectors.len()
            &&& sessions_of(plan, sectors, min_secs)
            &&& packed_with(plan, slack)
            &&& plan.len() > 0 ==> plan[0].start == cursor
            &&& runs_within(plan, cursor, cursor + sectors.len() * (86_400 + slack))
        }),
    decreases sectors.len(),
{
    let plan = evening_plan(sectors, remaining, min_secs, slack, cursor);
    let count = sectors.len() as int;
    if count > 0 {
        let sector = sectors.first();
        let tail = sectors.drop_first();
        assert(sector.wf());
        assert(all_wf(tail)) by {
            assert forall|i: int| 0 <= i < tail.len() implies (#[trigger] tail[i]).wf() by {
                assert(tail[i] == sectors[i + 1]);
            }
        }
        lemma_session_bounds(sector, remaining, min_secs);
        assert(count * (86_400 + slack) == (count - 1) * (86_400 + slack) + (86_400 + slack))
            by (nonlinear_arith);
        assert((count - 1) * (86_400 + slack) >= 0) by (nonlinear_arith)
            requires
                count >= 1,
                slack >= 0,
        ;
        match session(sector, remaining, min_secs) {
            Some(t) => {
                let rest = evening_plan(tail, remaining, min_secs, slack, cursor + t + slack);
                lemma_evening_plan(tail, remaining, min_secs, slack, cursor + t + slack);
                let element = WaterSector { id: sector.id, start: cursor as i64, duration: t as i64 };
                assert(plan == seq![element] + rest);
                assert(plan[0] == element);
                assert(session_of(element, sectors, min_secs)) by {
                    assert(sectors[0].id == element.id);
                }
                assert forall|k: int| 0 <= k < plan.len() implies session_of(
                    #[trigger] plan[k],
                    sectors,
                    min_secs,
                ) by {
                    if k > 0 {
                        assert(plan[k] == rest[k - 1]);
                        assert(session_of(rest[k - 1], tail, min_secs));
                        let j = choose|j: int|
                            0 <= j < tail.len() && (#[trigger] tail[j]).id == rest[k - 1].id
                                && min_secs <= rest[k - 1].duration && 0 < rest[k - 1].duration
                                <= tail[j].max_duration;
                        assert(sectors[j + 1] == tail[j]);
                    }
                }
                assert forall|k: int| 0 <= k < plan.len() - 1 implies #[trigger] plan[k + 1].start
                    == plan[k].end() + slack by {
                    assert(plan[k + 1] == rest[k]);
                    if k > 0 {
                        assert(plan[k] == rest[k - 1]);
                        assert(rest[k - 1 + 1].start == rest[k - 1].end() + slack);
                    }
                }
                assert forall|k: int| 0 <= k < plan.len() implies cursor <= (#[trigger] plan[k]).start
                    && plan[k].end() <= cursor + count * (86_400 + slack) by {
                    if k > 0 {
                        assert(plan[k] == rest[k - 1]);
                    }
                }
            },
            None => {
                lemma_evening_plan(tail, remaining, min_secs, slack, cursor);
                let rest = evening_plan(tail, remaining, min_secs, slack, cursor);
                assert(plan == rest);
                assert forall|k: int| 0 <= k < plan.len() implies session_of(
                    #[trigger] plan[k],
                    sectors,
                    min_secs,
                ) by {
                    assert(session_of(rest[k], tail, min_secs));
                    let j = choose|j: int|
                        0 <= j < tail.len() && (#[trigger] tail[j]).id == rest[k].id && min_secs
                            <= rest[k].duration && 0 < rest[k].duration <= tail[j].max_duration;
                    assert(sectors[j + 1] == tail[j]);
                }
            },
        }
    }
}

/// Whether a plan is one that the planner may hand out for the sectors: it
/// has an element, every element is a session of a sector, the elements are
/// in ascending order of start, and `slack` seconds lie between them.
pub open spec fn orderly(
    plan: Seq<WaterSector>,
    sectors: Seq<SectorInfo>,
    slack: int,
    min_secs: int,
) -> bool {
    &&& plan.len() > 0
    &&& sessions_of(plan, sectors, min_secs)
    &&& sorted_by_start(plan)
    &&& spaced_by(plan, slack)
    &&& packed_with(plan, slack)
}

proof fn lemma_sessions_carry_over(
    plan: Seq<WaterSector>,
    after: Seq<SectorInfo>,
    sectors: Seq<SectorInfo>,
    min_secs: int,
)
    requires
        sessions_of(plan, after, min_secs),
        after.len() == sectors.len(),
        forall|j: int|
            0 <= j < sectors.len() ==> (#[trigger] after[j]).id == sectors[j].id
                && after[j].max_duration == sectors[j].max_duration,
    ensures
        sessions_of(plan, sectors, min_secs),
{
    assert forall|k: int| 0 <= k < plan.len() implies session_of(
        #[trigger] plan[k],
        sectors,
        min_secs,
    ) by {
        assert(session_of(plan[k], after, min_secs));
        let j = choose|j: int|
            0 <= j < after.len() && (#[trigger] after[j]).id == plan[k].id && min_secs
                <= plan[k].duration && 0 < plan[k].duration <= after[j].max_duration;
        assert(sectors[j].id == plan[k].id);
    }
}

proof fn lemma_sessions_are_positive(
    plan: Seq<WaterSector>,
    sectors: Seq<SectorInfo>,
    min_secs: int,
)
    requires
        sessions_of(plan, sectors, min_secs),
    ensures
        forall|k: int| 0 <= k < plan.len() ==> (#[trigger] plan[k]).duration > 0,
{
    assert forall|k: int| 0 <= k < plan.len() implies (#[trigger] plan[k]).duration > 0 by {
        assert(session_of(plan[k], sectors, min_secs));
    }
}

/// The plans of one day: at most a morning and an evening plan, each
/// orderly. The morning plan ends at the end of the window and the evening
/// plan starts at the start of the next day's window.
pub proof fn lemma_day_plans(
    sectors: Seq<SectorInfo>,
    remaining: int,
    start: int,
    end: int,
    slack: int,
    min_secs: int,
)
    requires
        all_wf(sectors),
        0 <= slack,
        start <= end,
        start - sectors.len() * (86_400 + slack) >= i64::MIN,
        end + 86_400 + sectors.len() * (86_400 + slack) <= i64::MAX,
    ensures
        ({
            let plans = day_plans(sectors, remaining, start, end, slack, min_secs);
            let morning = morning_plan(sectors, remaining, min_secs, slack, end);
            let after = after_pass(sectors, remaining, min_secs);
            let evening = evening_plan(after, remaining, min_secs, slack, start + 86_400);
            &&& plans.len() <= 2
            &&& forall|p: int|
                0 <= p < plans.len() ==> orderly(#[trigger] plans[p], sectors, slack, min_secs)
            &&& forall|p: int|
                0 <= p < plans.len() ==> (#[trigger] plans[p]) == morning || plans[p] == evening
            &&& morning.len() > 0 ==> morning.last().end() == end && morning[0].start == end
                - plan_span(morning, slack)
            &&& evening.len() > 0 ==> evening[0].start == start + 86_400 && evening.last().end()
                == start + 86_400 + plan_span(evening, slack)
        }),
{
    let count = sectors.len() as int;
    let plans = day_plans(sectors, remaining, start, end, slack, min_secs);
    let morning = morning_plan(sectors, remaining, min_secs, slack, end);
    let after = after_pass(sectors, remaining, min_secs);
    let evening = evening_plan(after, remaining, min_secs, slack, start + 86_400);
    assert(count * (86_400 + slack) >= 0) by (nonlinear_arith)
        requires
            count >= 0,
            slack >= 0,
    ;
    lemma_morning_plan(sectors, remaining, min_secs, slack, end);
    lemma_after_pass_keeps_sectors(sectors, remaining, min_secs);
    lemma_evening_plan(after, remaining, min_secs, slack, start + 86_400);
    lemma_sessions_carry_over(evening, after, sectors, min_secs);
    lemma_sessions_are_positive(morning, sectors, min_secs);
    lemma_sessions_are_positive(evening, sectors, min_secs);
    lemma_packed_is_sorted_and_spaced(morning, slack);
    lemma_packed_is_sorted_and_spaced(evening, slack);
    if morning.len() > 0 {
        lemma_span_of_packed_plan(morning, slack);
    }
    if evening.len() > 0 {
        lemma_span_of_packed_plan(evening, slack);
    }
    assert forall|p: int| 0 <= p < plans.len() implies orderly(
        #[trigger] plans[p],
        sectors,
        slack,
        min_secs,
    ) && (plans[p] == morning || plans[p] == evening) by {
        if morning.len() > 0 && p == 0 {
            assert(plans[p] == morning);
        } else {
            assert(plans[p] == evening);
        }
    }
}

/// The plans that the look-ahead finds are the plans of one of the days it
/// looks at, with the window moved to that day.
pub proof fn lemma_plans_ahead_are_one_day(
    sectors: Seq<SectorInfo>,
    remaining: int,
    start: int,
    end: int,
    slack: int,
    min_secs: int,
)
    ensures
        plans_ahead(sectors, remaining, start, end, slack, min_secs).len() > 0 ==> exists|d: int|
            0 <= d < remaining && plans_ahead(sectors, remaining, start, end, slack, min_secs)
                == #[trigger] day_plans(
                sectors,
                remaining - d,
                start + d * 86_400,
                end + d * 86_400,
                slack,
                min_secs,
            ),
    decreases remaining,
{
    let found = plans_ahead(sectors, remaining, start, end, slack, min_secs);
    if remaining > 0 {
        let today = day_plans(sectors, remaining, start, end, slack, min_secs);
        if today.len() > 0 {
            assert(found == day_plans(
                sectors,
                remaining - 0,
                start + 0 * 86_400,
                end + 0 * 86_400,
                slack,
                min_secs,
            ));
        } else {
            lemma_plans_ahead_are_one_day(
                sectors,
                remaining - 1,
                start + 86_400,
                end + 86_400,
                slack,
                min_secs,
            );
            if found.len() > 0 {
                let d = choose|d: int|
                    0 <= d < remaining - 1 && found == #[trigger] day_plans(
                        sectors,
                        remaining - 1 - d,
                        start + 86_400 + d * 86_400,
                        end + 86_400 + d * 86_400,
                        slack,
                        min_secs,
                    );
                assert(found == day_plans(
                    sectors,
                    remaining - (d + 1),
                    start + (d + 1) * 86_400,
                    end + (d + 1) * 86_400,
                    slack,
                    min_secs,
                ));
            }
        }
    }
}

/// Every plan that the planner makes is orderly: it is not empty, its
/// elements are in ascending order of start, each starts `slack` seconds
/// after the one before has ended, and each is a session of a sector of the
/// catalog, no shorter than `min_secs` and no longer than that sector's
/// longest session. There are at most two plans, and they are those of one
/// day of the week that is left.
pub proof fn lemma_generated_plans_are_orderly(
    sectors: Seq<SectorInfo>,
    remaining: int,
    window: WaterWin,
    slack: int,
    min_secs: int,
)
    requires
        all_wf(sectors),
        0 <= remaining <= 7,
        packing_fits(sectors.len() as int, window, slack, remaining),
    ensures
        ({
            let plans = generated_plans(sectors, remaining, window, slack, min_secs);
            &&& plans.len() <= 2
            &&& forall|p: int|
                0 <= p < plans.len() ==> orderly(#[trigger] plans[p], sectors, slack, min_secs)
            &&& plans.len() > 0 ==> exists|d: int|
                0 <= d < remaining && plans == #[trigger] day_plans(
                    sectors,
                    remaining - d,
                    window.day_start_time + d * 86_400,
                    window.day_end_time + d * 86_400,
                    slack,
                    min_secs,
                )
        }),
{
    let plans = generated_plans(sectors, remaining, window, slack, min_secs);
    if plans.len() > 0 {
        let start = window.day_start_time as int;
        let end = window.day_end_time as int;
        lemma_plans_ahead_are_one_day(sectors, remaining, start, end, slack, min_secs);
        let d = choose|d: int|
            0 <= d < remaining && plans == #[trigger] day_plans(
                sectors,
                remaining - d,
                start + d * 86_400,
                end + d * 86_400,
                slack,
                min_secs,
            );
        lemma_day_plans(sectors, remaining - d, start + d * 86_400, end + d * 86_400, slack, min_secs);
    }
}

/// A plan for a day lies in that day's windows. The morning plan ends with
/// the window and reaches back by its span, so it lies wholly in the window
/// if its span is no longer than the window. The evening plan starts with
/// the next day's window and lies wholly in it under the same condition.
pub proof fn lemma_day_plans_lie_in_windows(
    sectors: Seq<SectorInfo>,
    remaining: int,
    window: WaterWin,
    slack: int,
    min_secs: int,
)
    requires
        all_wf(sectors),
        packing_fits(sectors.len() as int, window, slack, 1),
    ensures
        ({
            let morning = morning_plan(
                sectors,
                remaining,
                min_secs,
                slack,
                window.day_end_time as int,
            );
            let evening = evening_plan(
                after_pass(sectors, remaining, min_secs),
                remaining,
                min_secs,
                slack,
                window.day_start_time + 86_400,
            );
            &&& plan_span(morning, slack) <= window.day_end_time - window.day_start_time
                ==> runs_within(
                morning,
                window.day_start_time as int,
                window.day_end_time as int,
            )
            &&& plan_span(evening, slack) <= window.day_end_time - window.day_start_time
                ==> runs_within(
                evening,
                window.day_start_time + 86_400,
                window.day_end_time + 86_400,
            )
        }),
{
    let start = window.day_start_time as int;
    let end = window.day_end_time as int;
    let morning = morning_plan(sectors, remaining, min_secs, slack, end);
    let after = after_pass(sectors, remaining, min_secs);
    let evening = evening_plan(after, remaining, min_secs, slack, start + 86_400);
    lemma_day_plans(sectors, remaining, start, end, slack, min_secs);
    let count = sectors.len() as int;
    assert(count * (86_400 + slack) >= 0) by (nonlinear_arith)
        requires
            count >= 0,
            slack >= 0,
    ;
    lemma_morning_plan(sectors, remaining, min_secs, slack, end);
    lemma_after_pass_keeps_sectors(sectors, remaining, min_secs);
    lemma_evening_plan(after, remaining, min_secs, slack, start + 86_400);
    lemma_sessions_are_positive(morning, sectors, min_secs);
    lemma_sessions_are_positive(evening, after, min_secs);
    lemma_packed_is_sorted_and_spaced(morning, slack);
    lemma_packed_is_sorted_and_spaced(evening, slack);
    if plan_span(morning, slack) <= end - start {
        assert forall|k: int| 0 <= k < morning.len() implies start <= (#[trigger] morning[k]).start
            && morning[k].end() <= end by {
            assert(morning[0].start <= morning[k].start);
        }
    }
    if plan_span(evening, slack) <= end - start {
        assert forall|k: int| 0 <= k < evening.len() implies start + 86_400 <= (
        #[trigger] evening[k]).start && evening[k].end() <= end + 86_400 by {
            let last = evening.len() - 1;
            assert(evening[k].start <= evening[last].start);
            if k < last {
                lemma_packed_steps(evening, slack, k + 1, last);
                assert(evening[k + 1].start == evening[k].end() + slack);
            }
        }
    }
}

} // verus!
