//! The shapes in which the store holds schedules and plans: flat rows, and
//! the grouping of rows into entries and back.

use crate::utils::Weekday;
use crate::watering::ds::{saturate, saturate_i128, Cycle, CycleView, DailyPlan, WaterSector};
use crate::watering::schedule::{EntryView, Schedule, ScheduleEntry, ScheduleType};
use vstd::prelude::*;

verus! {

/// One row of the fixed schedule: a weekday by its number from Monday, a
/// sector, a start in seconds since midnight UTC and a duration in seconds.
#[derive(Debug, Clone, Copy, PartialEq, Eq, Structural)]
pub struct ScheduleRow {
    pub day_of_week: i64,
    pub sector_id: u32,
    pub start_time: i64,
    pub duration: i64,
}

/// One row of a stored plan: the day it is for, by the start of the day, and
/// a plan element.
#[derive(Debug, Clone, Copy, PartialEq, Eq, Structural)]
pub struct PlanRow {
    pub date: i64,
    pub sector_id: u32,
    pub start_time: i64,
    pub duration: i64,
}

impl ScheduleRow {
    /// Whether the row names a day of the week.
    pub open spec fn wf(self) -> bool {
        0 <= self.day_of_week < 7
    }

    /// The row's weekday.
    pub open spec fn weekday(self) -> Weekday {
        Weekday::at_index_from_monday(self.day_of_week as int)
    }

    /// The row's plan element.
    pub open spec fn element(self) -> WaterSector {
        WaterSector { id: self.sector_id, start: self.start_time, duration: self.duration }
    }
}

/// The entries with `element` added for `weekday`: at the end of every entry
/// for that weekday, or as a new last entry if there is none.
pub open spec fn with_element(entries: Seq<EntryView>, weekday: Weekday, element: WaterSector) -> Seq<
    EntryView,
> {
    if exists|i: int|
        0 <= i < entries.len() && (#[trigger] entries[i]).schedule_type == ScheduleType::Weekday(
            weekday,
        ) {
        Seq::new(
            entries.len(),
            |i: int|
                if entries[i].schedule_type == ScheduleType::Weekday(weekday) {
                    EntryView {
                        schedule_type: entries[i].schedule_type,
                        start_times: entries[i].start_times.push(element),
                    }
                } else {
                    entries[i]
                },
        )
    } else {
        entries.push(
            EntryView { schedule_type: ScheduleType::Weekday(weekday), start_times: seq![element] },
        )
    }
}

/// The schedule that rows make: one entry for each weekday that a row names,
/// in the order in which the weekdays first come, each with the elements of
/// its rows in the order of the rows.
pub open spec fn grouped(rows: Seq<ScheduleRow>) -> Seq<EntryView>
    decreases rows.len(),
{
    if rows.len() == 0 {
        Seq::empty()
    } else {
        with_element(grouped(rows.drop_last()), rows.last().weekday(), rows.last().element())
    }
}

/// The day number of the first row that names no day of the week.
pub open spec fn first_bad_day(rows: Seq<ScheduleRow>) -> Option<i64>
    decreases rows.len(),
{
    if rows.len() == 0 {
        None
    } else if !rows[0].wf() {
        Some(rows[0].day_of_week)
    } else {
        first_bad_day(rows.drop_first())
    }
}

/// The rows of one entry: one for each element, all for `day_of_week`.
pub open spec fn entry_rows(day_of_week: int, elements: Seq<WaterSector>) -> Seq<ScheduleRow> {
    Seq::new(
        elements.len(),
        |i: int|
            ScheduleRow {
                day_of_week: day_of_week as i64,
                sector_id: elements[i].id,
                start_time: elements[i].start,
                duration: elements[i].duration,
            },
    )
}

/// The rows of a schedule: those of its entries for weekdays, entry after
/// entry. Entries for dates have no rows.
pub open spec fn schedule_rows(schedule: Seq<EntryView>) -> Seq<ScheduleRow>
    decreases schedule.len(),
{
    if schedule.len() == 0 {
        Seq::empty()
    } else {
        let before = schedule_rows(schedule.drop_last());
        match schedule.last().schedule_type {
            ScheduleType::Weekday(weekday) => before + entry_rows(
                weekday.index_from_monday(),
                schedule.last().start_times,
            ),
            ScheduleType::Date(_) => before,
        }
    }
}

/// The rows of one dated plan.
pub open spec fn dated_rows(date: i64, elements: Seq<WaterSector>) -> Seq<PlanRow> {
    Seq::new(
        elements.len(),
        |i: int|
            PlanRow {
                date,
                sector_id: elements[i].id,
                start_time: elements[i].start,
                duration: elements[i].duration,
            },
    )
}

/// The rows of dated plans, plan after plan.
pub open spec fn plan_rows(plans: Seq<(i64, DailyPlan)>) -> Seq<PlanRow>
    decreases plans.len(),
{
    if plans.len() == 0 {
        Seq::empty()
    } else {
        plan_rows(plans.drop_last()) + dated_rows(plans.last().0, plans.last().1@)
    }
}

/// Adds `element` to the entries for `weekday`.
fn add_element(entries: &mut Vec<ScheduleEntry>, weekday: Weekday, element: WaterSector)
    ensures
        (Schedule { entries: *final(entries) })@ == with_element(
            (Schedule { entries: *old(entries) })@,
            weekday,
            element,
        ),
{
    let ghost before = (Schedule { entries: *entries })@;
    let n = entries.len();
    let mut found = false;
    let mut k: usize = 0;
    while k < n
        invariant
            k <= n,
            n == before.len(),
            entries@.len() == n,
            found == exists|j: int|
                0 <= j < k && (#[trigger] before[j]).schedule_type == ScheduleType::Weekday(weekday),
            forall|j: int|
                0 <= j < k ==> (#[trigger] entries@[j])@ == if before[j].schedule_type
                    == ScheduleType::Weekday(weekday) {
                    EntryView {
                        schedule_type: before[j].schedule_type,
                        start_times: before[j].start_times.push(element),
                    }
                } else {
                    before[j]
                },
            forall|j: int| k <= j < n ==> (#[trigger] entries@[j])@ == before[j],
        decreases n - k,
    {
        assert(entries@[k as int]@ == before[k as int]);
        let matches = match entries[k].schedule_type {
            ScheduleType::Weekday(day) => day == weekday,
            ScheduleType::Date(_) => false,
        };
        if matches {
            let ghost held = entries@;
            let mut entry = entries.remove(k);
            entry.start_times.0.push(element);
            entries.insert(k, entry);
            found = true;
            assert forall|j: int| 0 <= j < n && j != k implies entries@[j] == held[j] by {}
        }
        k += 1;
    }
    if !found {
        let mut elements: Vec<WaterSector> = Vec::new();
        elements.push(element);
        assert(elements@ =~= seq![element]);
        entries.push(
            ScheduleEntry {
                schedule_type: ScheduleType::Weekday(weekday),
                start_times: DailyPlan(elements),
            },
        );
    }
    assert((Schedule { entries: *entries })@ =~= with_element(before, weekday, element));
}

/// Groups the rows of the fixed schedule into a schedule with one entry for
/// each weekday. A row that names no day of the week is an error, which
/// holds the row's day number.
pub fn schedule_from_rows(rows: &Vec<ScheduleRow>) -> (r: Result<Schedule, i64>)
    ensures
        r is Ok <==> first_bad_day(rows@) is None,
        r matches Ok(schedule) ==> schedule@ == grouped(rows@),
        r matches Err(day) ==> first_bad_day(rows@) == Some(day),
{
    let mut entries: Vec<ScheduleEntry> = Vec::new();
    let n = rows.len();
    let mut i: usize = 0;
    assert(rows@.subrange(0, n as int) =~= rows@);
    assert((Schedule { entries })@ =~= grouped(rows@.subrange(0, 0)));
    while i < n
        invariant
            i <= n,
            n == rows@.len(),
            (Schedule { entries })@ == grouped(rows@.subrange(0, i as int)),
            first_bad_day(rows@) == first_bad_day(rows@.subrange(i as int, n as int)),
        decreases n - i,
    {
        let row = rows[i];
        proof {
            let rest = rows@.subrange(i as int, n as int);
            assert(rest[0] == row);
            assert(rest.drop_first() =~= rows@.subrange(i + 1, n as int));
            let upto = rows@.subrange(0, i + 1);
            assert(upto.last() == row);
            assert(upto.drop_last() =~= rows@.subrange(0, i as int));
        }
        match Weekday::from_days_from_monday(row.day_of_week) {
            Some(weekday) => {
                add_element(
                    &mut entries,
                    weekday,
                    WaterSector::new(row.sector_id, row.start_time, row.duration),
                );
            },
            None => {
                return Err(row.day_of_week);
            },
        }
        i += 1;
    }
    assert(rows@.subrange(n as int, n as int) =~= Seq::<ScheduleRow>::empty());
    Ok(Schedule::new(entries))
}

/// The rows in which a schedule is stored: those of its entries for
/// weekdays.
pub fn rows_of_schedule(schedule: &Schedule) -> (rows: Vec<ScheduleRow>)
    ensures
        rows@ == schedule_rows(schedule@),
{
    let mut rows: Vec<ScheduleRow> = Vec::new();
    let n = schedule.entries.len();
    let mut i: usize = 0;
    assert(schedule@.subrange(0, 0) =~= Seq::<EntryView>::empty());
    while i < n
        invariant
            i <= n,
            n == schedule.entries@.len(),
            n == schedule@.len(),
            rows@ == schedule_rows(schedule@.subrange(0, i as int)),
        decreases n - i,
    {
        let entry = &schedule.entries[i];
        proof {
            let upto = schedule@.subrange(0, i + 1);
            assert(upto.last() == entry@);
            assert(upto.drop_last() =~= schedule@.subrange(0, i as int));
        }
        match entry.schedule_type {
            ScheduleType::Weekday(weekday) => {
                let ghost before = rows@;
                let day = weekday.num_days_from_monday() as i64;
                let m = entry.start_times.0.len();
                let mut k: usize = 0;
                while k < m
                    invariant
                        k <= m,
                        m == entry.start_times@.len(),
                        day == weekday.index_from_monday(),
                        rows@ == before + entry_rows(day as int, entry.start_times@).subrange(
                            0,
                            k as int,
                        ),
                    decreases m - k,
                {
                    let sec = entry.start_times.0[k];
                    rows.push(
                        ScheduleRow {
                            day_of_week: day,
                            sector_id: sec.id,
                            start_time: sec.start,
                            duration: sec.duration,
                        },
                    );
                    assert(rows@ =~= before + entry_rows(day as int, entry.start_times@).subrange(
                        0,
                        k + 1,
                    ));
                    k += 1;
                }
                assert(rows@ =~= before + entry_rows(day as int, entry.start_times@));
            },
            ScheduleType::Date(_) => {},
        }
        i += 1;
    }
    assert(schedule@.subrange(0, n as int) =~= schedule@);
    rows
}

/// The rows in which dated plans are stored.
pub fn rows_of_plans(plans: &Vec<(i64, DailyPlan)>) -> (rows: Vec<PlanRow>)
    ensures
        rows@ == plan_rows(plans@),
{
    let mut rows: Vec<PlanRow> = Vec::new();
    let n = plans.len();
    let mut i: usize = 0;
    assert(plans@.subrange(0, 0) =~= Seq::<(i64, DailyPlan)>::empty());
    while i < n
        invariant
            i <= n,
            n == plans@.len(),
            rows@ == plan_rows(plans@.subrange(0, i as int)),
        decreases n - i,
    {
        let date = plans[i].0;
        let plan = &plans[i].1;
        proof {
            let upto = plans@.subrange(0, i + 1);
            assert(upto.last() == plans@[i as int]);
            assert(upto.drop_last() =~= plans@.subrange(0, i as int));
        }
        let ghost before = rows@;
        let m = plan.0.len();
        let mut k: usize = 0;
        while k < m
            invariant
                k <= m,
                m == plan@.len(),
                rows@ == before + dated_rows(date, plan@).subrange(0, k as int),
            decreases m - k,
        {
            let sec = plan.0[k];
            rows.push(
                PlanRow { date, sector_id: sec.id, start_time: sec.start, duration: sec.duration },
            );
            assert(rows@ =~= before + dated_rows(date, plan@).subrange(0, k + 1));
            k += 1;
        }
        assert(rows@ =~= before + dated_rows(date, plan@));
        i += 1;
    }
    assert(plans@.subrange(0, n as int) =~= plans@);
    rows
}

/// One row of a stored cycle: the cycle's identifier, a sector, a start and a
/// duration in minutes.
#[derive(Debug, Clone, Copy, PartialEq, Eq, Structural)]
pub struct CycleRow {
    pub cycle_id: i64,
    pub sector_id: u32,
    pub start_time: i64,
    pub duration_minutes: i64,
}

impl CycleRow {
    /// The row's plan element, its duration in seconds.
    pub open spec fn element(self) -> WaterSector {
        WaterSector {
            id: self.sector_id,
            start: self.start_time,
            duration: saturate(self.duration_minutes * 60) as i64,
        }
    }
}

/// What a list of cycles holds.
pub open spec fn cycles_view(cycles: Seq<Cycle>) -> Seq<CycleView> {
    Seq::new(cycles.len(), |i: int| cycles[i]@)
}

/// The cycles with `element` added to cycle `id`: at the end of the plan of
/// every cycle with that identifier, or as the plan of a new last cycle if
/// there is none. A new cycle has not begun.
pub open spec fn with_cycle_element(cycles: Seq<CycleView>, id: i64, element: WaterSector) -> Seq<
    CycleView,
> {
    if exists|i: int| 0 <= i < cycles.len() && (#[trigger] cycles[i]).id == id {
        Seq::new(
            cycles.len(),
            |i: int|
                if cycles[i].id == id {
                    CycleView { plan: cycles[i].plan.push(element), ..cycles[i] }
                } else {
                    cycles[i]
                },
        )
    } else {
        cycles.push(CycleView { id, plan: seq![element], curr: usize::MAX })
    }
}

/// The cycles that rows make: one for each identifier, in the order in which
/// the identifiers first come, each with the elements of its rows in the
/// order of the rows.
pub open spec fn grouped_cycles(rows: Seq<CycleRow>) -> Seq<CycleView>
    decreases rows.len(),
{
    if rows.len() == 0 {
        Seq::empty()
    } else {
        with_cycle_element(
            grouped_cycles(rows.drop_last()),
            rows.last().cycle_id,
            rows.last().element(),
        )
    }
}

/// Adds `element` to the cycles with identifier `id`.
fn add_cycle_element(cycles: &mut Vec<Cycle>, id: i64, element: WaterSector)
    ensures
        cycles_view(final(cycles)@) == with_cycle_element(cycles_view(old(cycles)@), id, element),
{
    let ghost before = cycles_view(cycles@);
    let n = cycles.len();
    let mut found = false;
    let mut k: usize = 0;
    while k < n
        invariant
            k <= n,
            n == before.len(),
            cycles@.len() == n,
            found == exists|j: int| 0 <= j < k && (#[trigger] before[j]).id == id,
            forall|j: int|
                0 <= j < k ==> (#[trigger] cycles@[j])@ == if before[j].id == id {
                    CycleView { plan: before[j].plan.push(element), ..before[j] }
                } else {
                    before[j]
                },
            forall|j: int| k <= j < n ==> (#[trigger] cycles@[j])@ == before[j],
        decreases n - k,
    {
        assert(cycles@[k as int]@ == before[k as int]);
        if cycles[k].id == id {
            let ghost held = cycles@;
            let mut cycle = cycles.remove(k);
            cycle.daily_plan.0.push(element);
            cycles.insert(k, cycle);
            found = true;
            assert forall|j: int| 0 <= j < n && j != k implies cycles@[j] == held[j] by {}
        }
        k += 1;
    }
    if !found {
        let mut elements: Vec<WaterSector> = Vec::new();
        elements.push(element);
        assert(elements@ =~= seq![element]);
        cycles.push(Cycle { id, daily_plan: DailyPlan(elements), curr_sector: usize::MAX });
    }
    assert(cycles_view(cycles@) =~= with_cycle_element(before, id, element));
}

/// Groups the rows of stored cycles into cycles.
pub fn cycles_from_rows(rows: &Vec<CycleRow>) -> (cycles: Vec<Cycle>)
    ensures
        cycles_view(cycles@) == grouped_cycles(rows@),
{
    let mut cycles: Vec<Cycle> = Vec::new();
    let n = rows.len();
    let mut i: usize = 0;
    assert(cycles_view(cycles@) =~= grouped_cycles(rows@.subrange(0, 0)));
    while i < n
        invariant
            i <= n,
            n == rows@.len(),
            cycles_view(cycles@) == grouped_cycles(rows@.subrange(0, i as int)),
        decreases n - i,
    {
        let row = rows[i];
        proof {
            let upto = rows@.subrange(0, i + 1);
            assert(upto.last() == row);
            assert(upto.drop_last() =~= rows@.subrange(0, i as int));
        }
        let seconds = saturate_i128(row.duration_minutes as i128 * 60);
        add_cycle_element(
            &mut cycles,
            row.cycle_id,
            WaterSector::new(row.sector_id, row.start_time, seconds),
        );
        i += 1;
    }
    assert(rows@.subrange(0, n as int) =~= rows@);
    cycles
}

} // verus!
