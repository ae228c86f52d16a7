//! The fixed weekly schedule and the plans read from it for one day.

use super::ds::{plans_view, saturate, saturate_i128, sorted_by_start, DailyPlan, WaterSector};
use crate::utils::{get_week_day_from_ts, in_calendar_range, sod, sod_spec, weekday_of, Weekday};
use vstd::prelude::*;

verus! {

/// What a schedule entry is bound to.
#[derive(Clone, Copy, Debug, PartialEq, Eq, Structural)]
pub enum ScheduleType {
    /// A day of every week.
    Weekday(Weekday),
    /// One date, given by the start of its day.
    Date(i64),
}

/// One entry of a schedule. In an entry for a weekday the starts are
/// seconds since midnight UTC.
#[derive(Clone, Debug, PartialEq)]
pub struct ScheduleEntry {
    pub schedule_type: ScheduleType,
    pub start_times: DailyPlan,
}

/// What a schedule entry holds.
pub struct EntryView {
    pub schedule_type: ScheduleType,
    pub start_times: Seq<WaterSector>,
}

impl View for ScheduleEntry {
    type V = EntryView;

    open spec fn view(&self) -> EntryView {
        EntryView { schedule_type: self.schedule_type, start_times: self.start_times@ }
    }
}

/// A schedule: entries in the order in which they were stored.
#[derive(Clone, Debug, PartialEq)]
pub struct Schedule {
    pub entries: Vec<ScheduleEntry>,
}

impl View for Schedule {
    type V = Seq<EntryView>;

    open spec fn view(&self) -> Seq<EntryView> {
        Seq::new(self.entries@.len(), |i: int| self.entries@[i]@)
    }
}

impl Schedule {
    pub fn new(entries: Vec<ScheduleEntry>) -> (r: Self)
        ensures
            r.entries == entries,
    {
        Self { entries }
    }
}

/// `element` put into a sequence that is in ascending order of start, behind
/// every element that starts no later.
pub open spec fn insert_by_start(sorted: Seq<WaterSector>, element: WaterSector) -> Seq<WaterSector>
    decreases sorted.len(),
{
    if sorted.len() == 0 {
        seq![element]
    } else if sorted.last().start <= element.start {
        sorted.push(element)
    } else {
        insert_by_start(sorted.drop_last(), element).push(sorted.last())
    }
}

/// The elements in ascending order of start; elements with the same start
/// keep the order they had.
pub open spec fn sort_by_start(plan: Seq<WaterSector>) -> Seq<WaterSector>
    decreases plan.len(),
{
    if plan.len() == 0 {
        Seq::empty()
    } else {
        insert_by_start(sort_by_start(plan.drop_last()), plan.last())
    }
}

/// A schedule element with its start counted from `day_start` instead of
/// from midnight.
pub open spec fn on_day(element: WaterSector, day_start: int) -> WaterSector {
    WaterSector {
        id: element.id,
        start: saturate(day_start + element.start) as i64,
        duration: element.duration,
    }
}

/// The elements of an entry on the day that starts at `day_start`, in the
/// order of the entry.
pub open spec fn entry_on_day(elements: Seq<WaterSector>, day_start: int) -> Seq<WaterSector> {
    Seq::new(elements.len(), |i: int| on_day(elements[i], day_start))
}

/// The plans of a weekday: one for every entry of the schedule that is bound
/// to that weekday, in the order of the entries, each in ascending order of
/// start.
pub open spec fn plans_for_day(schedule: Seq<EntryView>, weekday: Weekday, day_start: int) -> Seq<
    Seq<WaterSector>,
>
    decreases schedule.len(),
{
    if schedule.len() == 0 {
        Seq::empty()
    } else {
        let before = plans_for_day(schedule.drop_last(), weekday, day_start);
        let entry = schedule.last();
        if entry.schedule_type == ScheduleType::Weekday(weekday) {
            before.push(sort_by_start(entry_on_day(entry.start_times, day_start)))
        } else {
            before
        }
    }
}

/// The plans that the schedule holds for the day of `current_time`.
pub open spec fn auto_plans(schedule: Seq<EntryView>, current_time: int) -> Seq<Seq<WaterSector>> {
    plans_for_day(schedule, weekday_of(current_time), sod_spec(current_time))
}

/// Putting an element at the place behind which every element starts later,
/// and before which none does, is inserting it by start.
proof fn lemma_insert_at(sorted: Seq<WaterSector>, element: WaterSector, at: int)
    requires
        0 <= at <= sorted.len(),
        forall|k: int| at <= k < sorted.len() ==> (#[trigger] sorted[k]).start > element.start,
        at > 0 ==> sorted[at - 1].start <= element.start,
    ensures
        insert_by_start(sorted, element) == sorted.insert(at, element),
    decreases sorted.len() - at,
{
    if sorted.len() == 0 {
        assert(sorted.insert(at, element) =~= seq![element]);
    } else if at == sorted.len() {
        assert(sorted.insert(at, element) =~= sorted.push(element));
    } else {
        let head = sorted.drop_last();
        assert(sorted.last().start > element.start);
        assert forall|k: int| at <= k < head.len() implies (#[trigger] head[k]).start
            > element.start by {
            assert(head[k] == sorted[k]);
        }
        if at > 0 {
            assert(head[at - 1] == sorted[at - 1]);
        }
        lemma_insert_at(head, element, at);
        assert(head.insert(at, element).push(sorted.last()) =~= sorted.insert(at, element));
    }
}

/// Inserting by start keeps a sequence in ascending order of start and adds
/// exactly the element.
pub proof fn lemma_insert_by_start(sorted: Seq<WaterSector>, element: WaterSector)
    requires
        sorted_by_start(sorted),
    ensures
        sorted_by_start(insert_by_start(sorted, element)),
        insert_by_start(sorted, element).len() == sorted.len() + 1,
        insert_by_start(sorted, element).to_multiset() == sorted.to_multiset().insert(element),
    decreases sorted.len(),
{
    broadcast use vstd::seq_lib::group_to_multiset_ensures;

    let result = insert_by_start(sorted, element);
    if sorted.len() == 0 {
        assert(sorted =~= Seq::empty());
        assert(result =~= Seq::<WaterSector>::empty().push(element));
    } else if sorted.last().start <= element.start {
        assert forall|i: int, j: int| 0 <= i <= j < result.len() implies result[i].start
            <= result[j].start by {
            if j == sorted.len() {
                if i < sorted.len() {
                    assert(sorted[i].start <= sorted.last().start);
                }
            }
        }
    } else {
        let head = sorted.drop_last();
        let last = sorted.last();
        assert(sorted_by_start(head)) by {
            assert forall|i: int, j: int| 0 <= i <= j < head.len() implies head[i].start
                <= head[j].start by {
                assert(head[i] == sorted[i] && head[j] == sorted[j]);
            }
        }
        lemma_insert_by_start(head, element);
        let inner = insert_by_start(head, element);
        assert(result == inner.push(last));
        assert forall|k: int| 0 <= k < inner.len() implies (#[trigger] inner[k]).start
            <= last.start by {
            assert(inner.to_multiset().count(inner[k]) > 0);
            if inner[k] != element {
                assert(head.to_multiset().count(inner[k]) > 0);
                let w = choose|w: int| 0 <= w < head.len() && head[w] == inner[k];
                assert(sorted[w].start <= sorted.last().start);
            }
        }
        assert forall|i: int, j: int| 0 <= i <= j < result.len() implies result[i].start
            <= result[j].start by {
            if j < inner.len() {
                assert(result[i] == inner[i] && result[j] == inner[j]);
            } else if i < inner.len() {
                assert(result[i] == inner[i]);
            }
        }
        assert(sorted =~= head.push(last));
        assert(result.to_multiset() =~= sorted.to_multiset().insert(element));
    }
}

/// Sorting by start gives the same elements in ascending order of start.
pub proof fn lemma_sort_by_start(plan: Seq<WaterSector>)
    ensures
        sorted_by_start(sort_by_start(plan)),
        sort_by_start(plan).len() == plan.len(),
        sort_by_start(plan).to_multiset() == plan.to_multiset(),
    decreases plan.len(),
{
    broadcast use vstd::seq_lib::group_to_multiset_ensures;

    if plan.len() == 0 {
        assert(plan =~= Seq::empty());
    } else {
        lemma_sort_by_start(plan.drop_last());
        lemma_insert_by_start(sort_by_start(plan.drop_last()), plan.last());
        assert(plan =~= plan.drop_last().push(plan.last()));
    }
}

/// Every plan that the schedule holds for a day is in ascending order of
/// start, and there is one plan for each entry bound to the day's weekday.
pub proof fn lemma_plans_for_day(schedule: Seq<EntryView>, weekday: Weekday, day_start: int)
    ensures
        plans_for_day(schedule, weekday, day_start).len() <= schedule.len(),
        forall|p: int|
            0 <= p < plans_for_day(schedule, weekday, day_start).len() ==> sorted_by_start(
                #[trigger] plans_for_day(schedule, weekday, day_start)[p],
            ),
    decreases schedule.len(),
{
    if schedule.len() > 0 {
        lemma_plans_for_day(schedule.drop_last(), weekday, day_start);
        let before = plans_for_day(schedule.drop_last(), weekday, day_start);
        let entry = schedule.last();
        let plans = plans_for_day(schedule, weekday, day_start);
        if entry.schedule_type == ScheduleType::Weekday(weekday) {
            lemma_sort_by_start(entry_on_day(entry.start_times, day_start));
            assert forall|p: int| 0 <= p < plans.len() implies sorted_by_start(
                #[trigger] plans[p],
            ) by {
                if p < before.len() {
                    assert(plans[p] == before[p]);
                }
            }
        }
    }
}

/// The elements of an entry, counted from `day_start` and put in ascending
/// order of start.
fn plan_on_day(elements: &DailyPlan, day_start: i64) -> (r: DailyPlan)
    ensures
        r@ == sort_by_start(entry_on_day(elements@, day_start as int)),
{
    let ghost moved = entry_on_day(elements@, day_start as int);
    let n = elements.0.len();
    let mut sorted: Vec<WaterSector> = Vec::new();
    let mut i: usize = 0;
    while i < n
        invariant
            i <= n,
            n == elements@.len(),
            moved == entry_on_day(elements@, day_start as int),
            sorted@ == sort_by_start(moved.subrange(0, i as int)),
            sorted@.len() == i,
        decreases n - i,
    {
        let element = elements.0[i];
        let start = saturate_i128(day_start as i128 + element.start as i128);
        let placed = WaterSector::new(element.id, start, element.duration);
        assert(placed == moved[i as int]);
        let mut at: usize = sorted.len();
        while at > 0 && sorted[at - 1].start > placed.start
            invariant
                at <= sorted@.len(),
                forall|k: int| at <= k < sorted@.len() ==> (#[trigger] sorted@[k]).start
                    > placed.start,
            decreases at,
        {
            at -= 1;
        }
        proof {
            lemma_insert_at(sorted@, placed, at as int);
            let upto = moved.subrange(0, i + 1);
            assert(upto.last() == placed);
            assert(upto.drop_last() =~= moved.subrange(0, i as int));
        }
        sorted.insert(at, placed);
        i += 1;
    }
    assert(moved.subrange(0, n as int) =~= moved);
    DailyPlan(sorted)
}

/// The plans that the schedule holds for the day of `current_time`: one for
/// every entry bound to that day's weekday, its starts counted from that
/// day's midnight and put in ascending order.
pub fn load_auto_schedule(schedule: &Schedule, current_time: i64) -> (plans: Vec<DailyPlan>)
    requires
        in_calendar_range(current_time as int),
    ensures
        plans_view(plans@) == auto_plans(schedule@, current_time as int),
        forall|p: int| 0 <= p < plans@.len() ==> sorted_by_start((#[trigger] plans@[p])@),
{
    let plans = plans_of_weekday(schedule, current_time);
    proof {
        lemma_plans_for_day(
            schedule@,
            weekday_of(current_time as int),
            sod_spec(current_time as int),
        );
        assert forall|p: int| 0 <= p < plans@.len() implies sorted_by_start(
            (#[trigger] plans@[p])@,
        ) by {
            assert(plans_view(plans@)[p] == plans@[p]@);
        }
    }
    plans
}

/// The plans of the entries bound to the weekday of `current_time`.
fn plans_of_weekday(schedule: &Schedule, current_time: i64) -> (plans: Vec<DailyPlan>)
    requires
        in_calendar_range(current_time as int),
    ensures
        plans_view(plans@) == auto_plans(schedule@, current_time as int),
{
    let mut plans: Vec<DailyPlan> = Vec::new();
    let current_weekday = get_week_day_from_ts(current_time);
    let day_start = sod(current_time);
    let n = schedule.entries.len();
    let mut i: usize = 0;
    while i < n
        invariant
            i <= n,
            n == schedule.entries@.len(),
            n == schedule@.len(),
            current_weekday == weekday_of(current_time as int),
            day_start == sod_spec(current_time as int),
            plans_view(plans@) == plans_for_day(
                schedule@.subrange(0, i as int),
                current_weekday,
                day_start as int,
            ),
        decreases n - i,
    {
        let entry = &schedule.entries[i];
        proof {
            let upto = schedule@.subrange(0, i + 1);
            assert(upto.last() == entry@);
            assert(upto.drop_last() =~= schedule@.subrange(0, i as int));
        }
        let ghost before = plans_view(plans@);
        match entry.schedule_type {
            ScheduleType::Weekday(weekday) => {
                if weekday == current_weekday {
                    let plan = plan_on_day(&entry.start_times, day_start);
                    plans.push(plan);
                    assert(plans_view(plans@) =~= before.push(plan@));
                }
            },
            ScheduleType::Date(_) => {},
        }
        i += 1;
    }
    assert(schedule@.subrange(0, n as int) =~= schedule@);
    plans
}

/// A daily timeframe given by its offset from midnight and its length, to be
/// laid onto any day.
#[derive(Debug, Clone, Copy, PartialEq, Eq, Structural)]
pub struct AllowedTimeframe {
    /// Seconds from the start of the day at which the timeframe opens.
    pub start: i64,
    /// Length in seconds.
    pub duration: i64,
}

impl AllowedTimeframe {
    /// First and last second of the timeframe on the day that starts at
    /// `base_time`.
    pub open spec fn bounds(self, base_time: int) -> (int, int) {
        (base_time + self.start, base_time + self.start + self.duration - 1)
    }

    /// Whether `current_time` lies in the timeframe on the day that starts
    /// at `base_time`. A timeframe whose last second comes before its first
    /// is read as running to the end of the day and from the start of the
    /// next day to its last second a day later.
    pub open spec fn contains(self, current_time: int, base_time: int) -> bool {
        let (start_time, end_time) = self.bounds(base_time);
        if end_time < start_time {
            (start_time <= current_time <= base_time + 86_400 - 1) || (base_time + 86_400
                <= current_time <= end_time + 86_400)
        } else {
            start_time <= current_time <= end_time
        }
    }

    /// The timeframe that opens at `hour_start` and lasts `duration_hours`.
    pub fn new(hour_start: i64, duration_hours: i64) -> (r: Self)
        requires
            i64::MIN <= hour_start * 3_600 <= i64::MAX,
            i64::MIN <= duration_hours * 3_600 <= i64::MAX,
        ensures
            r.start == hour_start * 3_600,
            r.duration == duration_hours * 3_600,
    {
        let start = hour_start * 3_600;
        let duration = duration_hours * 3_600;
        Self { start, duration }
    }

    /// First and last second of the timeframe on the day that starts at
    /// `base_time`.
    pub fn for_day(&self, base_time: i64) -> (r: (i64, i64))
        requires
            i64::MIN <= self.bounds(base_time as int).0 <= i64::MAX,
            i64::MIN <= self.bounds(base_time as int).1 <= i64::MAX,
            i64::MIN <= base_time + self.start + self.duration <= i64::MAX,
        ensures
            (r.0 as int, r.1 as int) == self.bounds(base_time as int),
    {
        let start_time = base_time + self.start;
        let end_time = start_time + self.duration - 1;
        (start_time, end_time)
    }

    /// Whether `current_time` lies in the timeframe on the day that starts
    /// at `base_time`.
    pub fn is_within(&self, current_time: i64, base_time: i64) -> (r: bool)
        requires
            i64::MIN <= self.bounds(base_time as int).0 <= i64::MAX,
            i64::MIN <= self.bounds(base_time as int).1 <= i64::MAX,
            i64::MIN <= base_time + self.start + self.duration <= i64::MAX,
        ensures
            r == self.contains(current_time as int, base_time as int),
    {
        let (start_time, end_time) = self.for_day(base_time);
        if end_time < start_time {
            let day_end: i128 = base_time as i128 + 86_400 - 1;
            let next_start: i128 = base_time as i128 + 86_400;
            let next_end: i128 = end_time as i128 + 86_400;
            let now: i128 = current_time as i128;
            (current_time >= start_time && now <= day_end) || (now >= next_start && now
                <= next_end)
        } else {
            current_time >= start_time && current_time <= end_time
        }
    }
}

} // verus!
