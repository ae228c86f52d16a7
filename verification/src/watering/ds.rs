//! Plain data of the watering core: sectors, plan elements, plans and cycles.

use super::modes::Mode;
use crate::api::{CycleResponse, WateringStateResponse};
use vstd::prelude::*;

verus! {

/// The value of `x` brought into the range of `i64`.
pub open spec fn saturate(x: int) -> int {
    if x < i64::MIN {
        i64::MIN as int
    } else if x > i64::MAX {
        i64::MAX as int
    } else {
        x
    }
}

/// `x` brought into the range of `i64`.
pub fn saturate_i128(x: i128) -> (r: i64)
    ensures
        r == saturate(x as int),
{
    if x < -9_223_372_036_854_775_808i128 {
        i64::MIN
    } else if x > 9_223_372_036_854_775_807i128 {
        i64::MAX
    } else {
        x as i64
    }
}

/// One plan element: a sector, the second at which it opens and the seconds
/// it stays open.
#[derive(Debug, Default, Clone, Copy, PartialEq, Eq, PartialOrd, Ord, Structural)]
pub struct WaterSector {
    pub id: u32,
    pub start: i64,
    /// in seconds
    pub duration: i64,
}

impl WaterSector {
    /// The first second after the element's run.
    pub open spec fn end(self) -> int {
        self.start + self.duration
    }

    pub fn new(id: u32, start: i64, duration: i64) -> (r: Self)
        ensures
            r == (WaterSector { id, start, duration }),
    {
        Self { id, start, duration }
    }
}

/// The plan of one session: plan elements in the order in which they run.
#[derive(Debug, Default, Clone, PartialEq)]
pub struct DailyPlan(pub Vec<WaterSector>);

impl View for DailyPlan {
    type V = Seq<WaterSector>;

    open spec fn view(&self) -> Seq<WaterSector> {
        self.0@
    }
}

/// Whether a plan is due at `current_time`: it has a first element and that
/// element's start is not in the future.
pub open spec fn plan_is_due(plan: Seq<WaterSector>, current_time: int) -> bool {
    plan.len() > 0 && plan[0].start <= current_time
}

/// Whether the elements are in ascending order of start.
pub open spec fn sorted_by_start(plan: Seq<WaterSector>) -> bool {
    forall|i: int, j: int| 0 <= i <= j < plan.len() ==> plan[i].start <= plan[j].start
}

/// Whether each element starts no sooner than `slack` seconds after the one
/// before it has ended.
pub open spec fn spaced_by(plan: Seq<WaterSector>, slack: int) -> bool {
    forall|i: int|
        0 <= i < plan.len() - 1 ==> #[trigger] plan[i + 1].start >= plan[i].end() + slack
}

/// What a list of plans holds: the elements of each plan, in order.
pub open spec fn plans_view(plans: Seq<DailyPlan>) -> Seq<Seq<WaterSector>> {
    Seq::new(plans.len(), |i: int| plans[i]@)
}

impl DailyPlan {
    /// The empty plan.
    pub fn new() -> (r: Self)
        ensures
            r@ == Seq::<WaterSector>::empty(),
    {
        Self(Vec::new())
    }

    /// A plan with the same elements.
    pub fn duplicate(&self) -> (r: Self)
        ensures
            r@ == self@,
    {
        let copy = self.0.clone();
        assert(copy@ =~= self.0@);
        DailyPlan(copy)
    }

    /// Whether the plan is due at `current_time`.
    pub fn is_watering_time(&self, current_time: i64) -> (r: bool)
        ensures
            r == plan_is_due(self@, current_time as int),
    {
        self.0.len() > 0 && self.0[0].start <= current_time
    }

    /// A fresh cycle over this plan if the plan is due, and nothing otherwise.
    pub fn get_cycle(&self, current_time: i64) -> (r: Option<Cycle>)
        ensures
            r is Some <==> plan_is_due(self@, current_time as int),
            r matches Some(c) ==> c@ == CycleView::fresh(self@),
    {
        if self.is_watering_time(current_time) {
            Some(Cycle::build(self.duplicate()))
        } else {
            None
        }
    }
}

/// A catalog entry: one sector's hydraulic parameters and running state.
/// Rates are in micrometres per hour and depths in depth units.
#[derive(Debug, Default, Clone, Copy, PartialEq, Eq, Structural)]
pub struct SectorInfo {
    pub id: u32,
    /// Depth delivered per hour while the valve is open, in micrometres per
    /// hour; also the depth units gained per second.
    pub sprinkler_debit: i64,
    /// Soil intake, in micrometres per hour.
    pub percolation_rate: i64,
    /// Longest single session, in seconds.
    pub max_duration: i64,
    /// Depth to deliver between week starts.
    pub weekly_target: i64,
    /// Depth credited this week.
    pub progress: i64,
    /// Time of the latest deactivation.
    pub last_water: i64,
}

impl SectorInfo {
    /// The invariants of a catalog entry. No session is longer than a day,
    /// which is the longest a window can be.
    pub open spec fn wf(self) -> bool {
        &&& self.progress >= 0
        &&& 0 < self.max_duration <= 86_400
        &&& self.sprinkler_debit > 0
        &&& self.percolation_rate >= 0
    }

    /// Depth still owed this week.
    pub open spec fn need(self) -> int {
        if self.weekly_target > self.progress {
            self.weekly_target - self.progress
        } else {
            0
        }
    }

    /// Depth that one session of the longest duration delivers.
    pub open spec fn daily_capacity(self) -> int {
        self.max_duration * self.sprinkler_debit
    }

    /// The entry with `amount` added to its progress, which stays within
    /// zero and the largest depth that can be held.
    pub open spec fn credited(self, amount: int) -> SectorInfo {
        SectorInfo {
            progress: if self.progress + amount < 0 {
                0i64
            } else {
                saturate(self.progress + amount) as i64
            },
            ..self
        }
    }

    pub fn build(
        id: u32,
        weekly_target: i64,
        sprinkler_debit: i64,
        max_duration: i64,
        progress: i64,
        percolation_rate: i64,
        last_water: i64,
    ) -> (r: SectorInfo)
        ensures
            r == (SectorInfo {
                id,
                weekly_target,
                sprinkler_debit,
                percolation_rate,
                max_duration,
                progress,
                last_water,
            }),
    {
        SectorInfo {
            id,
            weekly_target,
            sprinkler_debit,
            percolation_rate,
            max_duration,
            progress,
            last_water,
        }
    }

    /// Adds `amount` to the progress, stopping at zero and at the largest
    /// depth that can be held.
    pub fn credit(&mut self, amount: i128)
        requires
            -0x4000_0000_0000_0000_0000_0000_0000_0000 <= amount
                <= 0x4000_0000_0000_0000_0000_0000_0000_0000,
        ensures
            *final(self) == old(self).credited(amount as int),
            final(self).progress >= 0,
            old(self).wf() ==> final(self).wf(),
    {
        let sum: i128 = self.progress as i128 + amount;
        if sum < 0 {
            self.progress = 0;
        } else {
            self.progress = saturate_i128(sum);
        }
    }
}

/// What a cycle is as a value: its identifier, its plan and the index of the
/// element that is current. A fresh cycle has the index just before the first
/// element, which is the largest index there is.
pub struct CycleView {
    pub id: i64,
    pub plan: Seq<WaterSector>,
    pub curr: usize,
}

impl CycleView {
    /// The cycle that `build` makes of a plan.
    pub open spec fn fresh(plan: Seq<WaterSector>) -> CycleView {
        CycleView { id: plan[0].start, plan, curr: usize::MAX }
    }

    /// The index after the current one; after the largest comes zero.
    pub open spec fn next_index(self) -> usize {
        if self.curr == usize::MAX {
            0usize
        } else {
            (self.curr + 1) as usize
        }
    }

    /// The cycle moved on by one element.
    pub open spec fn advanced(self) -> CycleView {
        CycleView { curr: self.next_index(), ..self }
    }

    /// The element at the current index, if the index lies in the plan.
    pub open spec fn current(self) -> Option<WaterSector> {
        if self.curr < self.plan.len() {
            Some(self.plan[self.curr as int])
        } else {
            None
        }
    }
}

/// A plan in execution.
#[derive(Debug, Default, Clone, PartialEq)]
pub struct Cycle {
    /// Start of the plan's first element.
    pub id: i64,
    pub daily_plan: DailyPlan,
    /// Index of the element that is being watered or comes next.
    pub curr_sector: usize,
}

impl View for Cycle {
    type V = CycleView;

    open spec fn view(&self) -> CycleView {
        CycleView { id: self.id, plan: self.daily_plan@, curr: self.curr_sector }
    }
}

impl Cycle {
    /// A fresh cycle over a plan that has an element.
    pub fn build(daily_plan: DailyPlan) -> (r: Self)
        requires
            daily_plan@.len() > 0,
        ensures
            r@ == CycleView::fresh(daily_plan@),
    {
        let id = daily_plan.0[0].start;
        Cycle { id, daily_plan, curr_sector: usize::MAX }
    }

    /// A cycle with the same value.
    pub fn duplicate(&self) -> (r: Self)
        ensures
            r@ == self@,
    {
        Cycle { id: self.id, daily_plan: self.daily_plan.duplicate(), curr_sector: self.curr_sector }
    }

    /// Start of the plan's first element, if it has one.
    pub fn get_start(&self) -> (r: Option<i64>)
        ensures
            r == if self@.plan.len() > 0 {
                Some(self@.plan[0].start)
            } else {
                None
            },
    {
        if self.daily_plan.0.len() > 0 {
            Some(self.daily_plan.0[0].start)
        } else {
            None
        }
    }

    /// Start of the first element of a plan that has one.
    pub fn get_start_unchecked(&self) -> (r: i64)
        requires
            self@.plan.len() > 0,
        ensures
            r == self@.plan[0].start,
    {
        self.daily_plan.0[0].start
    }

    /// Moves to the next element and returns it, or nothing once the plan is
    /// exhausted.
    pub fn next_sector(&mut self) -> (r: Option<WaterSector>)
        ensures
            final(self)@ == old(self)@.advanced(),
            r == old(self)@.advanced().current(),
    {
        self.curr_sector = if self.curr_sector == usize::MAX {
            0
        } else {
            self.curr_sector + 1
        };
        if self.curr_sector < self.daily_plan.0.len() {
            Some(self.daily_plan.0[self.curr_sector])
        } else {
            None
        }
    }
}

/// A change in the weather that bears on watering.
#[derive(Debug, Clone, Copy, PartialEq, Eq, Structural)]
pub enum WeatherSignal {
    RainStart,
    RainStop,
    WindHigh,
    WindLow,
}

impl WeatherSignal {
    /// Whether the signal reports the start of adverse weather.
    pub open spec fn is_start(self) -> bool {
        self == WeatherSignal::RainStart || self == WeatherSignal::WindHigh
    }

    /// The start signal that this signal ends, for the two signals that end
    /// one.
    pub open spec fn ends(self) -> Option<WeatherSignal> {
        match self {
            WeatherSignal::RainStop => Some(WeatherSignal::RainStart),
            WeatherSignal::WindLow => Some(WeatherSignal::WindHigh),
            _ => None,
        }
    }

    /// The start signal that this signal ends, if it ends one.
    pub fn matching_start(&self) -> (r: Option<WeatherSignal>)
        ensures
            r == self.ends(),
    {
        match self {
            WeatherSignal::RainStop => Some(WeatherSignal::RainStart),
            WeatherSignal::WindLow => Some(WeatherSignal::WindHigh),
            _ => None,
        }
    }
}

/// The record of one completed session.
#[derive(Debug, Clone, Copy, PartialEq, Eq, Structural)]
pub struct WateringEvent {
    /// Identifier of the cycle that the session belonged to, if any.
    pub cycle_id: Option<i64>,
    pub sector: WaterSector,
    /// Depth applied, in depth units.
    pub water_applied: i64,
    pub mode: Mode,
}

impl WateringEvent {
    pub fn new(cycle_id: Option<i64>, sector: WaterSector, water_applied: i64, mode: Mode) -> (r:
        Self)
        ensures
            r == (WateringEvent { cycle_id, sector, water_applied, mode }),
    {
        Self { cycle_id, sector, water_applied, mode }
    }
}

/// The catalog with the latest deactivation of sector `id` set to `time`.
pub open spec fn stamped(sectors: Seq<SectorInfo>, id: u32, time: i64) -> Seq<SectorInfo> {
    Seq::new(
        sectors.len(),
        |i: int|
            if sectors[i].id == id {
                SectorInfo { last_water: time, ..sectors[i] }
            } else {
                sectors[i]
            },
    )
}

/// The catalog with sector `id` credited for one second of watering.
pub open spec fn accrued(sectors: Seq<SectorInfo>, id: u32) -> Seq<SectorInfo> {
    Seq::new(
        sectors.len(),
        |i: int|
            if sectors[i].id == id {
                sectors[i].credited(sectors[i].sprinkler_debit as int)
            } else {
                sectors[i]
            },
    )
}

/// The first entry of the catalog for sector `id`, if it has one.
pub open spec fn sector_with_id(sectors: Seq<SectorInfo>, id: u32) -> Option<SectorInfo>
    decreases sectors.len(),
{
    if sectors.len() == 0 {
        None
    } else if sectors[0].id == id {
        Some(sectors[0])
    } else {
        sector_with_id(sectors.drop_first(), id)
    }
}

/// Sets the latest deactivation of sector `id` to `time`.
pub fn stamp_sector(sectors: &mut Vec<SectorInfo>, id: u32, time: i64)
    ensures
        final(sectors)@ == stamped(old(sectors)@, id, time),
{
    let ghost before = sectors@;
    let n = sectors.len();
    let mut i: usize = 0;
    while i < n
        invariant
            i <= n,
            n == before.len(),
            sectors@.len() == n,
            forall|j: int| 0 <= j < i ==> sectors@[j] == stamped(before, id, time)[j],
            forall|j: int| i <= j < n ==> sectors@[j] == before[j],
        decreases n - i,
    {
        if sectors[i].id == id {
            let mut sector = sectors[i];
            sector.last_water = time;
            sectors.set(i, sector);
        }
        i += 1;
    }
    assert(sectors@ =~= stamped(before, id, time));
}

/// Credits sector `id` for one second of watering.
pub fn accrue_sector(sectors: &mut Vec<SectorInfo>, id: u32)
    ensures
        final(sectors)@ == accrued(old(sectors)@, id),
{
    let ghost before = sectors@;
    let n = sectors.len();
    let mut i: usize = 0;
    while i < n
        invariant
            i <= n,
            n == before.len(),
            sectors@.len() == n,
            forall|j: int| 0 <= j < i ==> sectors@[j] == accrued(before, id)[j],
            forall|j: int| i <= j < n ==> sectors@[j] == before[j],
        decreases n - i,
    {
        if sectors[i].id == id {
            let mut sector = sectors[i];
            let gain = sector.sprinkler_debit;
            sector.credit(gain as i128);
            sectors.set(i, sector);
        }
        i += 1;
    }
    assert(sectors@ =~= accrued(before, id));
}

/// The first entry of the catalog for sector `id`, if it has one.
pub fn find_sector(sectors: &Vec<SectorInfo>, id: u32) -> (r: Option<SectorInfo>)
    ensures
        r == sector_with_id(sectors@, id),
{
    let n = sectors.len();
    let mut i: usize = 0;
    assert(sectors@.subrange(0, n as int) =~= sectors@);
    while i < n
        invariant
            i <= n,
            n == sectors@.len(),
            sector_with_id(sectors@, id) == sector_with_id(sectors@.subrange(i as int, n as int), id),
        decreases n - i,
    {
        let ghost rest = sectors@.subrange(i as int, n as int);
        assert(rest[0] == sectors@[i as int]);
        assert(rest.drop_first() =~= sectors@.subrange(i + 1, n as int));
        if sectors[i].id == id {
            return Some(sectors[i]);
        }
        i += 1;
    }
    assert(sectors@.subrange(n as int, n as int) =~= Seq::<SectorInfo>::empty());
    None
}

/// A message on the control bus.
#[derive(Debug, Clone)]
pub enum CtrlSignal {
    Weather(WeatherSignal),
    StopMachine,
    GenWeather(String),
    DevicesState(String),
    ChgMode(Mode),
    GetState,
    GetStateResponse(WateringStateResponse),
    GetCycle,
    GetCycleResponse(CycleResponse),
}

} // verus!
