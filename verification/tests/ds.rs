use nic::time::{MockTimeProvider, TimeProvider};
use nic::watering::ds::{
    accrue_sector, find_sector, saturate_i128, stamp_sector, Cycle, DailyPlan, SectorInfo, WaterSector, WateringEvent,
    WeatherSignal,
};
use nic::watering::modes::Mode;

#[test]
fn plan_is_due_from_the_start_of_its_first_element() {
    let plan = DailyPlan(vec![WaterSector::new(1, 100, 10), WaterSector::new(2, 50, 10)]);
    assert!(!plan.is_watering_time(99));
    assert!(plan.is_watering_time(100));
    assert!(plan.is_watering_time(1000));
    assert!(!DailyPlan::new().is_watering_time(i64::MAX));
    assert_eq!(DailyPlan::new(), DailyPlan(vec![]));
    assert_eq!(plan.duplicate(), plan);
    assert_eq!(plan.get_cycle(99), None);
    assert_eq!(DailyPlan::new().get_cycle(0), None);
    assert_eq!(plan.get_cycle(100), Some(Cycle { id: 100, daily_plan: plan.clone(), curr_sector: usize::MAX }));
}

#[test]
fn cycle_walks_its_plan_once() {
    let plan = DailyPlan(vec![WaterSector::new(1, 100, 10), WaterSector::new(2, 120, 10)]);
    let mut cycle = Cycle::build(plan.clone());
    assert_eq!(cycle.id, 100);
    assert_eq!(cycle.curr_sector, usize::MAX);
    assert_eq!(cycle.get_start(), Some(100));
    assert_eq!(cycle.get_start_unchecked(), 100);
    assert_eq!(cycle.duplicate(), cycle);
    assert_eq!(cycle.next_sector(), Some(WaterSector::new(1, 100, 10)));
    assert_eq!(cycle.curr_sector, 0);
    assert_eq!(cycle.next_sector(), Some(WaterSector::new(2, 120, 10)));
    assert_eq!(cycle.next_sector(), None);
    assert_eq!(cycle.curr_sector, 2);
    assert_eq!(cycle.next_sector(), None);
    assert_eq!(cycle.curr_sector, 3);
    assert_eq!(cycle.daily_plan, plan);
    assert_eq!(Cycle::default().get_start(), None);
}

#[test]
fn catalog_entries_are_found_stamped_and_credited_by_id() {
    let a = SectorInfo::build(1, 100, 7, 60, 5, 0, 0);
    let b = SectorInfo::build(2, 100, 9, 60, 5, 0, 0);
    assert_eq!(a, SectorInfo { id: 1, weekly_target: 100, sprinkler_debit: 7, max_duration: 60, progress: 5, percolation_rate: 0, last_water: 0 });
    let mut catalog = vec![a, b];
    assert_eq!(find_sector(&catalog, 2), Some(b));
    assert_eq!(find_sector(&catalog, 3), None);
    stamp_sector(&mut catalog, 2, 77);
    assert_eq!(catalog, vec![a, SectorInfo { last_water: 77, ..b }]);
    accrue_sector(&mut catalog, 1);
    assert_eq!(catalog, vec![SectorInfo { progress: 12, ..a }, SectorInfo { last_water: 77, ..b }]);
    accrue_sector(&mut catalog, 3);
    stamp_sector(&mut catalog, 3, 1);
    assert_eq!(catalog, vec![SectorInfo { progress: 12, ..a }, SectorInfo { last_water: 77, ..b }]);
    // credit stops at the ends
    let mut full = SectorInfo { progress: i64::MAX - 3, ..a };
    full.credit(7);
    assert_eq!(full.progress, i64::MAX);
    full.credit(-(i64::MAX as i128) - 10);
    assert_eq!(full.progress, 0);
    full.credit(15);
    assert_eq!(full.progress, 15);
}

#[test]
fn saturation_clamps_to_the_range() {
    assert_eq!(saturate_i128(0), 0);
    assert_eq!(saturate_i128(-5), -5);
    assert_eq!(saturate_i128(i64::MAX as i128 + 1), i64::MAX);
    assert_eq!(saturate_i128(i64::MIN as i128 - 1), i64::MIN);
    assert_eq!(saturate_i128(i128::MAX), i64::MAX);
    assert_eq!(saturate_i128(i128::MIN), i64::MIN);
}

#[test]
fn stop_signals_name_their_start_signals() {
    assert_eq!(WeatherSignal::RainStop.matching_start(), Some(WeatherSignal::RainStart));
    assert_eq!(WeatherSignal::WindLow.matching_start(), Some(WeatherSignal::WindHigh));
    assert_eq!(WeatherSignal::RainStart.matching_start(), None);
    assert_eq!(WeatherSignal::WindHigh.matching_start(), None);
}

#[test]
fn event_holds_what_it_was_given() {
    let sector = WaterSector::new(3, 10, 20);
    let event = WateringEvent::new(Some(10), sector, 55, Mode::Wizard);
    assert_eq!(event, WateringEvent { cycle_id: Some(10), sector, water_applied: 55, mode: Mode::Wizard });
}

#[test]
fn mock_clock_moves_only_when_told() {
    let mut clock = MockTimeProvider::new(100);
    assert_eq!(clock.now(), 100);
    assert_eq!(clock.now(), 100);
    clock.advance_time(1);
    assert_eq!(clock.now(), 101);
    clock.advance_time(-2);
    assert_eq!(clock.now(), 99);
    clock.set(5);
    assert_eq!(clock.now(), 5);
    clock.set(i64::MAX);
    clock.advance_time(1);
    assert_eq!(clock.now(), i64::MAX);
}
