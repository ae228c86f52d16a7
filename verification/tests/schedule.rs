use chrono::{TimeZone, Utc};
use nic::utils::Weekday;
use nic::watering::ds::{DailyPlan, WaterSector};
use nic::watering::schedule::{load_auto_schedule, AllowedTimeframe, Schedule, ScheduleEntry, ScheduleType};

#[test]
fn allowed_timeframe() {
    // Example: Define a timeframe from 6:00 AM to 8:00 AM (2 hours)
    let timeframe = AllowedTimeframe::new(6, 2);

    // Set the base time to Nov 25, 2024, midnight (start of the day)
    let base_time = chrono::Utc.with_ymd_and_hms(2024, 11, 25, 0, 0, 0).unwrap().timestamp();

    // Compute the actual timeframe for the specific day
    let (start_time, end_time) = timeframe.for_day(base_time);

    // Verify the converted start and end times
    assert_eq!(start_time, chrono::Utc.with_ymd_and_hms(2024, 11, 25, 6, 0, 0).unwrap().timestamp());
    assert_eq!(end_time, chrono::Utc.with_ymd_and_hms(2024, 11, 25, 7, 59, 59).unwrap().timestamp());

    // Test if a time is within the timeframe
    let test_time = chrono::Utc.with_ymd_and_hms(2024, 11, 25, 7, 0, 0).unwrap().timestamp();
    assert!(timeframe.is_within(test_time, base_time));

    // Test a time outside the timeframe (after end time)
    let outside_time_after = chrono::Utc.with_ymd_and_hms(2024, 11, 25, 9, 0, 0).unwrap().timestamp();
    assert!(!timeframe.is_within(outside_time_after, base_time));

    // Test a time outside the timeframe (before start time)
    let outside_time_before = chrono::Utc.with_ymd_and_hms(2024, 11, 25, 5, 0, 0).unwrap().timestamp();
    assert!(!timeframe.is_within(outside_time_before, base_time));
}

#[test]
fn allowed_timeframe_ends_are_inclusive() {
    let timeframe = AllowedTimeframe::new(22, 8);
    assert_eq!(timeframe.start, 22 * 3600);
    assert_eq!(timeframe.duration, 8 * 3600);
    let base = 1_732_492_800;
    assert_eq!(timeframe.for_day(base), (base + 79_200, base + 108_000 - 1));
    assert!(timeframe.is_within(base + 79_200, base));
    assert!(timeframe.is_within(base + 107_999, base));
    assert!(!timeframe.is_within(base + 108_000, base));
    assert!(!timeframe.is_within(base + 79_199, base));
    // a length that is not positive is read across the end of the day
    let odd = AllowedTimeframe { start: 80_000, duration: -10 };
    assert_eq!(odd.for_day(base), (base + 80_000, base + 79_989));
    assert!(odd.is_within(base + 80_000, base));
    assert!(odd.is_within(base + 86_399, base));
    assert!(odd.is_within(base + 86_400, base));
    assert!(odd.is_within(base + 79_989 + 86_400, base));
    assert!(!odd.is_within(base + 79_990 + 86_400, base));
    assert!(!odd.is_within(base + 79_999, base));
}

#[test]
fn auto_schedule_is_laid_out_for_the_weekday() {
    let monday = Utc.with_ymd_and_hms(2023, 11, 27, 6, 0, 0).unwrap().timestamp();
    let midnight = Utc.with_ymd_and_hms(2023, 11, 27, 0, 0, 0).unwrap().timestamp();
    let schedule = Schedule::new(vec![
        ScheduleEntry {
            schedule_type: ScheduleType::Weekday(Weekday::Mon),
            // out of order, with two equal starts
            start_times: DailyPlan(vec![
                WaterSector::new(3, 9 * 3600, 60),
                WaterSector::new(1, 6 * 3600, 1800),
                WaterSector::new(4, 9 * 3600, 30),
                WaterSector::new(2, 7 * 3600, 1200),
                WaterSector::new(5, 9 * 3600, 10),
            ]),
        },
        ScheduleEntry {
            schedule_type: ScheduleType::Weekday(Weekday::Tue),
            start_times: DailyPlan(vec![WaterSector::new(6, 8 * 3600, 40 * 60)]),
        },
        ScheduleEntry { schedule_type: ScheduleType::Date(midnight), start_times: DailyPlan(vec![WaterSector::new(7, 100, 100)]) },
        ScheduleEntry { schedule_type: ScheduleType::Weekday(Weekday::Mon), start_times: DailyPlan(vec![]) },
        ScheduleEntry {
            schedule_type: ScheduleType::Weekday(Weekday::Mon),
            start_times: DailyPlan(vec![WaterSector::new(8, 0, 1)]),
        },
    ]);
    let plans = load_auto_schedule(&schedule, monday);
    assert_eq!(
        plans,
        vec![
            DailyPlan(vec![
                WaterSector::new(1, midnight + 6 * 3600, 1800),
                WaterSector::new(2, midnight + 7 * 3600, 1200),
                WaterSector::new(3, midnight + 9 * 3600, 60),
                WaterSector::new(4, midnight + 9 * 3600, 30),
                WaterSector::new(5, midnight + 9 * 3600, 10),
            ]),
            DailyPlan(vec![]),
            DailyPlan(vec![WaterSector::new(8, midnight, 1)]),
        ]
    );
    let tuesday = load_auto_schedule(&schedule, monday + 86_400);
    assert_eq!(tuesday, vec![DailyPlan(vec![WaterSector::new(6, midnight + 86_400 + 8 * 3600, 2400)])]);
    assert!(load_auto_schedule(&schedule, monday + 2 * 86_400).is_empty());
    assert!(load_auto_schedule(&Schedule::new(vec![]), monday).is_empty());
}

#[test]
fn auto_schedule_start_stops_at_the_end_of_the_range() {
    let monday = Utc.with_ymd_and_hms(2023, 11, 27, 6, 0, 0).unwrap().timestamp();
    let schedule = Schedule::new(vec![ScheduleEntry {
        schedule_type: ScheduleType::Weekday(Weekday::Mon),
        start_times: DailyPlan(vec![WaterSector::new(1, i64::MAX, 1), WaterSector::new(2, i64::MIN, 1)]),
    }]);
    let plans = load_auto_schedule(&schedule, monday);
    assert_eq!(plans[0].0[1].start, i64::MAX);
    assert_eq!(plans[0].0[0].start, i64::MIN + monday - 6 * 3600);
}
