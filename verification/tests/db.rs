use nic::db::{
    cycles_from_rows, rows_of_plans, rows_of_schedule, schedule_from_rows, CycleRow, PlanRow, ScheduleRow,
};
use nic::utils::Weekday;
use nic::watering::ds::{Cycle, DailyPlan, WaterSector};
use nic::watering::schedule::{Schedule, ScheduleEntry, ScheduleType};

fn load_auto_schedule(conn: &rusqlite::Connection) -> Result<Schedule, i64> {
    let mut stmt = conn
        .prepare(
            "SELECT day_of_week, sector_id, start_time, duration FROM auto_schedules ORDER BY day_of_week, sector_id, start_time",
        )
        .unwrap();
    let rows: Vec<ScheduleRow> = stmt
        .query_map([], |row| {
            Ok(ScheduleRow { day_of_week: row.get(0)?, sector_id: row.get(1)?, start_time: row.get(2)?, duration: row.get(3)? })
        })
        .unwrap()
        .map(|row| row.unwrap())
        .collect();
    schedule_from_rows(&rows)
}

#[test]
fn test_load_auto_schedule() {
    let conn = rusqlite::Connection::open_in_memory().unwrap();

    conn.execute(
        "CREATE TABLE auto_schedules (day_of_week INTEGER, sector_id INTEGER, start_time INTEGER, duration INTEGER)",
        [],
    )
    .unwrap();

    // Insert test data
    conn.execute(
        "INSERT INTO auto_schedules (day_of_week, sector_id, start_time, duration) VALUES (0, 101, 21600, 1800)",
        [],
    )
    .unwrap(); // Monday, sector 101, start time 06:00 UTC, 30 min duration
    conn.execute(
        "INSERT INTO auto_schedules (day_of_week, sector_id, start_time, duration) VALUES (0, 102, 28800, 3600)",
        [],
    )
    .unwrap(); // Monday, sector 102, start time 08:00 UTC, 60 min duration
    conn.execute(
        "INSERT INTO auto_schedules (day_of_week, sector_id, start_time, duration) VALUES (1, 201, 18000, 1200)",
        [],
    )
    .unwrap(); // Tuesday, sector 201, start time 05:00 UTC, 20 min duration

    let schedule = load_auto_schedule(&conn).unwrap();

    // Verify that we have two entries: one for Monday and one for Tuesday
    assert_eq!(schedule.entries.len(), 2);

    // Check Monday's schedule
    let monday_schedule =
        schedule.entries.iter().find(|entry| matches!(entry.schedule_type, ScheduleType::Weekday(Weekday::Mon))).unwrap();
    assert_eq!(
        monday_schedule.start_times.0,
        vec![WaterSector::new(101, 21600, 1800), WaterSector::new(102, 28800, 3600)] // Verify start times and durations
    );

    // Check Tuesday's schedule
    let tuesday_schedule =
        schedule.entries.iter().find(|entry| matches!(entry.schedule_type, ScheduleType::Weekday(Weekday::Tue))).unwrap();
    assert_eq!(
        tuesday_schedule.start_times.0,
        vec![WaterSector::new(201, 18000, 1200)] // Verify start time and duration
    );
}

#[test]
fn rows_group_by_weekday_in_order_of_first_appearance() {
    let row = |day_of_week, sector_id, start_time, duration| ScheduleRow { day_of_week, sector_id, start_time, duration };
    let rows = vec![row(2, 1, 10, 1), row(0, 2, 20, 2), row(2, 3, 5, 3), row(6, 4, 0, 4), row(0, 5, 1, 5)];
    let schedule = schedule_from_rows(&rows).unwrap();
    assert_eq!(
        schedule,
        Schedule::new(vec![
            ScheduleEntry {
                schedule_type: ScheduleType::Weekday(Weekday::Wed),
                start_times: DailyPlan(vec![WaterSector::new(1, 10, 1), WaterSector::new(3, 5, 3)]),
            },
            ScheduleEntry {
                schedule_type: ScheduleType::Weekday(Weekday::Mon),
                start_times: DailyPlan(vec![WaterSector::new(2, 20, 2), WaterSector::new(5, 1, 5)]),
            },
            ScheduleEntry {
                schedule_type: ScheduleType::Weekday(Weekday::Sun),
                start_times: DailyPlan(vec![WaterSector::new(4, 0, 4)]),
            },
        ])
    );
    assert_eq!(schedule_from_rows(&vec![]), Ok(Schedule::new(vec![])));
    // the first row that names no weekday is the error
    assert_eq!(schedule_from_rows(&vec![row(0, 1, 1, 1), row(7, 1, 1, 1), row(-1, 1, 1, 1)]), Err(7));
    assert_eq!(schedule_from_rows(&vec![row(-3, 1, 1, 1)]), Err(-3));
    // and back: entry after entry, dates left out
    let mut with_date = schedule.clone();
    with_date.entries.insert(
        1,
        ScheduleEntry { schedule_type: ScheduleType::Date(86_400), start_times: DailyPlan(vec![WaterSector::new(9, 9, 9)]) },
    );
    assert_eq!(
        rows_of_schedule(&with_date),
        vec![row(2, 1, 10, 1), row(2, 3, 5, 3), row(0, 2, 20, 2), row(0, 5, 1, 5), row(6, 4, 0, 4)]
    );
    assert_eq!(schedule_from_rows(&rows_of_schedule(&schedule)), Ok(schedule));
}

#[test]
fn plans_are_stored_row_by_row() {
    let plans = vec![
        (86_400, DailyPlan(vec![WaterSector::new(1, 90_000, 60), WaterSector::new(2, 90_100, 30)])),
        (172_800, DailyPlan(vec![])),
        (259_200, DailyPlan(vec![WaterSector::new(1, 260_000, 10)])),
    ];
    assert_eq!(
        rows_of_plans(&plans),
        vec![
            PlanRow { date: 86_400, sector_id: 1, start_time: 90_000, duration: 60 },
            PlanRow { date: 86_400, sector_id: 2, start_time: 90_100, duration: 30 },
            PlanRow { date: 259_200, sector_id: 1, start_time: 260_000, duration: 10 },
        ]
    );
    assert!(rows_of_plans(&vec![]).is_empty());
}

#[test]
fn cycles_group_by_identifier() {
    let row = |cycle_id, sector_id, start_time, duration_minutes| CycleRow { cycle_id, sector_id, start_time, duration_minutes };
    let cycles = cycles_from_rows(&vec![row(5, 1, 100, 30), row(7, 2, 200, 1), row(5, 3, 300, 2), row(9, 1, 0, i64::MAX)]);
    assert_eq!(
        cycles,
        vec![
            Cycle { id: 5, daily_plan: DailyPlan(vec![WaterSector::new(1, 100, 1800), WaterSector::new(3, 300, 120)]), curr_sector: usize::MAX },
            Cycle { id: 7, daily_plan: DailyPlan(vec![WaterSector::new(2, 200, 60)]), curr_sector: usize::MAX },
            Cycle { id: 9, daily_plan: DailyPlan(vec![WaterSector::new(1, 0, i64::MAX)]), curr_sector: usize::MAX },
        ]
    );
    assert!(cycles_from_rows(&vec![]).is_empty());
}
