use chrono::{Datelike, TimeZone, Utc, Weekday};
use nic::utils::get_week_day_from_ts;
use nic::utils::Weekday as Day;
use nic::watering::ds::{DailyPlan, SectorInfo, WaterSector};
use nic::watering::water_window::WaterWin;
use nic::watering::watering_alg::{
    adjust_daily_sector_progress, calc_daily_percolation, calc_daily_plan, calc_irrigation_time,
    calc_wizard_daily_plan, calculate_remaining_days, generate_daily_plan,
    get_next_watering_for_day, packing_is_possible, plan_for_day, sectors_are_valid,
};
use nic::watering::{UNITS_PER_CM, WEEKLY_RESET_DEPTH};

// Depth in centimetres to depth units.
fn cm(depth: f64) -> i64 {
    (depth * 36_000_000.0).round() as i64
}

// Rate in centimetres per hour to rate units.
fn cm_h(rate: f64) -> i64 {
    (rate * 10_000.0).round() as i64
}

// Rate in millimetres per hour to rate units.
fn mm_h(rate: f64) -> i64 {
    (rate * 1_000.0).round() as i64
}

// Depth units to centimetres.
fn as_cm(units: i64) -> f64 {
    units as f64 / UNITS_PER_CM as f64
}

fn build(
    id: u32, weekly_target: f64, sprinkler_debit: f64, max_duration: i64, progress: f64, percolation_rate: f64,
    last_water: i64,
) -> SectorInfo {
    SectorInfo::build(
        id,
        cm(weekly_target),
        cm_h(sprinkler_debit),
        max_duration,
        cm(progress),
        mm_h(percolation_rate),
        last_water,
    )
}

fn mock_sector(id: u32, weekly_target: f64, progress: f64, max_duration: i64, sprinkler_debit: f64) -> SectorInfo {
    SectorInfo {
        id,
        weekly_target: cm(weekly_target),
        progress: cm(progress),
        max_duration,
        sprinkler_debit: cm_h(sprinkler_debit),
        ..Default::default()
    }
}

fn mock_sector_info(
    id: u32, weekly_target: f64, progress: f64, sprinkler_debit: f64, percolation_rate: f64, max_duration: i64,
) -> SectorInfo {
    SectorInfo {
        id,
        weekly_target: cm(weekly_target),
        progress: cm(progress),
        sprinkler_debit: cm_h(sprinkler_debit),
        percolation_rate: mm_h(percolation_rate),
        max_duration,
        last_water: 0,
    }
}

#[test]
fn watering_alg_et_adjustments() {
    let mut sectors = vec![build(1, 3., 1., 30 * 60, 0.5, 0.5, 0)];
    adjust_daily_sector_progress(&mut sectors, cm(1.), cm(0.5), false);
    assert!(as_cm(sectors[0].progress) == 0.5 - 1. + 0.5)
}

#[test]
fn calc_irrigation_time_respects_max_duration() {
    let sector = mock_sector(1, 10.0, 5.0, 3600, 1.0); // Needs 5cm of water, 1cm/hr, max duration 1 hour
    let irrigation_time = calc_irrigation_time(&sector);
    assert_eq!(irrigation_time, Some(3600)); // Limited to 1 hour
}

#[test]
fn calc_irrigation_time_does_not_exceed_needs() {
    let sector = mock_sector(1, 10.0, 9.5, 3600, 1.0); // Needs 0.5cm, 1cm/hr
    let irrigation_time = calc_irrigation_time(&sector);
    assert_eq!(irrigation_time, Some(1800)); // Only needs 0.5 hour
}

#[test]
fn calculate_irrigation_time() {
    let sector = build(1, 2.5, 1.0, 30 * 60, 1., 0.5, 0);

    // No progress yet
    let result = calc_irrigation_time(&sector);
    assert_eq!(result, Some(30 * 60)); // 1.5 cm at 1.0 cm/hour
}

#[test]
fn daily_et_adjustment() {
    let mut sectors = vec![build(1, 2.5, 1., 30 * 60, 1.5, 0., 0), build(2, 1.8, 0.8, 20 * 60, 0.5, 0., 0)];

    let daily_et = 0.3;
    adjust_daily_sector_progress(&mut sectors, cm(daily_et), cm(0.), false);

    assert_eq!(as_cm(sectors[0].progress), 1.2); // Reduced by 0.3
    assert_eq!(as_cm(sectors[1].progress), 0.2); // Reduced by 0.3 but clamped to 0.2
}

#[test]
fn test_calculate_remaining_days() {
    // we checked that this day is a wednesday
    let current_time = Utc.with_ymd_and_hms(2024, 12, 11, 22, 0, 0).unwrap().timestamp(); // 6:00 AM UTC
    let remaining_days = calculate_remaining_days(current_time);

    // Assuming today is Wednesday
    let expected_days = 7 - Weekday::Wed.num_days_from_sunday() as i64;
    assert_eq!(remaining_days, expected_days);
}

#[test]
fn generate_weekly_plan_with_waterwin() {
    let sectors = vec![mock_sector_info(1, 10.0, 5.0, 2.0, 0.5, 3600), mock_sector_info(2, 15.0, 10.0, 1.5, 0.4, 3600)];
    let fixed_time = Utc.with_ymd_and_hms(2023, 12, 25, 0, 0, 0).unwrap().timestamp();
    let timeframe = WaterWin::new(fixed_time, 6, 12);

    let current_time = timeframe.day_start_time; // Fixed current time
    let remaining_days = calculate_remaining_days(current_time);
    let weekly_plan = generate_daily_plan(&sectors, remaining_days, timeframe, 20, 300);

    assert!(!weekly_plan.is_empty());
    if let Some(daily_plan) = weekly_plan.get(0) {
        assert!(!daily_plan.0.is_empty());
        assert!(daily_plan.0.iter().all(|sector| timeframe.is_within_or_future(sector.start)));
    }
}

#[test]
fn test_get_next_watering_for_day() {
    let fixed_time = Utc.with_ymd_and_hms(2024, 12, 14, 2, 0, 0).unwrap().timestamp();
    let mut sectors = vec![mock_sector_info(1, 10.0, 9.0, 1.0, 0.1, 3600), mock_sector_info(2, 8.0, 7.5, 0.8, 0.2, 2700)];
    let mut timeframe = WaterWin::new(fixed_time, 6, 12);

    // Call the function for morning session
    let result_morning = get_next_watering_for_day(&mut sectors, &mut timeframe, 1, true, 20, 300);

    // Assert that a valid daily plan is returned for morning
    assert!(result_morning.1.is_some(), "Morning session should have a valid daily plan.");
    let daily_plan = result_morning.1.unwrap();
    assert!(!daily_plan.0.is_empty(), "Morning session should have watering tasks.");

    // Validate evening session
    let result_evening = get_next_watering_for_day(&mut sectors, &mut timeframe, 7, false, 20, 300);

    // Assert that the evening session is valid only if more progress is needed
    if sectors.iter().any(|sec| sec.weekly_target > sec.progress) {
        assert!(result_evening.1.is_some(), "Evening session should have a valid daily plan if targets remain unmet.");
        let daily_plan = result_evening.1.unwrap();
        assert!(!daily_plan.0.is_empty(), "Evening session should have watering tasks.");
    } else {
        assert!(result_evening.1.is_none(), "Evening session should be None if all targets are met.");
    }
}

#[test]
fn test_calc_daily_plan_with_waterwin() {
    let sectors = vec![mock_sector_info(1, 10.0, 5.0, 2.0, 0.5, 3600), mock_sector_info(2, 15.0, 10.0, 1.5, 0.4, 3600)];
    let fixed_time = Utc.with_ymd_and_hms(2023, 12, 25, 0, 0, 0).unwrap().timestamp();
    let timeframe = WaterWin::new(fixed_time, 6, 12);
    let current_time = timeframe.day_start_time + 10;

    let daily_plan = calc_daily_plan(&sectors, current_time, timeframe);

    assert!(!daily_plan.is_empty());
    let daily_plan = daily_plan.get(0).unwrap();
    assert!(!daily_plan.0.is_empty());
}

#[test]
fn weekday_agrees_with_the_calendar() {
    assert_eq!(get_week_day_from_ts(0), Day::Thu);
    assert_eq!(get_week_day_from_ts(86_399), Day::Thu);
    assert_eq!(get_week_day_from_ts(86_400), Day::Fri);
    assert_eq!(get_week_day_from_ts(-1), Day::Wed);
    assert_eq!(get_week_day_from_ts(-86_400), Day::Wed);
    assert_eq!(get_week_day_from_ts(-86_401), Day::Tue);
    let monday = Utc.with_ymd_and_hms(2024, 11, 25, 5, 0, 0).unwrap().timestamp();
    assert_eq!(get_week_day_from_ts(monday), Day::Mon);
    assert_eq!(get_week_day_from_ts(monday + 6 * 86_400), Day::Sun);
    assert_eq!(get_week_day_from_ts(8_000_000_000_000), get_week_day_from_ts(8_000_000_000_000 - 7 * 86_400));
    // both ends of the calendar range are dates that the calendar holds
    for ts in [8_000_000_000_000i64, -8_000_000_000_000i64] {
        let expected = Utc.timestamp_opt(ts, 0).unwrap().weekday().num_days_from_monday();
        assert_eq!(get_week_day_from_ts(ts).num_days_from_monday(), expected);
        assert_eq!(expected as i64, (ts.div_euclid(86_400) + 3).rem_euclid(7));
    }
    // day by day against the calendar, on both sides of the epoch
    let mut ts: i64 = -400 * 86_400 + 17;
    while ts < 400 * 86_400 {
        let expected = Utc.timestamp_opt(ts, 0).unwrap().weekday().num_days_from_monday();
        assert_eq!(get_week_day_from_ts(ts).num_days_from_monday(), expected);
        ts += 86_400;
    }
}

#[test]
fn remaining_days_count_from_sunday() {
    let sunday = Utc.with_ymd_and_hms(2024, 12, 1, 12, 0, 0).unwrap().timestamp();
    let expected = [7, 6, 5, 4, 3, 2, 1];
    for (day, want) in expected.iter().enumerate() {
        assert_eq!(calculate_remaining_days(sunday + day as i64 * 86_400), *want);
    }
}

#[test]
fn irrigation_time_rounds_up_and_is_none_when_target_met() {
    // 1 unit over a whole number of seconds needs one second more
    let mut sector = mock_sector(1, 1.0, 0.0, 86_400, 1.0);
    sector.weekly_target = 10_000 * 100 + 1;
    assert_eq!(calc_irrigation_time(&sector), Some(101));
    sector.weekly_target = 10_000 * 100;
    assert_eq!(calc_irrigation_time(&sector), Some(100));
    sector.weekly_target = 1;
    assert_eq!(calc_irrigation_time(&sector), Some(1));
    sector.progress = 1;
    assert_eq!(calc_irrigation_time(&sector), None);
    sector.progress = 2;
    assert_eq!(calc_irrigation_time(&sector), None);
}

#[test]
fn percolation_is_a_day_at_the_rate() {
    let sector = build(1, 2.5, 1.6, 1800, 0., 0.29, 0);
    // 0.29 mm/h * 0.1 * 24 = 0.696 cm
    assert_eq!(calc_daily_percolation(&sector), cm(0.696));
    assert_eq!(calc_daily_percolation(&sector), 290 * 86_400);
}

#[test]
fn daily_adjustment_formula() {
    // progress 2.0, et 0.5, rain 0.1, percolation 0.29 mm/h -> 2.0 - (0.4 + 0.696) = 0.904
    let mut sectors = vec![build(1, 2.5, 1.6, 1800, 2.0, 0.29, 0)];
    adjust_daily_sector_progress(&mut sectors, cm(0.5), cm(0.1), false);
    assert_eq!(sectors[0].progress, cm(0.904));
    // a new week takes 2.5 cm more
    let mut sectors = vec![build(1, 2.5, 1.6, 1800, 5.0, 0.29, 0)];
    adjust_daily_sector_progress(&mut sectors, cm(0.5), cm(0.1), true);
    assert_eq!(sectors[0].progress, cm(5.0) - cm(0.4) - cm(0.696) - WEEKLY_RESET_DEPTH);
    assert_eq!(WEEKLY_RESET_DEPTH, cm(2.5));
    // never below zero
    let mut sectors = vec![build(1, 2.5, 1.6, 1800, 1.0, 0.29, 0)];
    adjust_daily_sector_progress(&mut sectors, cm(0.5), cm(0.1), true);
    assert_eq!(sectors[0].progress, 0);
    // rain above the losses raises the progress
    let mut sectors = vec![build(1, 2.5, 1.6, 1800, 1.0, 0., 0)];
    adjust_daily_sector_progress(&mut sectors, cm(0.1), cm(0.5), false);
    assert_eq!(sectors[0].progress, cm(1.4));
    // the other fields stay
    assert_eq!(sectors[0], SectorInfo { progress: cm(1.4), ..build(1, 2.5, 1.6, 1800, 1.0, 0., 0) });
}

#[test]
fn daily_adjustment_stops_at_the_ends_of_the_range() {
    let mut sectors = vec![build(1, 2.5, 1.6, 1800, 1.0, 0., 0)];
    adjust_daily_sector_progress(&mut sectors, i64::MIN, i64::MAX, false);
    assert_eq!(sectors[0].progress, i64::MAX);
    adjust_daily_sector_progress(&mut sectors, i64::MAX, i64::MIN, true);
    assert_eq!(sectors[0].progress, 0);
}

#[test]
fn morning_pass_packs_against_the_end_of_the_window() {
    // two sectors that must be watered today, 1800 s each
    let mut sectors = vec![build(1, 2.5, 1.6, 1800, 0., 0.29, 0), build(2, 2.5, 1.6, 1800, 0., 0.29, 0)];
    let monday = Utc.with_ymd_and_hms(2024, 12, 2, 0, 0, 0).unwrap().timestamp();
    let window = WaterWin { hour_start: 22, duration_secs: 8 * 3600, day_start_time: monday - 7200, day_end_time: monday + 6 * 3600 - 1 };
    let (need_evening, plan) = get_next_watering_for_day(&mut sectors, &window, 1, true, 20, 300);
    let end = window.day_end_time;
    assert_eq!(
        plan,
        Some(DailyPlan(vec![
            WaterSector::new(1, end - 1800 - 20 - 1800, 1800),
            WaterSector::new(2, end - 1800, 1800),
        ]))
    );
    // each was credited with half an hour at 1.6 cm/h
    assert_eq!(sectors[0].progress, cm(0.8));
    assert_eq!(sectors[1].progress, cm(0.8));
    // 1.7 cm are left and one day: more than the 0.8 cm that a day can give
    assert!(need_evening);
    // the evening pass starts at the start of the window it is given
    let next = window.next();
    let (_, evening) = get_next_watering_for_day(&mut sectors, &next, 1, false, 20, 300);
    assert_eq!(
        evening,
        Some(DailyPlan(vec![
            WaterSector::new(1, next.day_start_time, 1800),
            WaterSector::new(2, next.day_start_time + 1800 + 20, 1800),
        ]))
    );
    assert_eq!(sectors[0].progress, cm(1.6));
}

#[test]
fn pass_skips_short_sessions_and_sectors_that_can_wait() {
    let mut sectors = vec![
        // needs 299 s: under the shortest session
        SectorInfo { id: 1, sprinkler_debit: 10_000, percolation_rate: 0, max_duration: 1800, weekly_target: 2_990_000, progress: 0, last_water: 0 },
        // needs 300 s: just long enough
        SectorInfo { id: 2, sprinkler_debit: 10_000, percolation_rate: 0, max_duration: 1800, weekly_target: 3_000_000, progress: 0, last_water: 0 },
        // target met
        SectorInfo { id: 3, sprinkler_debit: 10_000, percolation_rate: 0, max_duration: 1800, weekly_target: 5, progress: 5, last_water: 0 },
    ];
    let before = sectors.clone();
    let window = WaterWin::new(1_700_000_000, 22, 8);
    let (need_evening, plan) = get_next_watering_for_day(&mut sectors, &window, 1, true, 20, 300);
    assert_eq!(plan, Some(DailyPlan(vec![WaterSector::new(2, window.day_end_time - 300, 300)])));
    assert!(!need_evening);
    assert_eq!(sectors[0], before[0]);
    assert_eq!(sectors[1].progress, 3_000_000);
    assert_eq!(sectors[2], before[2]);
    // with two days left the sector can wait: its need is within one day's capacity
    let mut sectors = before.clone();
    let (need_evening, plan) = get_next_watering_for_day(&mut sectors, &window, 2, true, 20, 300);
    assert_eq!(plan, None);
    assert!(!need_evening);
    assert_eq!(sectors, before);
}

#[test]
fn plan_for_two_sectors_needs_no_evening() {
    // two sectors, target 2.5 cm, 1.6 cm/h, at most 1800 s, on a Monday at midnight
    let sectors = vec![build(1, 2.5, 1.6, 1800, 0., 0.29, 0), build(2, 2.5, 1.6, 1800, 0., 0.29, 0)];
    let monday = Utc.with_ymd_and_hms(2024, 12, 2, 0, 0, 0).unwrap().timestamp();
    assert_eq!(calculate_remaining_days(monday), 6);
    // the window that is open at that midnight: 22:00 of the day before to 05:59:59
    let window = WaterWin::new(monday - 86_400, 22, 8);
    assert_eq!(window.day_end_time, monday + 6 * 3600 - 1);
    let plans = calc_wizard_daily_plan(&sectors, monday, window, 20, 300);
    // exactly one plan with two sessions and no evening session
    assert_eq!(plans.len(), 1);
    let plan = &plans[0].0;
    assert_eq!(plan.len(), 2);
    assert_eq!(plan[0].id, 1);
    assert_eq!(plan[1].id, 2);
    assert_eq!(plan[0].duration, 1800);
    assert_eq!(plan[1].duration, 1800);
    // the need of 2.5 cm can wait while the days after hold it: with a day's capacity of
    // 0.8 cm that is until four days are left, two days on
    let end = window.day_end_time + 2 * 86_400;
    assert_eq!(plan[1].start + plan[1].duration, end);
    assert_eq!(plan[0].start + plan[0].duration + 20, plan[1].start);
    // 05:59:59 and half an hour and twenty seconds before
    assert_eq!(end, Utc.with_ymd_and_hms(2024, 12, 4, 5, 59, 59).unwrap().timestamp());
    assert_eq!(plan[0].start, Utc.with_ymd_and_hms(2024, 12, 4, 4, 59, 39).unwrap().timestamp());
    // the sectors themselves are not credited
    assert_eq!(sectors[0].progress, 0);
}

#[test]
fn generated_plans_are_spaced_and_bounded() {
    let sectors = vec![
        build(1, 2.5, 1.6, 1800, 0., 0.29, 0),
        build(2, 1.0, 0.8, 1200, 0.2, 0.1, 0),
        build(3, 4.0, 1.0, 3600, 0.5, 0.0, 0),
        build(4, 0.5, 2.0, 900, 0.5, 0.0, 0),
        build(5, 3.0, 0.5, 2400, 0.0, 0.0, 0),
    ];
    let window = WaterWin::new(1_733_000_000, 22, 8);
    for remaining in 0..=7 {
        for slack in [0, 20, 600] {
            for min_secs in [0, 300, 1500] {
                let plans = generate_daily_plan(&sectors, remaining, window, slack, min_secs);
                assert!(plans.len() <= 2);
                for plan in plans.iter() {
                    assert!(!plan.0.is_empty());
                    for pair in plan.0.windows(2) {
                        assert_eq!(pair[1].start, pair[0].start + pair[0].duration + slack);
                    }
                    for element in plan.0.iter() {
                        let sector = sectors.iter().find(|s| s.id == element.id).unwrap();
                        assert!(element.duration >= min_secs);
                        assert!(element.duration > 0);
                        assert!(element.duration <= sector.max_duration);
                    }
                }
            }
        }
    }
}

#[test]
fn plan_lies_in_the_window_and_evening_in_the_next() {
    // one day left and heavy needs: morning and evening session
    let sectors = vec![build(1, 2.5, 1.6, 1800, 0., 0., 0), build(2, 2.5, 1.6, 1800, 0., 0., 0)];
    let window = WaterWin::new(1_733_000_000, 22, 8);
    let plans = generate_daily_plan(&sectors, 1, window, 20, 300);
    assert_eq!(plans.len(), 2);
    let morning = &plans[0].0;
    let evening = &plans[1].0;
    for element in morning.iter() {
        assert!(window.is_within(element.start));
        assert!(element.start + element.duration <= window.day_end_time);
    }
    assert_eq!(morning[1].start + morning[1].duration, window.day_end_time);
    let next = window.next();
    assert_eq!(evening[0].start, next.day_start_time);
    for element in evening.iter() {
        assert!(next.is_within(element.start));
        assert!(next.is_within(element.start + element.duration));
    }
}

#[test]
fn no_plan_without_need_or_days() {
    let window = WaterWin::new(1_733_000_000, 22, 8);
    let met = vec![build(1, 2.5, 1.6, 1800, 2.5, 0., 0), build(2, 2.5, 1.6, 1800, 3.0, 0., 0)];
    assert!(generate_daily_plan(&met, 7, window, 20, 300).is_empty());
    assert!(generate_daily_plan(&Vec::new(), 7, window, 20, 300).is_empty());
    let needy = vec![build(1, 2.5, 1.6, 1800, 0., 0., 0)];
    assert!(generate_daily_plan(&needy, 0, window, 20, 300).is_empty());
    assert!(!generate_daily_plan(&needy, 1, window, 20, 300).is_empty());
}

#[test]
fn validity_checks() {
    let good = build(1, 2.5, 1.6, 1800, 0., 0.29, 0);
    assert!(sectors_are_valid(&vec![good]));
    assert!(sectors_are_valid(&Vec::new()));
    assert!(!sectors_are_valid(&vec![good, SectorInfo { progress: -1, ..good }]));
    assert!(!sectors_are_valid(&vec![SectorInfo { max_duration: 0, ..good }]));
    assert!(!sectors_are_valid(&vec![SectorInfo { max_duration: 86_401, ..good }]));
    assert!(sectors_are_valid(&vec![SectorInfo { max_duration: 86_400, ..good }]));
    assert!(!sectors_are_valid(&vec![SectorInfo { sprinkler_debit: 0, ..good }]));
    assert!(!sectors_are_valid(&vec![SectorInfo { percolation_rate: -1, ..good }]));
    let window = WaterWin::new(1_733_000_000, 22, 8);
    assert!(packing_is_possible(100, &window, 20, 7));
    assert!(!packing_is_possible(100, &window, -1, 7));
    assert!(!packing_is_possible(usize::MAX, &window, 20, 7));
    let odd = WaterWin { day_start_time: 10, day_end_time: 9, ..window };
    assert!(!packing_is_possible(1, &odd, 20, 7));
}

#[test]
fn plan_for_day_plans_that_day_only() {
    let sectors = vec![build(1, 2.5, 1.6, 1800, 0., 0.29, 0), build(2, 2.5, 1.6, 1800, 0., 0.29, 0)];
    let window = WaterWin::new(1_733_000_000, 22, 8);
    // with six or five days left the need of 2.5 cm can wait: 0.8 cm a day will do
    assert!(plan_for_day(&sectors, 6, window, 20, 300).is_empty());
    assert!(plan_for_day(&sectors, 5, window, 20, 300).is_empty());
    // with four days left it cannot
    let plans = plan_for_day(&sectors, 4, window, 20, 300);
    assert_eq!(
        plans,
        vec![DailyPlan(vec![
            WaterSector::new(1, window.day_end_time - 1800 - 20 - 1800, 1800),
            WaterSector::new(2, window.day_end_time - 1800, 1800),
        ])]
    );
    // the look-ahead from six days left finds the same plan two days on
    let ahead = generate_daily_plan(&sectors, 6, window, 20, 300);
    assert_eq!(ahead.len(), 1);
    assert_eq!(ahead[0].0[1], WaterSector::new(2, window.day_end_time + 2 * 86_400 - 1800, 1800));
    // three days left and 2.5 cm owed: 1.7 cm are left after the morning, which three days can give
    let plans = plan_for_day(&sectors, 3, window, 20, 300);
    assert_eq!(plans.len(), 1);
    // 3.5 cm owed: 2.7 cm are left after the morning, more than three days can give
    let heavy = vec![build(1, 3.5, 1.6, 1800, 0., 0.29, 0)];
    let plans = plan_for_day(&heavy, 3, window, 20, 300);
    assert_eq!(
        plans,
        vec![
            DailyPlan(vec![WaterSector::new(1, window.day_end_time - 1800, 1800)]),
            DailyPlan(vec![WaterSector::new(1, window.day_start_time + 86_400, 1800)]),
        ]
    );
}
