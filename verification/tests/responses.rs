use nic::api::{CycleResponse, WateringStateResponse};
use nic::config::{Database, Watering, WebServer, CONFIG_FILE, MQTT};
use nic::text::decimal_string;
use nic::utils::{is_in_calendar_range, Weekday, MAX_TIMESTAMP};
use nic::watering::ds::{DailyPlan, SectorInfo, WaterSector, WeatherSignal};
use nic::watering::modes::Mode;
use nic::watering::schedule::Schedule;
use nic::watering::state_machine::{PausedData, SMState};
use nic::watering::watering_system::WateringSystem;
use nic::MAX_MSGS;

fn system() -> WateringSystem {
    let sectors = vec![SectorInfo::build(1, 90_000_000, 10_000, 1800, 0, 500, 0)];
    WateringSystem::new(sectors, Schedule::new(vec![]), Some(Mode::Wizard), 1_732_572_000, Watering::default())
}

#[test]
fn state_response_describes_the_machine() {
    let mut ws = system();
    let idle = ws.get_state();
    assert_eq!(idle.error, None);
    assert_eq!(idle.mode, Some("wizard".to_string()));
    assert_eq!(idle.state, Some("Idle".to_string()));
    assert_eq!(idle.current_cycle, None);

    let plan = DailyPlan(vec![WaterSector::new(1, 1_732_572_000, 1800), WaterSector::new(12, 1_732_573_820, 100)]);
    ws.sm.mode_wizard.daily_plan = vec![plan.clone()];
    ws.sm.update(1_732_572_000);
    let watering = ws.get_state();
    assert_eq!(watering.state, Some("Watering sector 1 for 30.00 minutes".to_string()));
    assert_eq!(watering.state, Some(format!("Watering sector {} for {:.2} minutes", 1, 1800 as f64 / 60.)));
    assert_eq!(
        watering.current_cycle,
        Some(
            "Cycle ID: 1732572000, Instructions: DailyPlan([WaterSector { id: 1, start: 1732572000, duration: 1800 }, \
             WaterSector { id: 12, start: 1732573820, duration: 100 }])"
                .to_string()
        )
    );
    assert_eq!(watering.current_cycle, Some(format!("Cycle ID: {}, Instructions: {:?}", 1_732_572_000i64, plan)));

    ws.sm.handle_signal(nic::watering::ds::CtrlSignal::Weather(WeatherSignal::RainStart), 1_732_572_010);
    let paused = ws.get_state();
    assert_eq!(paused.state, Some("Paused sector 1".to_string()));
    assert!(paused.current_cycle.is_some());

    ws.sm.state = SMState::Paused(PausedData { state: Box::new(SMState::Idle), signals: vec![] });
    assert_eq!(ws.get_state().state, Some("Paused".to_string()));

    ws.sm.trans_change_mode(Mode::Auto);
    assert_eq!(ws.get_state().mode, Some("auto".to_string()));
    ws.sm.trans_change_mode(Mode::Manual);
    assert_eq!(ws.get_state().mode, Some("manual".to_string()));
}

#[test]
fn minutes_are_written_as_the_float_format_writes_them() {
    let mut ws = system();
    for duration in (0..4000).chain([86_400, 1_000_000, 123_456_789]) {
        ws.sm.state = SMState::Watering(WaterSector::new(7, 0, duration));
        let expected = format!("Watering sector {} for {:.2} minutes", 7, duration as f64 / 60.);
        assert_eq!(ws.get_state().state, Some(expected));
    }
    ws.sm.state = SMState::Watering(WaterSector::new(7, 0, -90));
    assert_eq!(ws.get_state().state, Some("Watering sector 7 for -1.50 minutes".to_string()));
    ws.sm.state = SMState::Watering(WaterSector::new(u32::MAX, 0, 100));
    assert_eq!(ws.get_state().state, Some("Watering sector 4294967295 for 1.67 minutes".to_string()));
}

#[test]
fn cycle_response_lists_the_plan() {
    let mut ws = system();
    let none = ws.get_cycle();
    assert_eq!(none.error, None);
    assert_eq!(none.id, None);
    assert_eq!(none.instructions, None);
    ws.sm.mode_wizard.daily_plan =
        vec![DailyPlan(vec![WaterSector::new(1, 1_732_572_000, 1800), WaterSector::new(2, 1_732_573_820, 937)])];
    ws.sm.update(1_732_572_000);
    let some = ws.get_cycle();
    assert_eq!(some.error, None);
    assert_eq!(some.id, Some(1_732_572_000));
    assert_eq!(some.instructions, Some(vec![(1, "1800 minutes".to_string()), (2, "937 minutes".to_string())]));
}

#[test]
fn error_responses() {
    let state = WateringStateResponse::new_error();
    assert_eq!(state.error, Some("Error".to_string()));
    assert_eq!(state.mode, None);
    assert_eq!(state.state, None);
    assert_eq!(state.current_cycle, None);
    let cycle = CycleResponse::new_error();
    assert_eq!(cycle.error, Some("Error".to_string()));
    assert_eq!(cycle.id, None);
    assert_eq!(cycle.instructions, None);
}

#[test]
fn decimal_text_matches_the_standard_format() {
    for n in [0, 1, 9, 10, 11, 99, 100, 101, 12345, -1, -9, -10, -12345, i64::MAX, i64::MIN, i64::MIN + 1] {
        assert_eq!(decimal_string(n), format!("{}", n));
    }
}

#[test]
fn mode_names() {
    assert_eq!(Mode::Auto.to_string(), "auto");
    assert_eq!(Mode::Manual.to_string(), "manual");
    assert_eq!(Mode::Wizard.to_string(), "wizard");
    assert_eq!(Mode::from_str("auto"), Ok(Mode::Auto));
    assert_eq!(Mode::from_str("manual"), Ok(Mode::Manual));
    assert_eq!(Mode::from_str("wizard"), Ok(Mode::Wizard));
    assert_eq!(Mode::from_str("Auto"), Err("Invalid mode"));
    assert_eq!(Mode::from_str(""), Err("Invalid mode"));
    assert_eq!(Mode::from_str("auto "), Err("Invalid mode"));
    assert_eq!(Mode::from_usize(0), Some(Mode::Auto));
    assert_eq!(Mode::from_usize(1), Some(Mode::Manual));
    assert_eq!(Mode::from_usize(2), Some(Mode::Wizard));
    assert_eq!(Mode::from_usize(3), None);
}

#[test]
fn default_settings() {
    let watering = Watering::default();
    assert_eq!(watering.sector_transation_secs, 20);
    assert_eq!(watering.max_duration_secs, 1800);
    assert_eq!(watering.min_watering_secs, 300);
    assert_eq!(watering.window_start_hour, 22);
    assert_eq!(watering.window_duration_hours, 8);
    assert!(watering.is_valid());
    assert!(!Watering { sector_transation_secs: -1, ..watering }.is_valid());
    assert!(!Watering { window_start_hour: 24, ..watering }.is_valid());
    assert!(!Watering { window_duration_hours: 0, ..watering }.is_valid());
    assert!(!Watering { window_duration_hours: 25, ..watering }.is_valid());
    assert!(Watering { min_watering_secs: -5, max_duration_secs: 0, ..watering }.is_valid());
    assert_eq!(Database::default().name, "nic.db");
    assert_eq!(WebServer::default().address, "0.0.0.0:8080");
    assert_eq!(MQTT::default().address, "localhost:1883");
    assert_eq!(MQTT::default().client_id, "nic");
    assert_eq!(CONFIG_FILE, "./nic.toml");
    assert_eq!(MAX_MSGS, 100);
}

#[test]
fn weekday_numbers() {
    let days = [Weekday::Mon, Weekday::Tue, Weekday::Wed, Weekday::Thu, Weekday::Fri, Weekday::Sat, Weekday::Sun];
    for (i, day) in days.iter().enumerate() {
        assert_eq!(day.num_days_from_monday() as usize, i);
        assert_eq!(day.num_days_from_sunday() as usize, (i + 1) % 7);
        assert_eq!(Weekday::from_days_from_monday(i as i64), Some(*day));
    }
    assert_eq!(Weekday::from_days_from_monday(7), None);
    assert_eq!(Weekday::from_days_from_monday(-1), None);
    assert!(is_in_calendar_range(MAX_TIMESTAMP));
    assert!(is_in_calendar_range(-MAX_TIMESTAMP));
    assert!(!is_in_calendar_range(MAX_TIMESTAMP + 1));
    assert!(!is_in_calendar_range(-MAX_TIMESTAMP - 1));
}
