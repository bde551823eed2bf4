use brightness_core::scheduler::{
    fire_decision, fire_if_due, maybe_fire, schedule_targets, scheduled_local_time, LocalTime, FireDecision, FiredLog, LocalDate, LocalNow, ScheduleEntry,
};
use chrono::{Local, NaiveDate, TimeZone};

fn day(d: u32) -> LocalDate {
    LocalDate { year: 2024, month: 6, day: d }
}

fn entry(time: &str, days: Vec<u8>) -> ScheduleEntry {
    ScheduleEntry {
        id: "evening".to_string(),
        enabled: true,
        time: time.to_string(),
        days,
        monitor_ids: Vec::new(),
        brightness_percent: 30,
    }
}

fn local_ts(d: u32, h: u32, m: u32) -> i64 {
    let naive = NaiveDate::from_ymd_opt(2024, 6, d).unwrap().and_hms_opt(h, m, 0).unwrap();
    Local.from_local_datetime(&naive).single().unwrap().timestamp()
}

#[test]
fn decisions() {
    assert_eq!(fire_decision(1000, None, false), FireDecision::Wait);
    assert_eq!(fire_decision(999, Some(1000), false), FireDecision::Wait);
    assert_eq!(fire_decision(1000, Some(1000), false), FireDecision::Fire);
    assert_eq!(fire_decision(1000 + 659, Some(1000), false), FireDecision::Fire);
    assert_eq!(fire_decision(1000 + 660, Some(1000), false), FireDecision::Expire);
    assert_eq!(fire_decision(1000 + 60, Some(1000), true), FireDecision::Wait);
}

#[test]
fn fired_log_records_last_day() {
    let mut log = FiredLog::new();
    assert_eq!(log.get(&"a".to_string()), None);
    log.insert("a".to_string(), day(1));
    log.insert("b".to_string(), day(2));
    log.insert("a".to_string(), day(3));
    assert_eq!(log.get(&"a".to_string()), Some(day(3)));
    assert_eq!(log.get(&"b".to_string()), Some(day(2)));
    assert_eq!(log.get(&"c".to_string()), None);
}

#[test]
fn fires_once_per_day() {
    let mut log = FiredLog::new();
    let id = "e".to_string();
    let now = LocalNow { timestamp: 5_000, date: day(15), weekday: 6 };
    assert!(fire_if_due(&id, &now, Some(4_900), &mut log));
    assert_eq!(log.get(&id), Some(day(15)));
    let later = LocalNow { timestamp: 5_060, date: day(15), weekday: 6 };
    assert!(!fire_if_due(&id, &later, Some(4_900), &mut log));
    let next_day = LocalNow { timestamp: 5_000 + 86_400, date: day(16), weekday: 0 };
    assert!(fire_if_due(&id, &next_day, Some(4_900 + 86_400), &mut log));
    assert_eq!(log.get(&id), Some(day(16)));
}

#[test]
fn missed_window_is_marked_done_without_firing() {
    let mut log = FiredLog::new();
    let id = "e".to_string();
    let now = LocalNow { timestamp: 10_000, date: day(15), weekday: 6 };
    assert!(!fire_if_due(&id, &now, Some(10_000 - 11 * 60), &mut log));
    assert_eq!(log.get(&id), Some(day(15)));
    let early = LocalNow { timestamp: 100, date: day(17), weekday: 1 };
    assert!(!fire_if_due(&id, &early, Some(200), &mut log));
    assert_eq!(log.get(&id), Some(day(15)));
    assert!(!fire_if_due(&id, &early, None, &mut log));
    assert_eq!(log.get(&id), Some(day(15)));
}

#[test]
fn invalid_time_is_reported() {
    let mut log = FiredLog::new();
    let now = LocalNow { timestamp: 0, date: day(15), weekday: 6 };
    let e = maybe_fire(&entry("25:99", vec![]), &now, &mut log).unwrap_err();
    assert!(e.starts_with("invalid time \"25:99\": "), "{e}");
    let e = maybe_fire(&entry("noon", vec![]), &now, &mut log).unwrap_err();
    assert!(e.starts_with("invalid time \"noon\": "), "{e}");
    assert_eq!(log.get(&"evening".to_string()), None);
}

#[test]
fn other_weekdays_are_skipped() {
    let mut log = FiredLog::new();
    let ts = local_ts(15, 21, 0);
    let now = LocalNow { timestamp: ts + 60, date: day(15), weekday: 6 };
    assert_eq!(maybe_fire(&entry("21:00", vec![1, 2, 3, 4, 5]), &now, &mut log), Ok(false));
    assert_eq!(log.get(&"evening".to_string()), None);
}

#[test]
fn due_entry_fires_in_local_time() {
    let mut log = FiredLog::new();
    let ts = local_ts(15, 21, 0);
    let before = LocalNow { timestamp: ts - 60, date: day(15), weekday: 6 };
    assert_eq!(maybe_fire(&entry("21:00", vec![6]), &before, &mut log), Ok(false));
    assert_eq!(log.get(&"evening".to_string()), None);
    let now = LocalNow { timestamp: ts + 120, date: day(15), weekday: 6 };
    assert_eq!(maybe_fire(&entry("21:00", vec![6]), &now, &mut log), Ok(true));
    assert_eq!(log.get(&"evening".to_string()), Some(day(15)));
    assert_eq!(maybe_fire(&entry("21:00", vec![6]), &now, &mut log), Ok(false));
}

#[test]
fn late_entry_expires_in_local_time() {
    let mut log = FiredLog::new();
    let ts = local_ts(15, 8, 0);
    let now = LocalNow { timestamp: ts + 3 * 3600, date: day(15), weekday: 6 };
    assert_eq!(maybe_fire(&entry("08:00", vec![]), &now, &mut log), Ok(false));
    assert_eq!(log.get(&"evening".to_string()), Some(day(15)));
}

#[test]
fn scheduled_local_time_reads_hour_and_minute() {
    let now = LocalNow { timestamp: 0, date: day(15), weekday: 6 };
    assert_eq!(
        scheduled_local_time(&entry("05:10", vec![]), &now),
        Some(LocalTime { date: day(15), hour: 5, minute: 10 })
    );
    assert_eq!(scheduled_local_time(&entry("7:5", vec![]), &now), Some(LocalTime { date: day(15), hour: 7, minute: 5 }));
    assert_eq!(scheduled_local_time(&entry("24:00", vec![]), &now), None);
}

#[test]
fn entry_does_not_fire_at_swapped_time() {
    // 05:10 is due at 05:10, not at 10:05.
    let mut log = FiredLog::new();
    let ts = local_ts(15, 10, 5);
    let now = LocalNow { timestamp: ts, date: day(15), weekday: 6 };
    assert_eq!(maybe_fire(&entry("05:10", vec![]), &now, &mut log), Ok(false));
    assert_eq!(log.get(&"evening".to_string()), Some(day(15)));
    let mut log = FiredLog::new();
    let ts = local_ts(15, 5, 10);
    let now = LocalNow { timestamp: ts + 30, date: day(15), weekday: 6 };
    assert_eq!(maybe_fire(&entry("05:10", vec![]), &now, &mut log), Ok(true));
}

#[test]
fn invalid_time_message_quotes_the_time() {
    let mut log = FiredLog::new();
    let now = LocalNow { timestamp: 0, date: day(15), weekday: 6 };
    let e = maybe_fire(&entry("ab\"c", vec![]), &now, &mut log).unwrap_err();
    assert!(e.starts_with("invalid time \"ab\\\"c\": "), "{e}");
    assert!(e.len() > "invalid time \"ab\\\"c\": ".len());
}

#[test]
fn schedule_target_positions() {
    let ids: Vec<String> = ["a", "b", "a", "c"].iter().map(|s| s.to_string()).collect();
    assert_eq!(schedule_targets(&ids, &vec![]), vec![0, 1, 2, 3]);
    assert_eq!(schedule_targets(&ids, &vec!["c".to_string(), "a".to_string()]), vec![3, 0, 2]);
    assert_eq!(schedule_targets(&ids, &vec!["x".to_string()]), Vec::<usize>::new());
    assert_eq!(schedule_targets(&ids, &vec!["b".to_string(), "b".to_string()]), vec![1, 1]);
}
