use secure_chat::clock::{self, Date, Moment};
use secure_chat::tracker::{format_span, TimeEntry, TimeTracker};

const SECOND: i128 = 1_000_000_000;
const MINUTE: i128 = 60 * SECOND;

fn at(secs: i64) -> Moment {
    Moment { secs, nanos: 0, offset: 0 }
}

fn entry(name: &str, start: i64, end: Option<i64>, target: Option<i128>) -> TimeEntry {
    TimeEntry {
        activity: name.to_string(),
        start: at(start),
        end: end.map(at),
        target_duration: target,
    }
}

fn date(year: i32, month: u32, day: u32) -> Date {
    Date::new(year, month, day).unwrap()
}

fn names(entries: &Vec<TimeEntry>) -> Vec<String> {
    entries.iter().map(|e| e.activity.clone()).collect()
}

#[test]
fn spans_are_written_in_hours_minutes_and_seconds() {
    assert_eq!(format_span(0), "0h 0m 0s");
    assert_eq!(format_span(3_725 * SECOND + 999_999_999), "1h 2m 5s");
    assert_eq!(format_span(100 * 3600 * SECOND), "100h 0m 0s");
    assert_eq!(format_span(-3_725 * SECOND), "-1h -2m -5s");
    assert_eq!(format_span(-1), "0h 0m 0s");
}

#[test]
fn whole_parts_of_spans_drop_the_fraction() {
    assert_eq!(clock::num_seconds(-1_500_000_000), -1);
    assert_eq!(clock::num_minutes(119 * SECOND), 1);
    assert_eq!(clock::num_hours(-7_199 * SECOND), -1);
    assert_eq!(clock::remainder(-125, 60), -5);
}

#[test]
fn durations_run_to_the_end_or_to_now() {
    let now = at(1_000);
    assert_eq!(entry("a", 900, None, None).duration(&now), 100 * SECOND);
    assert_eq!(entry("a", 900, Some(930), None).duration(&now), 30 * SECOND);
    assert_eq!(entry("a", 1_100, None, None).duration(&now), -100 * SECOND);
    assert_eq!(entry("a", 900, Some(930), None).format_duration(&now), "0h 0m 30s");
}

#[test]
fn countdowns_show_what_is_left() {
    let now = at(1_000);
    let running = entry("a", 900, None, Some(25 * MINUTE));
    assert!(running.is_countdown());
    assert!(running.can_count(&now));
    assert_eq!(running.remainig_duration(&now), Some(1_400 * SECOND));
    assert!(!running.is_countdown_complete(&now));
    assert_eq!(running.format_countdown(&now), "0h 23m 20s");
    let over = entry("b", 900, None, Some(MINUTE));
    assert!(over.is_countdown_complete(&now));
    assert_eq!(over.format_countdown(&now), "DONE!");
    let nearly = TimeEntry { target_duration: Some(100 * SECOND + 1), ..entry("c", 900, None, None) };
    assert!(nearly.is_countdown_complete(&now));
    let plain = entry("d", 900, None, None);
    assert!(!plain.is_countdown());
    assert!(!plain.is_countdown_complete(&now));
    assert_eq!(plain.remainig_duration(&now), None);
    assert_eq!(plain.format_countdown(&now), "0h 1m 40s");
    let endless = entry("e", 1_100, None, Some(clock::MAX_SPAN));
    assert!(!endless.can_count(&now));
}

#[test]
fn a_running_task_is_not_started_again() {
    let mut t = TimeTracker::new();
    assert_eq!(t.start("read", &at(10)), Ok(()));
    assert_eq!(t.start("read", &at(20)), Err("Task 'read' is already active".to_string()));
    assert_eq!(t.start_countdown("read", 5, &at(20)), Err("Task 'read' is already active".to_string()));
    assert_eq!(t.start_countdown("write", 5, &at(30)), Ok(()));
    assert_eq!(names(&t.active_entries), vec!["read".to_string(), "write".to_string()]);
    assert_eq!(t.active_entries[0].start, at(10));
    assert_eq!(t.active_entries[0].target_duration, None);
    assert_eq!(t.active_entries[1].target_duration, Some(5 * MINUTE));
    assert!(t.is_active("write"));
    assert!(!t.is_active("Write"));
}

#[test]
fn stopping_moves_a_task() {
    let mut t = TimeTracker::new();
    t.start("a", &at(10)).unwrap();
    t.start("b", &at(20)).unwrap();
    assert_eq!(t.stop(2, &at(50)), Err("Invalid task index".to_string()));
    assert_eq!(t.stop(0, &at(50)), Ok("a".to_string()));
    assert_eq!(names(&t.active_entries), vec!["b".to_string()]);
    assert_eq!(names(&t.entries), vec!["a".to_string()]);
    assert_eq!(t.entries[0].end, Some(at(50)));
    assert_eq!(t.start("a", &at(60)), Ok(()));
}

#[test]
fn countdowns_end_when_they_are_over() {
    let mut t = TimeTracker::new();
    t.start_countdown("short", 1, &at(100)).unwrap();
    t.start_countdown("long", 60, &at(100)).unwrap();
    assert!(t.can_stop(0));
    assert_eq!(t.stop(0, &at(1_000)), Ok("short".to_string()));
    let end = t.entries[0].end.unwrap();
    assert_eq!((end.secs, end.nanos), (160, 0));
    assert_eq!(t.stop(0, &at(1_000)), Ok("long".to_string()));
    assert_eq!(t.entries[1].end, Some(at(1_000)));
}

#[test]
fn a_countdown_stops_at_the_moment_it_is_over() {
    let mut t = TimeTracker::new();
    t.start_countdown("x", 1, &at(100)).unwrap();
    t.stop(0, &at(160)).unwrap();
    assert_eq!(t.entries[0].end, Some(at(160)));
}

#[test]
fn nanoseconds_carry_into_the_end_of_a_countdown() {
    let mut t = TimeTracker::new();
    t.active_entries.push(TimeEntry {
        activity: "x".to_string(),
        start: Moment { secs: -5, nanos: 999_999_999, offset: 0 },
        end: None,
        target_duration: Some(2),
    });
    t.active_entries.push(TimeEntry {
        activity: "y".to_string(),
        start: Moment { secs: 5, nanos: 0, offset: 0 },
        end: None,
        target_duration: Some(-1),
    });
    assert!(t.can_stop_all());
    assert_eq!(t.stop_all(&at(1_000)), 2);
    let end = t.entries[0].end.unwrap();
    assert_eq!((end.secs, end.nanos), (-4, 1));
    let end = t.entries[1].end.unwrap();
    assert_eq!((end.secs, end.nanos), (4, 999_999_999));
}

#[test]
fn a_given_end_is_taken_if_it_is_earlier() {
    let mut t = TimeTracker::new();
    t.start("a", &at(10)).unwrap();
    t.start("b", &at(10)).unwrap();
    let over = Moment { secs: 20, nanos: 0, offset: 7_200 };
    assert_eq!(t.stop_given(0, &at(30), Some(over)), Ok("a".to_string()));
    assert_eq!(t.entries[0].end, Some(over));
    assert_eq!(t.stop_given(0, &at(15), Some(over)), Ok("b".to_string()));
    assert_eq!(t.entries[1].end, Some(at(15)));
    assert_eq!(t.stop_given(0, &at(15), None), Err("Invalid task index".to_string()));
}

#[test]
fn ends_past_the_calendar_are_seen_beforehand() {
    let mut t = TimeTracker::new();
    t.start_countdown("x", 150_000_000_000_000, &at(100)).unwrap();
    assert!(!t.can_stop(0));
    assert!(!t.can_stop_all());
}

#[test]
fn stopping_all_keeps_the_order() {
    let mut t = TimeTracker::new();
    assert_eq!(t.stop_all(&at(5)), 0);
    for name in ["a", "b", "c"] {
        t.start(name, &at(10)).unwrap();
    }
    assert_eq!(t.stop_all(&at(50)), 3);
    assert!(t.active_entries.is_empty());
    assert_eq!(names(&t.entries), vec!["a".to_string(), "b".to_string(), "c".to_string()]);
    assert_eq!(t.delete_task(1), Ok("b".to_string()));
    assert_eq!(names(&t.entries), vec!["a".to_string(), "c".to_string()]);
    assert_eq!(t.delete_task(2), Err("Invalid task index".to_string()));
    assert_eq!(t.delete_all(), 2);
    assert_eq!(t.delete_all(), 0);
}

#[test]
fn the_clock_shows_a_moment_of_the_calendar() {
    let now = clock::now();
    assert!(now.secs > 1_600_000_000);
    assert!(now.nanos < 1_000_000_000);
    assert!(clock::is_zoned(&now));
    assert!(clock::date_of(&now).is_some());
}

#[test]
fn dates_are_those_of_the_local_clock() {
    let d = |secs: i64, offset: i32| clock::date_of(&Moment { secs, nanos: 0, offset }).unwrap();
    assert!(d(0, 0).same_day(&date(1970, 1, 1)));
    assert!(d(-1, 0).same_day(&date(1969, 12, 31)));
    assert!(d(-1, 1).same_day(&date(1970, 1, 1)));
    assert!(d(951_782_400, 0).same_day(&date(2000, 2, 29)));
    assert!(d(951_782_400, -1).same_day(&date(2000, 2, 28)));
    assert!(d(clock::MAX_SECS, 0).same_day(&date(262_142, 12, 31)));
    assert!(d(clock::MIN_SECS, 0).same_day(&date(-262_143, 1, 1)));
    assert!(clock::date_of(&Moment { secs: clock::MAX_SECS, nanos: 0, offset: 1 }).is_none());
    assert!(clock::date_of(&Moment { secs: clock::MIN_SECS, nanos: 0, offset: -1 }).is_none());
}

#[test]
fn only_days_that_there_are_make_dates() {
    assert!(Date::new(2023, 2, 29).is_none());
    assert!(Date::new(2024, 2, 29).is_some());
    assert!(Date::new(1900, 2, 29).is_none());
    assert!(Date::new(2000, 2, 29).is_some());
    assert!(Date::new(2024, 13, 1).is_none());
    assert!(Date::new(2024, 0, 1).is_none());
    assert!(Date::new(2024, 4, 31).is_none());
    assert!(Date::new(2024, 4, 0).is_none());
    assert!(Date::new(262_143, 1, 1).is_none());
    assert!(Date::new(-262_144, 12, 31).is_none());
    let d = date(2024, 2, 29);
    assert_eq!((d.year(), d.month(), d.day()), (2024, 2, 29));
    assert!(d.until(&date(2024, 3, 1)));
    assert!(d.until(&d));
    assert!(!date(2024, 3, 1).until(&d));
    assert!(!date(2025, 1, 1).until(&date(2024, 12, 31)));
    assert_eq!(clock::month_length(2024, 2), 29);
    assert_eq!(clock::month_length(-1, 2), 28);
    assert_eq!(clock::month_length(-4, 2), 29);
}

#[test]
fn dates_and_moments_are_written() {
    let d = date(2024, 2, 9);
    assert_eq!(clock::format_day(&d), "February 09, 2024");
    assert_eq!(clock::format_month(&d), "2024, 02");
    assert_eq!(clock::format_month_name(&d), "Feb");
    assert_eq!(clock::format_month(&date(7, 12, 31)), "0007, 12");
    assert_eq!(clock::format_month(&date(-7, 12, 31)), "-0007, 12");
    assert_eq!(clock::format_month(&date(12_345, 1, 1)), "+12345, 01");
    assert_eq!(clock::format_day(&date(-12_345, 9, 1)), "September 01, -12345");
    let m = Moment { secs: 951_782_400, nanos: 5, offset: 3_660 };
    assert_eq!(clock::format_stamp(&m), "02-29-2000 01:01");
    let before = Moment { secs: -1, nanos: 0, offset: 0 };
    assert_eq!(clock::format_stamp(&before), "12-31-1969 23:59");
}

#[test]
fn clocks_beyond_the_calendar_are_written() {
    let last = Moment { secs: clock::MAX_SECS, nanos: 0, offset: 0 };
    assert_eq!(clock::format_stamp(&last), "12-31-+262142 23:59");
    let after = Moment { offset: 3_600, ..last };
    assert!(clock::date_of(&after).is_none());
    assert_eq!(clock::format_stamp(&after), "01-01-+262143 00:59");
    let first = Moment { secs: clock::MIN_SECS, nanos: 0, offset: 0 };
    assert_eq!(clock::format_stamp(&first), "01-01--262143 00:00");
    let ahead = Moment { offset: -3_600, ..first };
    assert!(clock::date_of(&ahead).is_none());
    assert_eq!(clock::format_stamp(&ahead), "12-31--262144 23:00");
}

#[test]
fn tasks_of_a_day_are_those_that_ended_on_it() {
    let mut t = TimeTracker::new();
    t.entries.push(entry("before", 0, Some(86_399), None));
    t.entries.push(entry("over midnight", 80_000, Some(86_400), None));
    t.entries.push(entry("running", 86_500, None, None));
    t.entries.push(entry("later", 90_000, Some(90_060), None));
    t.entries.push(entry("next", 90_000, Some(172_800), None));
    t.entries.push(TimeEntry {
        end: Some(Moment { secs: 172_800, nanos: 0, offset: -60 }),
        ..entry("west", 172_790, None, None)
    });
    let now = at(0);
    assert!(t.can_date());
    let day = date(1970, 1, 2);
    assert_eq!(t.task_on_date(&day), 3);
    assert!(t.can_total(&day, &day, &now));
    assert_eq!(t.duration_on_date(&day, &now), (6_400 + 60 + 10) * SECOND);
    let found = t.task_in_range(&date(1970, 1, 1), &day);
    assert_eq!(
        found.iter().map(|e| e.activity.as_str()).collect::<Vec<_>>(),
        vec!["before", "over midnight", "later", "west"]
    );
    assert_eq!(t.task_in_range(&day, &date(1970, 1, 1)).len(), 0);
    assert_eq!(t.duration_in_range(&date(1970, 1, 1), &day, &now), (86_399 + 6_470) * SECOND);
    t.entries.push(TimeEntry {
        end: Some(Moment { secs: clock::MAX_SECS, nanos: 0, offset: 1 }),
        ..entry("never", 0, None, None)
    });
    assert!(!t.can_date());
}

#[test]
fn totals_past_the_longest_span_are_seen_beforehand() {
    let mut t = TimeTracker::new();
    for _ in 0..600 {
        t.entries.push(entry("long", clock::MIN_SECS, Some(clock::MAX_SECS), None));
    }
    let last = date(262_142, 12, 31);
    assert!(!t.can_total(&last, &last, &at(0)));
    t.entries.truncate(500);
    assert!(t.can_total(&last, &last, &at(0)));
}
