use ratatui::buffer::Buffer;
use ratatui::layout::Rect;
use ratatui::text::{Line, Span};
use ratatui::widgets::{Paragraph, Widget, Wrap};
use secure_chat::app::{App, InputMode, Key, Screen};
use secure_chat::chat::{ChatState, Color};
use secure_chat::clock::{Date, Moment};
use secure_chat::command::Request;
use secure_chat::controls;
use secure_chat::known_users::KnownUsers;
use secure_chat::paths;
use secure_chat::screens;
use secure_chat::text;
use secure_chat::tracker::{TimeEntry, TimeTracker};

fn at(secs: i64) -> Moment {
    Moment { secs, nanos: 0, offset: 0 }
}

fn date(year: i32, month: u32, day: u32) -> Date {
    Date::new(year, month, day).unwrap()
}

fn app_on(tracker: TimeTracker, today: Date) -> App {
    App::new(tracker, ChatState::new(KnownUsers::new()), today)
}

fn app() -> App {
    app_on(TimeTracker::new(), date(2024, 5, 15))
}

fn press(app: &mut App, key: Key, now: i64) {
    assert!(app.can_handle(key));
    assert!(matches!(app.handle_key_event_at(key, &at(now)), Request::Nothing));
}

fn type_in(app: &mut App, text: &str, now: i64) {
    for c in text.chars() {
        press(app, Key::Char(c), now);
    }
}

fn said(app: &App) -> (Option<String>, Color) {
    (app.message().clone(), app.message_color())
}

fn message(text: &str, color: Color) -> (Option<String>, Color) {
    (Some(text.to_string()), color)
}

fn entry(name: &str, start: i64, end: Option<i64>, target: Option<i128>) -> TimeEntry {
    TimeEntry {
        activity: name.to_string(),
        start: at(start),
        end: end.map(at),
        target_duration: target,
    }
}

fn countdown(app: &mut App, line: &str, now: i64) {
    press(app, Key::Char('t'), now);
    type_in(app, line, now);
    press(app, Key::Enter, now);
}

#[test]
fn program_starts_on_the_main_screen() {
    let app = app();
    assert_eq!(app.screen(), Screen::Main);
    assert_eq!(app.mode(), InputMode::Normal);
    assert!(!app.exit());
    assert_eq!(said(&app), (None, Color::Green));
    assert_eq!(app.selected(), Some(0));
    assert!(app.selected_day().is_none());
    assert!(app.calendar_date().same_day(&date(2024, 5, 15)));
    assert_eq!(app.chat().messages().len(), 0);
}

#[test]
fn q_leaves_from_the_main_screen_alone() {
    let mut a = app();
    press(&mut a, Key::Char('Q'), 0);
    assert!(a.exit());
    let mut b = app();
    press(&mut b, Key::Char('h'), 0);
    press(&mut b, Key::Char('q'), 0);
    assert!(!b.exit());
    assert_eq!(b.screen(), Screen::Main);
}

#[test]
fn countdowns_are_typed_in() {
    let mut a = app();
    countdown(&mut a, " Study : 25", 100);
    assert_eq!(said(&a), message("Invalid minutes format", Color::Red));
    countdown(&mut a, " Study :25", 100);
    assert_eq!(said(&a), message("Started countdown: Study (25 min)", Color::Green));
    assert!(a.take_unsaved());
    assert!(!a.take_unsaved());
    countdown(&mut a, "Study:1", 100);
    assert_eq!(said(&a), message("Error: Task 'Study' is already active", Color::Red));
    countdown(&mut a, "Other:0", 100);
    assert_eq!(said(&a), message("Minutes must be positive", Color::Red));
    countdown(&mut a, "Other:-3", 100);
    assert_eq!(said(&a), message("Minutes must be positive", Color::Red));
    countdown(&mut a, "Other", 100);
    assert_eq!(said(&a), message("Format: TaskName:Minutes (e.g., Study:25)", Color::Red));
    assert!(!a.take_unsaved());
    assert_eq!(a.tracker().active_entries.len(), 1);
    assert_eq!(a.mode(), InputMode::Normal);
    assert_eq!(a.input(), "");
    press(&mut a, Key::Char('t'), 100);
    assert_eq!(said(&a).0, None);
    press(&mut a, Key::Enter, 100);
    assert_eq!(said(&a).0, None);
    assert_eq!(a.mode(), InputMode::Normal);
}

#[test]
fn countdowns_past_the_longest_span_are_seen_beforehand() {
    let mut a = app();
    press(&mut a, Key::Char('t'), 0);
    type_in(&mut a, "x:9223372036854775807", 0);
    assert!(!a.can_handle(Key::Enter));
    press(&mut a, Key::Esc, 0);
    countdown(&mut a, "x:153722867280912", 0);
    assert_eq!(said(&a).1, Color::Green);
    assert!(!a.can_handle(Key::Char('x')));
    assert!(!a.can_handle(Key::Char('A')));
    assert!(a.can_handle(Key::Char('h')));
}

#[test]
fn input_can_be_erased_and_given_up() {
    let mut a = app();
    press(&mut a, Key::Char('T'), 0);
    type_in(&mut a, "ab", 0);
    press(&mut a, Key::Backspace, 0);
    assert_eq!(a.input(), "a");
    press(&mut a, Key::Left, 0);
    assert_eq!(a.input(), "a");
    press(&mut a, Key::Esc, 0);
    assert_eq!(said(&a), message("Cancelled", Color::Yellow));
    assert_eq!((a.mode(), a.input()), (InputMode::Normal, ""));
}

#[test]
fn x_stops_the_only_task_and_asks_for_one_of_several() {
    let mut a = app();
    press(&mut a, Key::Char('x'), 0);
    assert_eq!(said(&a), message("✗ No active tasks to stop", Color::Red));
    countdown(&mut a, "one:10", 0);
    press(&mut a, Key::Char('x'), 60);
    assert_eq!(said(&a), message("✓ Stopped task: one", Color::Green));
    assert_eq!(a.tracker().entries[0].end, Some(at(60)));
    for name in ["a:1", "b:2", "c:3"] {
        countdown(&mut a, name, 100);
    }
    press(&mut a, Key::Char('X'), 110);
    assert_eq!(a.mode(), InputMode::StopTask);
    type_in(&mut a, "9x", 110);
    assert_eq!(a.input(), "9");
    press(&mut a, Key::Enter, 110);
    assert_eq!(said(&a), message("✗ Invalid task number (1-3)", Color::Red));
    press(&mut a, Key::Char('x'), 110);
    press(&mut a, Key::Enter, 110);
    assert_eq!((said(&a).0, a.mode()), (None, InputMode::Normal));
    press(&mut a, Key::Char('x'), 110);
    type_in(&mut a, "99999999999999999999999", 110);
    press(&mut a, Key::Enter, 110);
    assert_eq!(said(&a), message("✗ Please enter a valid number", Color::Red));
    assert!(a.take_unsaved());
    press(&mut a, Key::Char('x'), 110);
    type_in(&mut a, "2", 110);
    press(&mut a, Key::Enter, 110);
    assert_eq!(said(&a), message("✓ Stopped task: b", Color::Green));
    assert!(a.take_unsaved());
    press(&mut a, Key::Char('a'), 10_000);
    assert_eq!(said(&a), message("✓ Stopped 2 tasks", Color::Green));
    assert_eq!(a.tracker().entries.len(), 4);
    assert_eq!(a.tracker().entries[2].end.unwrap().secs, 160);
    countdown(&mut a, "d:1", 100);
    press(&mut a, Key::Char('A'), 100);
    assert_eq!(said(&a), message("✓ Stopped 1 task", Color::Green));
    press(&mut a, Key::Char('a'), 100);
    assert_eq!(said(&a), message("✗ No active tasks to stop", Color::Red));
}

#[test]
fn keys_read_the_clock() {
    let mut a = app();
    press(&mut a, Key::Char('t'), 0);
    for c in "now:5".chars() {
        a.handle_key_event(Key::Char(c));
    }
    a.handle_key_event(Key::Enter);
    assert!(a.tracker().active_entries[0].start.secs > 1_600_000_000);
}

#[test]
fn history_marks_and_deletes() {
    let mut t = TimeTracker::new();
    for name in ["a", "b", "c"] {
        t.entries.push(entry(name, 0, Some(10), None));
    }
    let mut a = app_on(t, date(2024, 5, 15));
    press(&mut a, Key::Char('H'), 0);
    assert_eq!(a.screen(), Screen::History);
    press(&mut a, Key::Up, 0);
    assert_eq!(a.selected(), Some(0));
    for _ in 0..5 {
        press(&mut a, Key::Down, 0);
    }
    assert_eq!(a.selected(), Some(2));
    press(&mut a, Key::Up, 0);
    assert_eq!(a.selected(), Some(1));
    a.select(None);
    press(&mut a, Key::Down, 0);
    assert_eq!(a.selected(), Some(1));
    press(&mut a, Key::Char('x'), 0);
    assert_eq!(a.mode(), InputMode::DeleteTask);
    press(&mut a, Key::Char('a'), 0);
    assert_eq!(said(&a), message("✗ No active tasks to stop", Color::Red));
    type_in(&mut a, "2", 0);
    press(&mut a, Key::Char('A'), 0);
    assert_eq!(a.input(), "2");
    press(&mut a, Key::Enter, 0);
    assert_eq!(said(&a), message("✓ Deleted task: b", Color::Green));
    assert!(a.take_unsaved());
    press(&mut a, Key::Char('x'), 0);
    type_in(&mut a, "0", 0);
    press(&mut a, Key::Enter, 0);
    assert_eq!(said(&a), message("✗ Invalid task number (1-2)", Color::Red));
    press(&mut a, Key::Char('a'), 0);
    assert_eq!(a.mode(), InputMode::ConfirmDeleteAll);
    press(&mut a, Key::Char('n'), 0);
    assert_eq!(a.mode(), InputMode::ConfirmDeleteAll);
    press(&mut a, Key::Esc, 0);
    assert_eq!(said(&a), message("Cancelled", Color::Yellow));
    press(&mut a, Key::Char('A'), 0);
    press(&mut a, Key::Char('Y'), 0);
    assert_eq!(said(&a), message("Deleted 2 tasks", Color::Green));
    assert_eq!(a.mode(), InputMode::Normal);
    press(&mut a, Key::Char('x'), 0);
    assert_eq!(said(&a), message("✗ No task to delete", Color::Red));
    press(&mut a, Key::Char('a'), 0);
    assert_eq!(said(&a), message("No tasks to Delete", Color::Red));
    press(&mut a, Key::Down, 0);
    assert_eq!(a.selected(), Some(1));
    press(&mut a, Key::Esc, 0);
    assert_eq!((a.screen(), said(&a).0), (Screen::Main, None));
}

#[test]
fn arrows_move_the_calendar() {
    let mut a = app_on(TimeTracker::new(), date(2024, 1, 15));
    press(&mut a, Key::Char('c'), 0);
    let steps = [
        (Key::Left, (2023, 12)),
        (Key::Right, (2024, 1)),
        (Key::Up, (2023, 10)),
        (Key::Down, (2024, 1)),
        (Key::Down, (2024, 4)),
        (Key::Left, (2024, 3)),
        (Key::Right, (2024, 4)),
        (Key::Up, (2024, 1)),
        (Key::Right, (2024, 2)),
    ];
    for (key, (year, month)) in steps {
        press(&mut a, key, 0);
        assert!(a.calendar_date().same_day(&date(year, month, 15)));
    }
    press(&mut a, Key::Esc, 0);
    assert_eq!(a.screen(), Screen::Main);
}

#[test]
fn arrows_to_shorter_months_lead_to_their_last_day() {
    let cases = [
        ((2024, 3, 31), Key::Left, (2024, 2, 29)),
        ((2023, 3, 31), Key::Left, (2023, 2, 28)),
        ((2024, 3, 31), Key::Right, (2024, 4, 30)),
        ((2024, 3, 31), Key::Down, (2024, 6, 30)),
        ((2024, 3, 31), Key::Up, (2023, 12, 31)),
        ((2024, 2, 29), Key::Up, (2023, 11, 29)),
        ((2023, 11, 29), Key::Down, (2024, 2, 29)),
        ((2024, 12, 31), Key::Right, (2025, 1, 31)),
        ((2024, 1, 31), Key::Left, (2023, 12, 31)),
        ((2024, 12, 31), Key::Down, (2025, 3, 31)),
        ((0, 1, 1), Key::Left, (-1, 12, 1)),
    ];
    for ((y, m, d), key, (year, month, day)) in cases {
        let mut a = app_on(TimeTracker::new(), date(y, m, d));
        press(&mut a, Key::Char('c'), 0);
        press(&mut a, key, 0);
        assert!(a.calendar_date().same_day(&date(year, month, day)));
        assert!(a.selected_day().is_none());
    }
}

#[test]
fn arrows_past_the_calendar_are_seen_beforehand() {
    let mut a = app_on(TimeTracker::new(), date(262_142, 12, 1));
    press(&mut a, Key::Char('c'), 0);
    assert!(!a.can_handle(Key::Right));
    assert!(!a.can_handle(Key::Down));
    assert!(a.can_handle(Key::Left));
    assert!(!a.can_handle(Key::ScrollLock));
    let mut b = app_on(TimeTracker::new(), date(-262_143, 3, 1));
    press(&mut b, Key::Char('c'), 0);
    assert!(!b.can_handle(Key::Up));
    assert!(b.can_handle(Key::Left));
}

#[test]
fn a_day_is_chosen() {
    let mut a = app_on(TimeTracker::new(), date(2024, 2, 15));
    press(&mut a, Key::Char('c'), 0);
    press(&mut a, Key::Char('d'), 0);
    assert_eq!(a.mode(), InputMode::SelectDay);
    type_in(&mut a, "2x95", 0);
    assert_eq!(a.input(), "29");
    press(&mut a, Key::Enter, 0);
    assert_eq!(said(&a), message("Viewing tasks for February 29, 2024", Color::Cyan));
    assert!(a.selected_day().unwrap().same_day(&date(2024, 2, 29)));
    press(&mut a, Key::Char('D'), 0);
    type_in(&mut a, "30", 0);
    press(&mut a, Key::Enter, 0);
    assert_eq!(said(&a), message("✗ Invalid day for this month", Color::Red));
    assert!(a.selected_day().is_some());
    press(&mut a, Key::Char('d'), 0);
    press(&mut a, Key::Esc, 0);
    assert!(a.selected_day().is_none());
    assert_eq!(said(&a), message("Cancelled", Color::Yellow));
    press(&mut a, Key::Char('d'), 0);
    press(&mut a, Key::Enter, 0);
    assert_eq!(said(&a).0, None);
    press(&mut a, Key::Char('d'), 0);
    type_in(&mut a, "7", 0);
    press(&mut a, Key::Enter, 0);
    press(&mut a, Key::Left, 0);
    assert!(a.selected_day().is_none());
}

#[test]
fn chat_lines_are_typed_and_entered() {
    let mut a = app();
    press(&mut a, Key::Char('m'), 0);
    assert_eq!((a.screen(), a.mode()), (Screen::Chat, InputMode::ChatTyping));
    type_in(&mut a, "  connect relay 1x", 0);
    press(&mut a, Key::Backspace, 0);
    assert_eq!(a.chat().input(), "  connect relay 1");
    match a.handle_key_event_at(Key::Enter, &at(0)) {
        Request::Connect { host, port } => assert_eq!((host.as_str(), port), ("relay", 1)),
        _ => panic!("no connection asked for"),
    }
    assert_eq!((a.chat().input(), a.mode()), ("", InputMode::ChatTyping));
    a.chat_mut().finish_connect(Ok(()));
    assert!(a.chat().linked());
    type_in(&mut a, "   ", 0);
    press(&mut a, Key::Enter, 0);
    assert_eq!(a.chat().messages().len(), 1);
    type_in(&mut a, "x", 0);
    press(&mut a, Key::Esc, 0);
    assert_eq!((a.chat().input(), a.mode(), a.screen()), ("", InputMode::Normal, Screen::Chat));
    press(&mut a, Key::Char('i'), 0);
    assert_eq!(a.mode(), InputMode::ChatTyping);
    press(&mut a, Key::Esc, 0);
    press(&mut a, Key::Char('q'), 0);
    assert_eq!(a.screen(), Screen::Main);
}

#[test]
fn status_rows_show_time_and_warning() {
    let mut t = TimeTracker::new();
    let minute: i128 = 60_000_000_000;
    t.active_entries.push(entry("plain", 0, None, None));
    for (name, left) in [("ten", 10), ("nine", 9), ("four", 4)] {
        t.active_entries.push(entry(name, 0, None, Some((left + 2) * minute)));
    }
    t.active_entries.push(entry("seconds", 0, None, Some(2 * minute + 30_000_000_000)));
    t.active_entries.push(entry("done", 0, None, Some(minute)));
    let now = at(120);
    assert!(screens::can_show_status(&t, &now));
    assert_eq!(screens::headline(&t), "6 Active Tasks");
    let rows = screens::status_rows(&t, &now);
    let shown: Vec<(bool, &str, &str, &str, Color)> = rows
        .iter()
        .map(|r| (r.countdown, r.number.as_str(), r.activity.as_str(), r.time.as_str(), r.color))
        .collect();
    assert_eq!(
        shown,
        vec![
            (false, "1. ", "plain", "0h 2m 0s", Color::Cyan),
            (true, "2. ", "ten", "0h 10m 0s", Color::Cyan),
            (true, "3. ", "nine", "0h 9m 0s", Color::Green),
            (true, "4. ", "four", "0h 4m 0s", Color::Yellow),
            (true, "5. ", "seconds", "0h 0m 30s", Color::Red),
            (true, "6. ", "done", "DONE!", Color::Magenta),
        ]
    );
    t.active_entries.truncate(1);
    assert_eq!(screens::headline(&t), "1 Active Task");
    t.active_entries.push(entry("endless", 500, None, Some(secure_chat::clock::MAX_SPAN)));
    assert!(!screens::can_show_status(&t, &now));
}

#[test]
fn history_rows_show_time_and_date() {
    let mut t = TimeTracker::new();
    t.entries.push(entry("a", 951_782_400, Some(951_786_001), None));
    assert!(screens::can_show_history(&t));
    assert_eq!(screens::history_title(&t), " Completed Tasks (1) ");
    let rows = screens::history_rows(&t, &at(0));
    assert_eq!(rows.len(), 1);
    assert_eq!(rows[0].number, "1. ");
    assert_eq!(rows[0].activity, "a");
    assert_eq!(rows[0].duration, "1h 0m 1s");
    assert_eq!(rows[0].date, "(02-29-2000 00:00)");
    t.entries[0].start.offset = 100_000;
    assert!(!screens::can_show_history(&t));
}

#[test]
fn calendar_marks_the_days_of_the_year() {
    let mut t = TimeTracker::new();
    t.entries.push(entry("leap", 0, Some(951_782_400), None));
    t.entries.push(entry("leap too", 0, Some(951_782_401), None));
    t.entries.push(entry("new year", 0, Some(946_684_800), None));
    t.entries.push(entry("another year", 0, Some(0), None));
    t.entries.push(entry("running", 0, None, None));
    let calendar = date(2000, 2, 10);
    assert_eq!(screens::calendar_title(&calendar), "Task Calendar - 2000, 02 ");
    let cells = screens::month_cells(&t, &calendar);
    assert_eq!(cells.len(), 12);
    assert_eq!(cells[1].days, vec![29, 29]);
    assert_eq!(cells[0].days, vec![1]);
    assert!(cells[2].days.is_empty());
    assert_eq!(
        cells.iter().map(|c| c.name.as_str()).collect::<Vec<_>>(),
        vec!["Jan", "Feb", "Mar", "Apr", "May", "Jun", "Jul", "Aug", "Sep", "Oct", "Nov", "Dec"]
    );
    assert!(cells.iter().all(|c| c.year == 2000 && c.current == (c.month == 2)));
    assert_eq!(cells[11].month, 12);
}

#[test]
fn statistics_sum_up_day_and_month() {
    let mut t = TimeTracker::new();
    t.entries.push(entry("a", 946_684_800, Some(946_688_460), None));
    t.entries.push(entry("b", 946_771_200, Some(946_771_260), None));
    t.entries.push(entry("c", 946_771_200, Some(946_774_859), None));
    t.entries.push(entry("other month", 0, Some(951_782_400), None));
    let calendar = date(2000, 1, 31);
    let today = date(2000, 1, 1);
    let now = at(0);
    assert!(screens::can_show_statistics(&t, &calendar, &None, &today, &now));
    let s = screens::statistics(&t, &calendar, &None, &today, &now);
    assert_eq!(s.day_label, "Today: ");
    assert_eq!(s.day, "1 tasks, 1h 1m");
    assert_eq!(s.month, "3 tasks, 2h 2m");
    assert_eq!(s.tasks.len(), 1);
    assert_eq!(s.tasks[0].activity, "a");
    assert_eq!(s.tasks[0].duration, " (1h 1m 0s)");
    let chosen = Some(date(2000, 1, 2));
    let s = screens::statistics(&t, &calendar, &chosen, &today, &now);
    assert_eq!(s.day_label, "January 02, 2000: ");
    assert_eq!(s.day, "2 tasks, 1h 1m");
    assert_eq!(s.tasks.iter().map(|r| r.activity.as_str()).collect::<Vec<_>>(), vec!["b", "c"]);
    let s = screens::statistics(&t, &calendar, &Some(date(2000, 1, 3)), &today, &now);
    assert_eq!(s.day, "0 tasks, 0h 0m");
    assert!(s.tasks.is_empty());
}

#[test]
fn chat_labels_follow_the_state() {
    let mut chat = ChatState::new(KnownUsers::new());
    assert_eq!(screens::chat_title(&chat), "Secure Chat  [disconnected]");
    assert_eq!(screens::session_label(&chat), "type: REGISTER <name> then SECURE <peer>");
    assert_eq!(
        screens::command_hint(&chat),
        "  Commands: REGISTER <name>  SECURE <peer>  LIST  QUIT"
    );
    chat.finish_connect(Ok(()));
    assert_eq!(screens::chat_title(&chat), "Secure Chat  [connected - not registered]");
    chat.process_server_line("INFO Registered as alice");
    assert_eq!(screens::chat_title(&chat), "Secure Chat  [alice]");
    let id = secure_chat::identity::Identity::from_seed("alice", [1; 32]);
    chat.identity_loaded("alice", Ok(id));
    chat.secure("bob", &KnownUsers::new());
    assert_eq!(screens::session_label(&chat), "handshake with bob in progress...");
    let bob = secure_chat::identity::Identity::from_seed("bob", [2; 32]);
    let hs = secure_chat::handshake::Handshake::from_secret([3; 32]);
    let hello = hs.hello_line(&bob);
    chat.process_server_line(&format!("FROM bob PUBKEY {}", bob.public_key_b64()));
    let words: Vec<&str> = hello.splitn(4, ' ').collect();
    chat.process_server_line(&format!("FROM bob HELLO {} {}", words[2], words[3]));
    assert_eq!(screens::session_label(&chat), "chatting with: bob");
    assert_eq!(
        screens::command_hint(&chat),
        "  Just type to send to bob  |  Commands: SECURE <peer>  LIST  QUIT"
    );
}

#[test]
fn window_ends_with_the_newest_line() {
    let counts = vec![2, 1, 1, 3];
    for (height, start) in [(100, 0), (7, 0), (6, 1), (5, 1), (4, 2), (3, 3), (1, 3), (0, 4)] {
        assert_eq!(screens::window_start(&counts, height), start);
    }
    assert_eq!(screens::window_start(&vec![1, 2], 2), 1);
    assert_eq!(screens::window_start(&Vec::new(), 5), 0);
}

#[test]
fn log_lines_count_as_they_are_wrapped() {
    let log = |lines: &[&str]| -> Vec<(String, Color)> {
        lines.iter().map(|t| (t.to_string(), Color::White)).collect()
    };
    // Words are not broken, so the first line takes three rows.
    let words = log(&["aaaaaa aaaaaa aaaaaa", "new"]);
    assert_eq!(screens::log_start(&words, 10, 4), 0);
    assert_eq!(screens::log_start(&words, 10, 3), 1);
    assert_eq!(screens::log_start(&words, 13, 3), 0);
    // One long word takes two rows, an empty line one, and wide characters count twice.
    let others = log(&["12345678901", "", "日本語日本語"]);
    assert_eq!(screens::log_start(&others, 10, 5), 0);
    assert_eq!(screens::log_start(&others, 10, 4), 1);
    assert_eq!(screens::log_start(&others, 10, 2), 2);
    assert_eq!(screens::log_start(&others, 0, 2), 1);
    assert_eq!(screens::log_start(&others, 60_000, 3), 0);
    assert_eq!(screens::log_start(&Vec::new(), 10, 5), 0);
}

#[test]
fn newest_line_is_drawn() {
    let log: Vec<(String, Color)> = ["aaaaaa aaaaaa aaaaaa", "new"]
        .iter()
        .map(|t| (t.to_string(), Color::White))
        .collect();
    let area = Rect::new(0, 0, 10, 3);
    let start = screens::log_start(&log, area.width, area.height);
    let lines: Vec<Line> = log[start..].iter().map(|(t, _)| Line::from(Span::raw(t.clone()))).collect();
    let mut buf = Buffer::empty(area);
    Paragraph::new(lines).wrap(Wrap { trim: false }).render(area, &mut buf);
    let drawn = (0..3).any(|y| (0..3).map(|x| buf[(x, y)].symbol()).collect::<String>() == "new");
    assert!(drawn);
}

#[test]
fn controls_follow_the_mode() {
    let keys = |c: &controls::Controls| c.hints.iter().map(|h| h.key).collect::<Vec<_>>();
    let c = controls::main_controls(InputMode::Normal);
    assert_eq!(keys(&c), vec!["X", "T", "A", "C", "H", "M", "Q"]);
    assert_eq!(c.prompt, None);
    assert_eq!(c.hints[1].label, " Countdown  ");
    assert_eq!(c.hints[1].color, Color::Magenta);
    let c = controls::main_controls(InputMode::StartCountdown);
    assert_eq!(c.prompt, Some("Task:Minutes (e.g., Study:25): "));
    assert_eq!(keys(&c), vec!["Enter", "Esc"]);
    assert_eq!(
        controls::main_controls(InputMode::StopTask).prompt,
        Some("Task number to stop: ")
    );
    assert_eq!(keys(&controls::main_controls(InputMode::SelectDay)), vec!["S", "X", "A", "H", "Q"]);
    assert_eq!(keys(&controls::main_controls(InputMode::ChatTyping)), vec!["I", "Enter", "Esc"]);
    assert_eq!(keys(&controls::history_controls(InputMode::ConfirmDeleteAll)), vec!["Y", "Esc"]);
    assert_eq!(
        controls::history_controls(InputMode::DeleteTask).prompt,
        Some("Task number to delete: ")
    );
    assert_eq!(keys(&controls::history_controls(InputMode::Normal)), vec!["↑↓", "Esc", "X", "A"]);
    assert_eq!(
        controls::calendar_controls(InputMode::SelectDay).prompt,
        Some("Enter day (1-31): ")
    );
    assert_eq!(keys(&controls::calendar_controls(InputMode::Normal)), vec!["Arrow Keys", "D", "Esc"]);
    assert_eq!(keys(&controls::chat_controls(InputMode::ChatTyping)), vec!["Enter", "Esc"]);
    assert_eq!(keys(&controls::chat_controls(InputMode::Normal)), vec!["I", "Esc/Q"]);
}

#[test]
fn paths_lie_below_the_home_directory() {
    assert_eq!(paths::config_dir(Some("/home/a")), vec!["/home/a", ".config", "timetracker"]);
    assert_eq!(
        paths::identity_path(Some("/home/a"), "alice"),
        vec!["/home/a", ".config", "timetracker", "keys", "alice.json"]
    );
    assert_eq!(
        paths::known_users_path(None),
        vec![".", ".config", "timetracker", "known_users.json"]
    );
    assert_eq!(paths::get_data_file(Some("h"), Some("p")), vec!["h", ".timetracker.json"]);
    assert_eq!(paths::get_data_file(None, Some("p")), vec!["p", ".timetracker.json"]);
    assert_eq!(paths::get_data_file(None, None), vec![".", ".timetracker.json"]);
}

#[test]
fn texts_are_split_trimmed_and_cut() {
    assert_eq!(text::splitn("a b  c d", 3), vec!["a", "b", " c d"]);
    assert_eq!(text::splitn("", 3), vec![""]);
    assert_eq!(text::splitn("a b", 1), vec!["a b"]);
    assert!(text::splitn("a b", 0).is_empty());
    assert_eq!(text::trim("\t\u{3000} x y \u{a0}\n"), "x y");
    assert_eq!(text::trim(" \n"), "");
    assert_eq!(text::strip_prefix("FROM x", "FROM "), Some("x".to_string()));
    assert_eq!(text::strip_prefix("FRO", "FROM "), None);
    assert_eq!(text::head("abcdef", 4), "abcd");
    assert_eq!(text::head("éa", 2), "é");
    assert_eq!(text::head("éa", 1), "");
    assert_eq!(text::head("aéa", 2), "a");
}

#[test]
fn numbers_are_read_as_they_are_typed() {
    assert_eq!(text::parse_number("+007", false, 0, 10), Some(7));
    assert_eq!(text::parse_number("-0", false, 0, 10), None);
    assert_eq!(text::parse_number("-7", true, -10, 10), Some(-7));
    assert_eq!(text::parse_number("11", false, 0, 10), None);
    assert_eq!(text::parse_number("", true, 0, 10), None);
    assert_eq!(text::parse_number("+", true, 0, 10), None);
    assert_eq!(text::parse_number("1 ", true, 0, 10), None);
    assert_eq!(text::parse_number("٣", true, 0, 10), None);
    assert_eq!(
        text::parse_number("18446744073709551615", false, 0, u64::MAX as i128),
        Some(u64::MAX as i128)
    );
    assert_eq!(text::parse_number("99999999999999999999999999", false, 0, u64::MAX as i128), None);
    assert_eq!(text::number_text(-120), "-120");
    assert_eq!(text::number_text(0), "0");
}
