//! What the screens show: texts, colours, rows, and which part of the log. How they are laid out in
//! the terminal is not said here.

use crate::app;
use crate::chat::{self, ChatConnectionState, ChatState, ChatView, Color, SecureSessionState, SecureView};
use crate::clock::{self, Date, DateView, Moment};
use crate::text;
use crate::tracker::{self, EntryView, TimeEntry, TimeTracker, TrackerView};
use ratatui::text::{Line, Span};
use ratatui::widgets::{Paragraph, Wrap};
use vstd::prelude::*;

verus! {

/// The number in front of the `i`th row of a list.
pub open spec fn row_number(i: int) -> Seq<char> {
    text::number(i + 1) + ". "@
}

/// The line above the running tasks.
pub open spec fn headline_text(count: int) -> Seq<char> {
    text::number(count) + " Active Task"@ + app::plural(count)
}

/// The colour in which the time of a running task is shown: the less is left of a countdown, the
/// more it warns.
pub open spec fn time_color(e: EntryView, now: Moment) -> Color {
    match tracker::remaining(e, now) {
        None => Color::Cyan,
        Some(left) => if clock::seconds(left) <= 0 {
            Color::Magenta
        } else if clock::minutes(left) < 1 {
            Color::Red
        } else if clock::minutes(left) < 5 {
            Color::Yellow
        } else if clock::minutes(left) < 10 {
            Color::Green
        } else {
            Color::Cyan
        },
    }
}

/// A running task on the main screen.
pub struct StatusRow {
    pub countdown: bool,
    pub number: String,
    pub activity: String,
    pub time: String,
    pub color: Color,
}

/// What a row of the main screen says.
#[verifier::ext_equal]
pub struct StatusRowView {
    pub countdown: bool,
    pub number: Seq<char>,
    pub activity: Seq<char>,
    pub time: Seq<char>,
    pub color: Color,
}

impl View for StatusRow {
    type V = StatusRowView;

    open spec fn view(&self) -> StatusRowView {
        StatusRowView {
            countdown: self.countdown,
            number: self.number@,
            activity: self.activity@,
            time: self.time@,
            color: self.color,
        }
    }
}

/// The view of the rows of the main screen.
pub open spec fn status_view(rows: Seq<StatusRow>) -> Seq<StatusRowView> {
    Seq::new(rows.len(), |i: int| rows[i]@)
}

/// The row of the `i`th running task.
pub open spec fn status_row(e: EntryView, i: int, now: Moment) -> StatusRowView {
    StatusRowView {
        countdown: e.target is Some,
        number: row_number(i),
        activity: e.activity,
        time: tracker::countdown_text(e, now),
        color: time_color(e, now),
    }
}

/// The rows of all running tasks.
pub open spec fn status_rows_view(t: TrackerView, now: Moment) -> Seq<StatusRowView> {
    Seq::new(t.active.len(), |i: int| status_row(t.active[i], i, now))
}

/// Whether the time that is left of every running countdown is a span.
pub open spec fn all_count(t: TrackerView, now: Moment) -> bool {
    forall|i: int| 0 <= i < t.active.len() ==> tracker::counts(#[trigger] t.active[i], now)
}

/// A finished task in the history.
pub struct HistoryRow {
    pub number: String,
    pub activity: String,
    pub duration: String,
    pub date: String,
}

/// What a row of the history says.
#[verifier::ext_equal]
pub struct HistoryRowView {
    pub number: Seq<char>,
    pub activity: Seq<char>,
    pub duration: Seq<char>,
    pub date: Seq<char>,
}

impl View for HistoryRow {
    type V = HistoryRowView;

    open spec fn view(&self) -> HistoryRowView {
        HistoryRowView {
            number: self.number@,
            activity: self.activity@,
            duration: self.duration@,
            date: self.date@,
        }
    }
}

/// The view of the rows of the history.
pub open spec fn history_view(rows: Seq<HistoryRow>) -> Seq<HistoryRowView> {
    Seq::new(rows.len(), |i: int| rows[i]@)
}

/// The row of the `i`th finished task.
pub open spec fn history_row(e: EntryView, i: int, now: Moment) -> HistoryRowView {
    HistoryRowView {
        number: row_number(i),
        activity: e.activity,
        duration: tracker::span_text(tracker::elapsed(e, now)),
        date: "("@ + clock::stamp(e.start) + ")"@,
    }
}

/// The rows of all finished tasks.
pub open spec fn history_rows_view(t: TrackerView, now: Moment) -> Seq<HistoryRowView> {
    Seq::new(t.entries.len(), |i: int| history_row(t.entries[i], i, now))
}

/// Whether every finished task began on a moment that can be written.
pub open spec fn starts_zoned(t: TrackerView) -> bool {
    forall|i: int| 0 <= i < t.entries.len() ==> clock::zoned((#[trigger] t.entries[i]).start)
}

/// The number in front of a row.
fn row_number_text(i: usize) -> (r: String)
    ensures
        r@ == row_number(i as int),
{
    text::join2(text::number_text(i as i128 + 1).as_str(), ". ")
}

/// The line above the running tasks.
pub fn headline(tracker: &TimeTracker) -> (r: String)
    ensures
        r@ == headline_text(tracker@.active.len() as int),
{
    let count: usize = tracker.active_entries.len();
    text::join3(
        text::number_text(count as i128).as_str(),
        " Active Task",
        app::plural_text(count),
    )
}

/// Whether the running tasks can be shown.
pub fn can_show_status(tracker: &TimeTracker, now: &Moment) -> (r: bool)
    ensures
        r == all_count(tracker@, *now),
{
    let n: usize = tracker.active_entries.len();
    for i in 0..n
        invariant
            n == tracker.active_entries@.len(),
            forall|j: int| 0 <= j < i ==> tracker::counts(#[trigger] tracker@.active[j], *now),
    {
        assert(tracker@.active[i as int] == tracker.active_entries@[i as int]@);
        if !tracker.active_entries[i].can_count(now) {
            return false;
        }
    }
    true
}

/// The colour in which the time of a running task is shown.
fn color_of(entry: &TimeEntry, now: &Moment) -> (r: Color)
    requires
        tracker::counts(entry@, *now),
    ensures
        r == time_color(entry@, *now),
{
    match entry.remainig_duration(now) {
        None => Color::Cyan,
        Some(left) => {
            let minutes: i128 = clock::num_minutes(left);
            if clock::num_seconds(left) <= 0 {
                Color::Magenta
            } else if minutes < 1 {
                Color::Red
            } else if minutes < 5 {
                Color::Yellow
            } else if minutes < 10 {
                Color::Green
            } else {
                Color::Cyan
            }
        },
    }
}

/// The rows of the running tasks.
pub fn status_rows(tracker: &TimeTracker, now: &Moment) -> (r: Vec<StatusRow>)
    requires
        all_count(tracker@, *now),
    ensures
        status_view(r@) == status_rows_view(tracker@, *now),
{
    let mut rows: Vec<StatusRow> = Vec::new();
    let n: usize = tracker.active_entries.len();
    for i in 0..n
        invariant
            n == tracker.active_entries@.len(),
            all_count(tracker@, *now),
            rows@.len() == i,
            forall|j: int|
                0 <= j < i ==> (#[trigger] rows@[j])@ == status_row(tracker@.active[j], j, *now),
    {
        let entry: &TimeEntry = &tracker.active_entries[i];
        assert(tracker@.active[i as int] == entry@);
        let time: String = if entry.is_countdown() {
            entry.format_countdown(now)
        } else {
            entry.format_duration(now)
        };
        rows.push(
            StatusRow {
                countdown: entry.is_countdown(),
                number: row_number_text(i),
                activity: entry.activity.clone(),
                time,
                color: color_of(entry, now),
            },
        );
    }
    assert(status_view(rows@) =~= status_rows_view(tracker@, *now));
    rows
}

/// Whether the finished tasks can be shown.
pub fn can_show_history(tracker: &TimeTracker) -> (r: bool)
    ensures
        r == starts_zoned(tracker@),
{
    let n: usize = tracker.entries.len();
    for i in 0..n
        invariant
            n == tracker.entries@.len(),
            forall|j: int| 0 <= j < i ==> clock::zoned((#[trigger] tracker@.entries[j]).start),
    {
        assert(tracker@.entries[i as int] == tracker.entries@[i as int]@);
        if !clock::is_zoned(&tracker.entries[i].start) {
            return false;
        }
    }
    true
}

/// The rows of the finished tasks.
pub fn history_rows(tracker: &TimeTracker, now: &Moment) -> (r: Vec<HistoryRow>)
    requires
        starts_zoned(tracker@),
    ensures
        history_view(r@) == history_rows_view(tracker@, *now),
{
    let mut rows: Vec<HistoryRow> = Vec::new();
    let n: usize = tracker.entries.len();
    for i in 0..n
        invariant
            n == tracker.entries@.len(),
            starts_zoned(tracker@),
            rows@.len() == i,
            forall|j: int|
                0 <= j < i ==> (#[trigger] rows@[j])@ == history_row(tracker@.entries[j], j, *now),
    {
        let entry: &TimeEntry = &tracker.entries[i];
        assert(tracker@.entries[i as int] == entry@);
        let stamp: String = clock::format_stamp(&entry.start);
        rows.push(
            HistoryRow {
                number: row_number_text(i),
                activity: entry.activity.clone(),
                duration: entry.format_duration(now),
                date: text::join3("(", stamp.as_str(), ")"),
            },
        );
    }
    assert(history_view(rows@) =~= history_rows_view(tracker@, *now));
    rows
}

/// The title of the history.
pub open spec fn history_title_text(count: int) -> Seq<char> {
    " Completed Tasks ("@ + text::number(count) + ") "@
}

/// The title of the history.
pub fn history_title(tracker: &TimeTracker) -> (r: String)
    ensures
        r@ == history_title_text(tracker@.entries.len() as int),
{
    text::join3(
        " Completed Tasks (",
        text::number_text(tracker.entries.len() as i128).as_str(),
        ") ",
    )
}

/// The number of the first day of the month of a date.
pub open spec fn month_first(d: DateView) -> int {
    clock::day_number(DateView { day: 1, ..d })
}

/// The number of the last day of the month of a date.
pub open spec fn month_last(d: DateView) -> int {
    clock::day_number(DateView { day: clock::days_in_month(d.year, d.month), ..d })
}

/// The tasks that ended in the month of a date.
pub open spec fn month_tasks(t: TrackerView, d: DateView) -> Seq<EntryView> {
    tracker::ending_between(t.entries, month_first(d), month_last(d))
}

/// The tasks that ended on a date.
pub open spec fn day_tasks(t: TrackerView, d: DateView) -> Seq<EntryView> {
    tracker::ending_between(t.entries, clock::day_number(d), clock::day_number(d))
}

/// The day of the month on which a task ended, counted from the number of the first.
pub open spec fn end_day(e: EntryView, first: int) -> int {
    clock::local_secs(e.end->Some_0) / clock::DAY as int - first + 1
}

/// The days of a month on which tasks ended, one for each task.
pub open spec fn marked_days(t: TrackerView, d: DateView) -> Seq<int> {
    Seq::new(
        month_tasks(t, d).len(),
        |i: int| end_day(month_tasks(t, d)[i], month_first(d)),
    )
}

/// A month of the calendar.
pub struct MonthCell {
    pub year: i32,
    pub month: u32,
    pub name: String,
    /// Whether the calendar stands in this month.
    pub current: bool,
    /// The days on which tasks ended.
    pub days: Vec<u32>,
}

/// What a month of the calendar says.
#[verifier::ext_equal]
pub struct MonthView {
    pub year: int,
    pub month: int,
    pub name: Seq<char>,
    pub current: bool,
    pub days: Seq<int>,
}

impl View for MonthCell {
    type V = MonthView;

    open spec fn view(&self) -> MonthView {
        MonthView {
            year: self.year as int,
            month: self.month as int,
            name: self.name@,
            current: self.current,
            days: Seq::new(self.days@.len(), |i: int| self.days@[i] as int),
        }
    }
}

/// The view of the months of the calendar.
pub open spec fn months_view(months: Seq<MonthCell>) -> Seq<MonthView> {
    Seq::new(months.len(), |i: int| months[i]@)
}

/// A month of the year in which the calendar stands.
pub open spec fn month_cell_view(t: TrackerView, calendar: DateView, month: int) -> MonthView {
    MonthView {
        year: calendar.year,
        month,
        name: clock::month_short_name(month),
        current: month == calendar.month,
        days: marked_days(t, DateView { year: calendar.year, month, day: 1 }),
    }
}

/// The twelve months of the year in which the calendar stands.
pub open spec fn month_cells_view(t: TrackerView, calendar: DateView) -> Seq<MonthView> {
    Seq::new(12, |i: int| month_cell_view(t, calendar, i + 1))
}

/// How many tasks, and the hours and minutes they have taken.
pub open spec fn summary_text(tasks: Seq<EntryView>, now: Moment) -> Seq<char> {
    let nanos = tracker::total(tasks, now);
    text::number(tasks.len() as int) + " tasks, "@ + text::number(clock::hours(nanos)) + ("h "@
        + text::number(clock::left_over(clock::minutes(nanos), 60)) + "m"@)
}

/// The words in front of the summary of a day.
pub open spec fn day_label_text(selected: Option<DateView>) -> Seq<char> {
    match selected {
        Some(d) => clock::day_text(d) + ": "@,
        None => "Today: "@,
    }
}

/// The day whose tasks are shown.
pub open spec fn shown_day(selected: Option<DateView>, today: DateView) -> DateView {
    match selected {
        Some(d) => d,
        None => today,
    }
}

/// A task in the list of a day.
pub struct DayRow {
    pub activity: String,
    pub duration: String,
}

/// What a task in the list of a day says: its name and the time that it has taken.
pub open spec fn day_row(e: EntryView, now: Moment) -> (Seq<char>, Seq<char>) {
    (e.activity, " ("@ + tracker::span_text(tracker::elapsed(e, now)) + ")"@)
}

/// The view of the list of a day.
pub open spec fn day_rows_view(rows: Seq<DayRow>) -> Seq<(Seq<char>, Seq<char>)> {
    Seq::new(rows.len(), |i: int| (rows[i].activity@, rows[i].duration@))
}

/// What a list of tasks says.
pub open spec fn day_list(tasks: Seq<EntryView>, now: Moment) -> Seq<(Seq<char>, Seq<char>)> {
    Seq::new(tasks.len(), |i: int| day_row(tasks[i], now))
}

/// The summary below the calendar.
pub struct Statistics {
    pub day_label: String,
    pub day: String,
    pub month: String,
    pub tasks: Vec<DayRow>,
}

/// What the summary below the calendar says.
#[verifier::ext_equal]
pub struct StatisticsView {
    pub day_label: Seq<char>,
    pub day: Seq<char>,
    pub month: Seq<char>,
    pub tasks: Seq<(Seq<char>, Seq<char>)>,
}

impl View for Statistics {
    type V = StatisticsView;

    open spec fn view(&self) -> StatisticsView {
        StatisticsView {
            day_label: self.day_label@,
            day: self.day@,
            month: self.month@,
            tasks: day_rows_view(self.tasks@),
        }
    }
}

/// The summary of the tasks of a day, and of those of the month.
pub open spec fn statistics_view(
    t: TrackerView,
    calendar: DateView,
    selected: Option<DateView>,
    today: DateView,
    now: Moment,
) -> StatisticsView {
    let tasks = day_tasks(t, shown_day(selected, today));
    StatisticsView {
        day_label: day_label_text(selected),
        day: summary_text(tasks, now),
        month: summary_text(month_tasks(t, calendar), now),
        tasks: day_list(tasks, now),
    }
}

/// Whether the summary below the calendar can be reckoned.
pub open spec fn can_sum_up(
    t: TrackerView,
    calendar: DateView,
    selected: Option<DateView>,
    today: DateView,
    now: Moment,
) -> bool {
    &&& tracker::ends_dated(t.entries)
    &&& tracker::adds_up(month_tasks(t, calendar), now)
    &&& tracker::adds_up(day_tasks(t, shown_day(selected, today)), now)
}

/// The title of the calendar.
pub open spec fn calendar_title_text(d: DateView) -> Seq<char> {
    "Task Calendar - "@ + clock::month_text(d) + " "@
}

/// The title of the calendar.
pub fn calendar_title(calendar: &Date) -> (r: String)
    ensures
        r@ == calendar_title_text(calendar@),
{
    text::join3("Task Calendar - ", clock::format_month(calendar).as_str(), " ")
}

/// The first and the last day of the month of a date.
fn month_bounds(date: &Date) -> (r: (Date, Date))
    ensures
        clock::day_number(r.0@) == month_first(date@),
        clock::day_number(r.1@) == month_last(date@),
        r.0@ == (DateView { day: 1, ..date@ }),
        r.1@ == (DateView { day: clock::days_in_month(date@.year, date@.month), ..date@ }),
        clock::is_date(r.0@.year, r.0@.month, r.0@.day),
        clock::is_date(r.1@.year, r.1@.month, r.1@.day),
{
    let year: i32 = date.year();
    let month: u32 = date.month();
    match (Date::new(year, month, 1), Date::new(year, month, clock::month_length(year, month))) {
        (Some(first), Some(last)) => (first, last),
        _ => (*date, *date),
    }
}

/// A month of the year in which the calendar stands.
fn month_cell(tracker: &TimeTracker, calendar: &Date, month: u32) -> (r: MonthCell)
    requires
        tracker::ends_dated(tracker@.entries),
        1 <= month <= 12,
    ensures
        r@ == month_cell_view(tracker@, calendar@, month as int),
{
    let year: i32 = calendar.year();
    let start: Date = match Date::new(year, month, 1) {
        Some(d) => d,
        None => *calendar,
    };
    let named: Date = match Date::new(2024, month, 1) {
        Some(d) => d,
        None => *calendar,
    };
    let (first, last): (Date, Date) = month_bounds(&start);
    let ghost d = DateView { year: year as int, month: month as int, day: 1 };
    let ghost tasks = month_tasks(tracker@, d);
    let found: Vec<&TimeEntry> = tracker.task_in_range(&first, &last);
    let mut days: Vec<u32> = Vec::new();
    let n: usize = found.len();
    assert(tracker::refs_view(found@) == tasks);
    assert(n == tasks.len());
    for i in 0..n
        invariant
            n == found@.len(),
            n == tasks.len(),
            tracker::refs_view(found@) == tasks,
            tracker::ends_dated(tracker@.entries),
            tasks == tracker::ending_between(
                tracker@.entries,
                clock::day_number(first@),
                clock::day_number(last@),
            ),
            first@ == d,
            last@ == (DateView { day: clock::days_in_month(d.year, d.month), ..d }),
            clock::is_date(first@.year, first@.month, first@.day),
            clock::is_date(last@.year, last@.month, last@.day),
            clock::day_number(first@) == month_first(d),
            days@.len() == i,
            forall|j: int|
                0 <= j < i ==> #[trigger] days@[j] == end_day(tasks[j], month_first(d)),
    {
        proof {
            assert(tracker::refs_view(found@)[i as int] == found@[i as int]@);
            tracker::law_tasks_of_days(
                tracker@.entries,
                clock::day_number(first@),
                clock::day_number(last@),
                tasks[i as int],
            );
            assert(tasks.contains(tasks[i as int]));
        }
        if let Some(end) = &found[i].end {
            if let Some(date) = clock::date_of(end) {
                proof {
                    clock::law_day_numbers_order_dates(date@, first@);
                    clock::law_day_numbers_order_dates(last@, date@);
                    assert(date@.year == d.year && date@.month == d.month);
                }
                days.push(date.day());
            }
        }
    }
    let cell: MonthCell = MonthCell {
        year,
        month,
        name: clock::format_month_name(&named),
        current: month == calendar.month(),
        days,
    };
    assert(cell@.days =~= marked_days(tracker@, d));
    cell
}

/// The twelve months of the year in which the calendar stands.
pub fn month_cells(tracker: &TimeTracker, calendar: &Date) -> (r: Vec<MonthCell>)
    requires
        tracker::ends_dated(tracker@.entries),
    ensures
        months_view(r@) == month_cells_view(tracker@, calendar@),
{
    let mut cells: Vec<MonthCell> = Vec::new();
    for i in 0u32..12
        invariant
            tracker::ends_dated(tracker@.entries),
            cells@.len() == i,
            forall|j: int|
                0 <= j < i ==> (#[trigger] cells@[j])@ == month_cell_view(
                    tracker@,
                    calendar@,
                    j + 1,
                ),
    {
        cells.push(month_cell(tracker, calendar, i + 1));
    }
    assert(months_view(cells@) =~= month_cells_view(tracker@, calendar@));
    cells
}

/// How many tasks, and the hours and minutes they have taken.
fn summary(count: usize, nanos: i128) -> (r: String)
    requires
        clock::span_fits(nanos as int),
    ensures
        r@ == text::number(count as int) + " tasks, "@ + text::number(clock::hours(nanos as int))
            + ("h "@ + text::number(clock::left_over(clock::minutes(nanos as int), 60)) + "m"@),
{
    let minutes: i128 = clock::remainder(clock::num_minutes(nanos), 60);
    text::join4(
        text::number_text(count as i128).as_str(),
        " tasks, ",
        text::number_text(clock::num_hours(nanos)).as_str(),
        text::join3("h ", text::number_text(minutes).as_str(), "m").as_str(),
    )
}

/// Whether the summary below the calendar can be reckoned.
pub fn can_show_statistics(
    tracker: &TimeTracker,
    calendar: &Date,
    selected: &Option<Date>,
    today: &Date,
    now: &Moment,
) -> (r: bool)
    ensures
        r == can_sum_up(tracker@, calendar@, clock::date_view(*selected), today@, *now),
{
    if !tracker.can_date() {
        return false;
    }
    let (first, last): (Date, Date) = month_bounds(calendar);
    let day: Date = match selected {
        Some(d) => *d,
        None => *today,
    };
    tracker.can_total(&first, &last, now) && tracker.can_total(&day, &day, now)
}

/// The summary below the calendar: the tasks of a day, and those of the month.
pub fn statistics(
    tracker: &TimeTracker,
    calendar: &Date,
    selected: &Option<Date>,
    today: &Date,
    now: &Moment,
) -> (r: Statistics)
    requires
        can_sum_up(tracker@, calendar@, clock::date_view(*selected), today@, *now),
    ensures
        r@ == statistics_view(tracker@, calendar@, clock::date_view(*selected), today@, *now),
        r.day_label@ == day_label_text(clock::date_view(*selected)),
        r.day@ == summary_text(
            day_tasks(tracker@, shown_day(clock::date_view(*selected), today@)),
            *now,
        ),
        r.month@ == summary_text(month_tasks(tracker@, calendar@), *now),
        day_rows_view(r.tasks@) == day_list(
            day_tasks(tracker@, shown_day(clock::date_view(*selected), today@)),
            *now,
        ),
{
    let (first, last): (Date, Date) = month_bounds(calendar);
    let day: Date = match selected {
        Some(d) => *d,
        None => *today,
    };
    let day_label: String = match selected {
        Some(d) => text::join2(clock::format_day(d).as_str(), ": "),
        None => "Today: ".to_owned(),
    };
    let in_month: Vec<&TimeEntry> = tracker.task_in_range(&first, &last);
    assert(tracker::refs_view(in_month@).len() == in_month@.len());
    let on_day: Vec<&TimeEntry> = tracker.task_in_range(&day, &day);
    assert(tracker::refs_view(on_day@).len() == on_day@.len());
    let ghost tasks = day_tasks(tracker@, day@);
    let mut rows: Vec<DayRow> = Vec::new();
    let n: usize = on_day.len();
    for i in 0..n
        invariant
            n == on_day@.len(),
            tracker::refs_view(on_day@) == tasks,
            rows@.len() == i,
            forall|j: int|
                0 <= j < i ==> ((#[trigger] rows@[j]).activity@, rows@[j].duration@) == day_row(
                    tasks[j],
                    *now,
                ),
    {
        assert(tracker::refs_view(on_day@)[i as int] == on_day@[i as int]@);
        let taken: String = on_day[i].format_duration(now);
        rows.push(
            DayRow {
                activity: on_day[i].activity.clone(),
                duration: text::join3(" (", taken.as_str(), ")"),
            },
        );
    }
    assert(day_rows_view(rows@) =~= day_list(tasks, *now));
    Statistics {
        day_label,
        day: summary(tracker.task_on_date(&day), tracker.duration_on_date(&day, now)),
        month: summary(in_month.len(), tracker.duration_in_range(&first, &last, now)),
        tasks: rows,
    }
}

/// The title of the chat.
pub open spec fn chat_title_text(s: ChatView) -> Seq<char> {
    "Secure Chat  "@ + match s.connection {
        chat::ConnectionView::Disconnected => "[disconnected]"@,
        chat::ConnectionView::Connected => "[connected - not registered]"@,
        chat::ConnectionView::Registered(name) => "["@ + name + "]"@,
    }
}

/// The line below the title of the chat.
pub open spec fn session_label_text(s: ChatView) -> Seq<char> {
    match s.session {
        SecureView::Established(keys) => "chatting with: "@ + keys.peer,
        SecureView::AwaitingHello { secret, peer, key } => "handshake with "@ + peer
            + " in progress..."@,
        SecureView::NoSession => "type: REGISTER <name> then SECURE <peer>"@,
    }
}

/// The words behind the keys while a chat line is typed.
pub open spec fn command_hint_text(s: ChatView) -> Seq<char> {
    match chat::peer_of(s) {
        Some(peer) => "  Just type to send to "@ + peer
            + "  |  Commands: SECURE <peer>  LIST  QUIT"@,
        None => "  Commands: REGISTER <name>  SECURE <peer>  LIST  QUIT"@,
    }
}

/// The title of the chat.
pub fn chat_title(chat: &ChatState) -> (r: String)
    ensures
        r@ == chat_title_text(chat@),
{
    let label: String = match chat.connection_state() {
        ChatConnectionState::Disconnected => "[disconnected]".to_owned(),
        ChatConnectionState::Connected => "[connected - not registered]".to_owned(),
        ChatConnectionState::Registered(name) => text::join3("[", name.as_str(), "]"),
    };
    text::join2("Secure Chat  ", label.as_str())
}

/// The line below the title of the chat.
pub fn session_label(chat: &ChatState) -> (r: String)
    ensures
        r@ == session_label_text(chat@),
{
    match chat.session() {
        SecureSessionState::Established(keys) => text::join2("chatting with: ", keys.peer()),
        SecureSessionState::AwaitingHello { handshake: _, peer_username, peer_pubkey_b64: _ } =>
        text::join3("handshake with ", peer_username.as_str(), " in progress..."),
        SecureSessionState::NoSession => "type: REGISTER <name> then SECURE <peer>".to_owned(),
    }
}

/// The words behind the keys while a chat line is typed.
pub fn command_hint(chat: &ChatState) -> (r: String)
    ensures
        r@ == command_hint_text(chat@),
{
    match chat.active_peer() {
        Some(peer) => text::join3(
            "  Just type to send to ",
            peer.as_str(),
            "  |  Commands: SECURE <peer>  LIST  QUIT",
        ),
        None => "  Commands: REGISTER <name>  SECURE <peer>  LIST  QUIT".to_owned(),
    }
}

/// The widest window for which rows are counted. A wider one counts as this wide.
pub const WIDEST: u16 = 16_000;

/// The rows over which a line is wrapped at its words in a window, without the space in front of a
/// row if it is trimmed.
pub uninterp spec fn wrapped_rows(line: Seq<char>, width: int, trim: bool) -> int;

/// `Paragraph::line_count`: the rows that a paragraph of one line takes when it is wrapped, which is
/// one at least. The widths that it adds up could overflow in a window much wider than this allows.
#[verifier::external_body]
fn wrapped_line_count(line: &str, width: u16, trim: bool) -> (r: usize)
    requires
        1 <= width <= WIDEST,
    ensures
        r == wrapped_rows(line@, width as int, trim),
        r >= 1,
{
    Paragraph::new(Line::from(Span::raw(line))).wrap(Wrap { trim }).line_count(width)
}

/// The rows that a line takes in a window.
pub open spec fn rows_of(line: Seq<char>, width: int) -> int {
    if width == 0 {
        1
    } else if width <= WIDEST {
        wrapped_rows(line, width, false)
    } else {
        wrapped_rows(line, WIDEST as int, false)
    }
}

/// The rows that each line of a log takes in a window.
pub open spec fn row_counts(log: Seq<(Seq<char>, Color)>, width: int) -> Seq<int> {
    Seq::new(log.len(), |i: int| rows_of(log[i].0, width))
}

/// The rows that lines take together from `start` on.
pub open spec fn rows_from(counts: Seq<int>, start: int) -> int
    decreases counts.len() - start,
{
    if start >= counts.len() || start < 0 {
        0
    } else {
        counts[start] + rows_from(counts, start + 1)
    }
}

/// How far back one has to go from `start` to fill `rows` rows, or to the first line.
pub open spec fn filling(counts: Seq<int>, start: int, rows: int) -> int
    decreases start,
{
    if start <= 0 || rows_from(counts, start) >= rows {
        start
    } else {
        filling(counts, start - 1, rows)
    }
}

/// The first line that is shown in a window of `height` rows: the last lines are, as many as fit, and
/// the very last one in any case.
pub open spec fn first_shown(counts: Seq<int>, height: int) -> int {
    let all = rows_from(counts, 0);
    let rows = if height < all {
        height
    } else {
        all
    };
    let start = filling(counts, counts.len() as int, rows);
    if rows_from(counts, start) > rows && start + 1 < counts.len() {
        start + 1
    } else {
        start
    }
}

/// The view of the rows that lines take.
pub open spec fn counts_view(counts: Seq<usize>) -> Seq<int> {
    Seq::new(counts.len(), |i: int| counts[i] as int)
}

/// The rows that a line takes in a window.
fn count_rows(line: &str, width: u16) -> (r: usize)
    ensures
        r == rows_of(line@, width as int),
        r >= 1,
{
    if width == 0 {
        1
    } else if width <= WIDEST {
        wrapped_line_count(line, width, false)
    } else {
        wrapped_line_count(line, WIDEST, false)
    }
}

/// The first line that is shown in a window of `height` rows, where the lines take these rows.
pub fn window_start(counts: &Vec<usize>, height: u16) -> (r: usize)
    ensures
        r == first_shown(counts_view(counts@), height as int),
        r <= counts@.len(),
{
    let ghost c = counts_view(counts@);
    let n: usize = counts.len();
    let mut all: u128 = 0;
    let mut at: usize = n;
    while at > 0
        invariant
            n == counts@.len(),
            at <= n,
            c == counts_view(counts@),
            all == rows_from(c, at as int),
            all <= (n - at) * 0xffff_ffff_ffff_ffff,
        decreases at,
    {
        at = at - 1;
        assert(c[at as int] == counts@[at as int]);
        all = all + counts[at] as u128;
    }
    let rows: u128 = if (height as u128) < all {
        height as u128
    } else {
        all
    };
    let mut start: usize = n;
    let mut shown: u128 = 0;
    while start > 0 && shown < rows
        invariant
            n == counts@.len(),
            start <= n,
            c == counts_view(counts@),
            shown == rows_from(c, start as int),
            shown <= (n - start) * 0xffff_ffff_ffff_ffff,
            filling(c, n as int, rows as int) == filling(c, start as int, rows as int),
        decreases start,
    {
        start = start - 1;
        assert(c[start as int] == counts@[start as int]);
        shown = shown + counts[start] as u128;
    }
    // A line that does not fit gives way, unless it is the last one.
    if shown > rows && start + 1 < n {
        start + 1
    } else {
        start
    }
}

/// The first line of the log that is shown in a window. The newest line is, unless the window has no
/// row, and what is shown fits unless it is that line alone.
pub fn log_start(log: &Vec<(String, Color)>, width: u16, height: u16) -> (r: usize)
    ensures
        r == first_shown(row_counts(chat::log_view(log@), width as int), height as int),
        r <= log@.len(),
        log@.len() > 0 && height > 0 ==> shows_newest(
            row_counts(chat::log_view(log@), width as int),
            height as int,
        ),
{
    let ghost lines = chat::log_view(log@);
    let n: usize = log.len();
    let mut counts: Vec<usize> = Vec::new();
    for i in 0..n
        invariant
            n == log@.len(),
            lines == chat::log_view(log@),
            counts@.len() == i,
            forall|j: int|
                0 <= j < i ==> #[trigger] counts@[j] == rows_of(lines[j].0, width as int)
                    && counts@[j] >= 1,
    {
        assert(lines[i as int].0 == log@[i as int].0@);
        counts.push(count_rows(log[i].0.as_str(), width));
    }
    proof {
        let c = row_counts(lines, width as int);
        assert(counts_view(counts@) =~= c);
        if n > 0 && height > 0 {
            law_newest_line_is_shown(c, height as int);
        }
    }
    window_start(&counts, height)
}

proof fn lemma_filling(counts: Seq<int>, start: int, rows: int)
    requires
        0 <= start <= counts.len(),
    ensures
        0 <= filling(counts, start, rows) <= start,
        filling(counts, start, rows) < start ==> rows_from(
            counts,
            filling(counts, start, rows) + 1,
        ) < rows,
        rows_from(counts, start) < rows && start > 0 ==> filling(counts, start, rows) < start,
    decreases start,
{
    if start > 0 && rows_from(counts, start) < rows {
        lemma_filling(counts, start - 1, rows);
    }
}

proof fn lemma_rows_from(counts: Seq<int>, start: int)
    requires
        0 <= start <= counts.len(),
        forall|i: int| 0 <= i < counts.len() ==> #[trigger] counts[i] >= 1,
    ensures
        rows_from(counts, start) >= counts.len() - start,
    decreases counts.len() - start,
{
    if start < counts.len() {
        lemma_rows_from(counts, start + 1);
    }
}

/// Whether the newest line is shown, and what is shown fits in the window unless it is that line
/// alone.
pub open spec fn shows_newest(counts: Seq<int>, height: int) -> bool {
    let start = first_shown(counts, height);
    &&& 0 <= start < counts.len()
    &&& rows_from(counts, start) <= height || start == counts.len() - 1
}

/// The newest line is always shown, however small the window, and what is shown fits in it unless it
/// is that line alone, where each line takes a row at least.
pub proof fn law_newest_line_is_shown(counts: Seq<int>, height: int)
    requires
        counts.len() > 0,
        height > 0,
        forall|i: int| 0 <= i < counts.len() ==> #[trigger] counts[i] >= 1,
    ensures
        shows_newest(counts, height),
{
    let all = rows_from(counts, 0);
    let rows = if height < all {
        height
    } else {
        all
    };
    lemma_rows_from(counts, 0);
    lemma_filling(counts, counts.len() as int, rows);
}

/// Whether a task ended on a day of a month, on the local clock of its end.
pub open spec fn ended_in_month(e: EntryView, year: int, month: int) -> bool {
    e.end is Some && exists|x: DateView|
        x.year == year && x.month == month && clock::is_day(x.year, x.month, x.day)
            && #[trigger] clock::day_number(x) == (e.end->Some_0.secs + e.end->Some_0.offset)
            / 86_400
}

proof fn lemma_ended_in_month(e: EntryView, d: DateView)
    requires
        clock::is_day(d.year, d.month, d.day),
    ensures
        tracker::ended_between(e, month_first(d), month_last(d)) <==> ended_in_month(
            e,
            d.year,
            d.month,
        ),
{
    if e.end is Some {
        let n = (e.end->Some_0.secs + e.end->Some_0.offset) / 86_400;
        if month_first(d) <= n <= month_last(d) {
            let x = DateView { year: d.year, month: d.month, day: n - month_first(d) + 1 };
            assert(clock::day_number(x) == n);
        }
    }
}

proof fn lemma_month_tasks(entries: Seq<EntryView>, d: DateView)
    requires
        clock::is_day(d.year, d.month, d.day),
    ensures
        tracker::ending_between(entries, month_first(d), month_last(d)) == entries.filter(
            |e: EntryView| ended_in_month(e, d.year, d.month),
        ),
    decreases entries.len(),
{
    reveal(Seq::filter);
    if entries.len() > 0 {
        lemma_month_tasks(entries.drop_last(), d);
        lemma_ended_in_month(entries.last(), d);
    }
}

/// The tasks of the month at which the calendar stands are the finished ones that ended on any of its
/// days, in their order; at which of its days the calendar stands is all the same.
pub proof fn law_month_has_all_its_tasks(t: TrackerView, d: DateView, other: DateView)
    requires
        clock::is_day(d.year, d.month, d.day),
    ensures
        month_tasks(t, d) == t.entries.filter(
            |e: EntryView| ended_in_month(e, d.year, d.month),
        ),
        other.year == d.year && other.month == d.month ==> month_tasks(t, other) == month_tasks(
            t,
            d,
        ) && marked_days(t, other) == marked_days(t, d),
{
    lemma_month_tasks(t.entries, d);
}

/// The tasks of a day are the finished ones that ended on it, in their order.
pub proof fn law_day_has_all_its_tasks(t: TrackerView, d: DateView)
    ensures
        day_tasks(t, d) == t.entries.filter(
            |e: EntryView|
                e.end is Some && clock::day_number(d) <= (e.end->Some_0.secs
                    + e.end->Some_0.offset) / 86_400 <= clock::day_number(d),
        ),
        forall|e: EntryView| #[trigger]
            day_tasks(t, d).contains(e) ==> e.end is Some && (e.end->Some_0.secs
                + e.end->Some_0.offset) / 86_400 == clock::day_number(d),
{
    tracker::law_tasks_of_days_are_picked_in_order(
        t.entries,
        clock::day_number(d),
        clock::day_number(d),
    );
    assert forall|e: EntryView| #[trigger] day_tasks(t, d).contains(e) implies e.end is Some && (
    e.end->Some_0.secs + e.end->Some_0.offset) / 86_400 == clock::day_number(d) by {
        tracker::law_tasks_of_days(t.entries, clock::day_number(d), clock::day_number(d), e);
    }
}

/// A summary says how many tasks there are, and the hours and minutes that they have taken together.
pub proof fn law_summaries_count_and_add(tasks: Seq<EntryView>, now: Moment)
    ensures
        summary_text(tasks, now) == text::number(tasks.len() as int) + " tasks, "@ + text::number(
            clock::hours(tracker::total(tasks, now)),
        ) + ("h "@ + text::number(
            clock::left_over(clock::minutes(tracker::total(tasks, now)), 60),
        ) + "m"@),
        tracker::total(tasks, now) >= 0 ==> summary_text(tasks, now) == text::number(
            tasks.len() as int,
        ) + " tasks, "@ + text::number(tracker::total(tasks, now) / 3_600_000_000_000) + ("h "@
            + text::number(tracker::total(tasks, now) / 60_000_000_000 % 60) + "m"@),
{
    clock::law_units_of_spans(tracker::total(tasks, now));
}

/// The day whose tasks are shown is the one that is chosen, else today, and the label says which.
pub proof fn law_shown_day_is_the_chosen_one(selected: Option<DateView>, today: DateView)
    ensures
        selected matches Some(d) ==> shown_day(selected, today) == d && day_label_text(selected)
            == clock::day_text(d) + ": "@,
        selected is None ==> shown_day(selected, today) == today && day_label_text(selected)
            == "Today: "@,
{
}

/// The list of a day has a row for each of its tasks, in their order: its name, and in brackets the
/// time that it has taken.
pub proof fn law_day_list_has_a_row_for_each(tasks: Seq<EntryView>, now: Moment)
    ensures
        day_list(tasks, now).len() == tasks.len(),
        forall|i: int|
            0 <= i < tasks.len() ==> #[trigger] day_list(tasks, now)[i] == (
                tasks[i].activity,
                " ("@ + tracker::span_text(tracker::elapsed(tasks[i], now)) + ")"@,
            ),
{
}

/// The summary below the calendar counts and adds up, for the month, the finished tasks that ended in the
/// year and month of the calendar's date, whatever its day; and for the day, and in its list, those that
/// ended on the chosen day, or today where none is chosen.
pub proof fn law_statistics_are_of_day_and_month(
    t: TrackerView,
    calendar: DateView,
    selected: Option<DateView>,
    today: DateView,
    now: Moment,
)
    requires
        clock::is_day(calendar.year, calendar.month, calendar.day),
    ensures
        ({
            let r = statistics_view(t, calendar, selected, today, now);
            let d = match selected {
                Some(d) => d,
                None => today,
            };
            let of_month = t.entries.filter(
                |e: EntryView| ended_in_month(e, calendar.year, calendar.month),
            );
            &&& r.month == summary_text(of_month, now)
            &&& r.day == summary_text(day_tasks(t, d), now)
            &&& r.tasks == day_list(day_tasks(t, d), now)
            &&& r.day_label == match selected {
                Some(d) => clock::day_text(d) + ": "@,
                None => "Today: "@,
            }
            &&& forall|other: DateView|
                other.year == calendar.year && other.month == calendar.month
                    ==> #[trigger] statistics_view(t, other, selected, today, now) == r
        }),
{
    lemma_month_tasks(t.entries, calendar);
}

/// The summary can be reckoned exactly if every end lies on the calendar and the times of the month
/// and of the shown day add up.
pub proof fn law_what_can_be_summed_up(
    t: TrackerView,
    calendar: DateView,
    selected: Option<DateView>,
    today: DateView,
    now: Moment,
)
    ensures
        can_sum_up(t, calendar, selected, today, now) <==> {
            &&& tracker::ends_dated(t.entries)
            &&& tracker::adds_up(month_tasks(t, calendar), now)
            &&& tracker::adds_up(
                day_tasks(
                    t,
                    match selected {
                        Some(d) => d,
                        None => today,
                    },
                ),
                now,
            )
        },
{
}

/// A month marks the day of the month on which each of its tasks ended.
pub proof fn law_months_mark_the_days_of_their_tasks(
    t: TrackerView,
    d: DateView,
    i: int,
    x: DateView,
)
    requires
        clock::is_day(d.year, d.month, d.day),
        0 <= i < month_tasks(t, d).len(),
        clock::is_day(x.year, x.month, x.day),
        clock::day_number(x) == (month_tasks(t, d)[i].end->Some_0.secs + month_tasks(
            t,
            d,
        )[i].end->Some_0.offset) / 86_400,
    ensures
        marked_days(t, d).len() == month_tasks(t, d).len(),
        x.year == d.year,
        x.month == d.month,
        marked_days(t, d)[i] == x.day,
{
    let e = month_tasks(t, d)[i];
    assert(month_tasks(t, d).contains(e));
    tracker::law_tasks_of_days(t.entries, month_first(d), month_last(d), e);
    lemma_ended_in_month(e, d);
    let y = choose|y: DateView|
        y.year == d.year && y.month == d.month && clock::is_day(y.year, y.month, y.day)
            && #[trigger] clock::day_number(y) == (e.end->Some_0.secs + e.end->Some_0.offset)
            / 86_400;
    clock::law_day_numbers_order_dates(x, y);
}

/// The calendar shows the twelve months of its year in order, under their short names, and marks the
/// one at which it stands.
pub proof fn law_calendar_shows_twelve_months(t: TrackerView, calendar: DateView)
    ensures
        month_cells_view(t, calendar).len() == 12,
        forall|i: int|
            0 <= i < 12 ==> #[trigger] month_cells_view(t, calendar)[i] == (MonthView {
                year: calendar.year,
                month: i + 1,
                name: clock::month_name(i + 1).take(3),
                current: i + 1 == calendar.month,
                days: marked_days(t, DateView { year: calendar.year, month: i + 1, day: 1 }),
            }),
{
}

/// The main screen has a row for each running task, in their order and numbered from one: its name,
/// and the time that it shows.
pub proof fn law_running_tasks_have_rows(t: TrackerView, now: Moment)
    ensures
        status_rows_view(t, now).len() == t.active.len(),
        forall|i: int|
            0 <= i < t.active.len() ==> {
                let row = #[trigger] status_rows_view(t, now)[i];
                &&& row.countdown == (t.active[i].target is Some)
                &&& row.number == text::number(i + 1) + ". "@
                &&& row.activity == t.active[i].activity
                &&& row.time == tracker::countdown_text(t.active[i], now)
                &&& row.color == time_color(t.active[i], now)
            },
        all_count(t, now) <==> forall|i: int|
            0 <= i < t.active.len() ==> tracker::counts(#[trigger] t.active[i], now),
{
}

/// A countdown warns the more the less is left of it: below ten minutes, below five, below one, and
/// when it is done. Other tasks do not warn.
pub proof fn law_countdowns_warn(e: EntryView, now: Moment)
    ensures
        e.target is None ==> time_color(e, now) == Color::Cyan,
        e.target matches Some(target) ==> time_color(e, now) == ({
            let left = target - tracker::elapsed(e, now);
            if left < 1_000_000_000 {
                Color::Magenta
            } else if left < 60_000_000_000 {
                Color::Red
            } else if left < 300_000_000_000 {
                Color::Yellow
            } else if left < 600_000_000_000 {
                Color::Green
            } else {
                Color::Cyan
            }
        }),
{
    if let Some(target) = e.target {
        clock::law_units_of_spans(target - tracker::elapsed(e, now));
        clock::law_units_of_spans(tracker::elapsed(e, now) - target);
    }
}

/// The history has a row for each finished task, in their order and numbered from one: its name, the
/// time that it has taken, and in brackets when it began.
pub proof fn law_finished_tasks_have_rows(t: TrackerView, now: Moment)
    ensures
        history_rows_view(t, now).len() == t.entries.len(),
        forall|i: int|
            0 <= i < t.entries.len() ==> {
                let row = #[trigger] history_rows_view(t, now)[i];
                &&& row.number == text::number(i + 1) + ". "@
                &&& row.activity == t.entries[i].activity
                &&& row.duration == tracker::span_text(tracker::elapsed(t.entries[i], now))
                &&& row.date == "("@ + clock::stamp(t.entries[i].start) + ")"@
            },
        starts_zoned(t) <==> forall|i: int|
            0 <= i < t.entries.len() ==> clock::zoned((#[trigger] t.entries[i]).start),
{
}

/// The line above the running tasks says how many there are.
pub proof fn law_headline_counts(n: int)
    ensures
        headline_text(n) == text::number(n) + (if n == 1 {
            " Active Task"@
        } else {
            " Active Tasks"@
        }),
{
    reveal_strlit("");
    reveal_strlit("s");
    reveal_strlit(" Active Task");
    reveal_strlit(" Active Tasks");
    assert(" Active Task"@ + ""@ =~= " Active Task"@);
    assert(" Active Task"@ + "s"@ =~= " Active Tasks"@);
    assert(text::number(n) + " Active Task"@ + ""@ =~= text::number(n) + (" Active Task"@ + ""@));
    assert(text::number(n) + " Active Task"@ + "s"@ =~= text::number(n) + (" Active Task"@ + "s"@));
}

/// The history says in its title how many tasks are done, and the calendar in which year and month it
/// stands.
pub proof fn law_titles(count: int, d: DateView)
    ensures
        history_title_text(count) == " Completed Tasks ("@ + text::number(count) + ") "@,
        calendar_title_text(d) == "Task Calendar - "@ + (clock::year_text(d.year) + ", "@
            + clock::two(d.month)) + " "@,
{
}

/// The chat says in its title how far the client has come with the relay, below it with whom a session
/// is there or is being made, and while a line is typed to whom it goes.
pub proof fn law_chat_labels(s: ChatView, name: Seq<char>)
    ensures
        s.connection is Disconnected ==> chat_title_text(s) == "Secure Chat  "@ + "[disconnected]"@,
        s.connection is Connected ==> chat_title_text(s) == "Secure Chat  "@
            + "[connected - not registered]"@,
        s.connection == chat::ConnectionView::Registered(name) ==> chat_title_text(s)
            == "Secure Chat  "@ + ("["@ + name + "]"@),
        s.session matches SecureView::Established(keys) ==> session_label_text(s)
            == "chatting with: "@ + keys.peer && command_hint_text(s) == "  Just type to send to "@
            + keys.peer + "  |  Commands: SECURE <peer>  LIST  QUIT"@,
        s.session matches SecureView::AwaitingHello { secret, peer, key } ==> session_label_text(s)
            == "handshake with "@ + peer + " in progress..."@,
        s.session is NoSession ==> session_label_text(s)
            == "type: REGISTER <name> then SECURE <peer>"@,
        s.session !is Established ==> command_hint_text(s)
            == "  Commands: REGISTER <name>  SECURE <peer>  LIST  QUIT"@,
{
}

/// A line takes as many rows as it is wrapped over in the window.
pub proof fn law_lines_take_their_wrapped_rows(log: Seq<(Seq<char>, Color)>, width: int)
    ensures
        row_counts(log, width).len() == log.len(),
        1 <= width <= 16_000 ==> forall|i: int|
            0 <= i < log.len() ==> #[trigger] row_counts(log, width)[i] == wrapped_rows(
                log[i].0,
                width,
                false,
            ),
        width > 16_000 ==> row_counts(log, width) == row_counts(log, 16_000),
        width == 0 ==> forall|i: int|
            0 <= i < log.len() ==> #[trigger] row_counts(log, width)[i] == 1,
{
}

/// The rows from a line on are its own and those from the next line on.
pub proof fn law_rows_from_a_line_on(counts: Seq<int>, start: int)
    ensures
        rows_from(counts, counts.len() as int) == 0,
        0 <= start < counts.len() ==> rows_from(counts, start) == counts[start] + rows_from(
            counts,
            start + 1,
        ),
{
}

proof fn lemma_filled(counts: Seq<int>, start: int, rows: int)
    requires
        0 <= start <= counts.len(),
        rows_from(counts, 0) >= rows,
    ensures
        rows_from(counts, filling(counts, start, rows)) >= rows,
    decreases start,
{
    if start > 0 && rows_from(counts, start) < rows {
        lemma_filled(counts, start - 1, rows);
    }
}

/// The window shows as many lines as fit: all of them if they fit together, and else so many that the
/// line before the first one shown would not fit any more.
pub proof fn law_window_is_filled(counts: Seq<int>, height: int)
    requires
        height >= 0,
        forall|i: int| 0 <= i < counts.len() ==> #[trigger] counts[i] >= 1,
    ensures
        0 <= first_shown(counts, height) <= counts.len(),
        rows_from(counts, 0) <= height ==> first_shown(counts, height) == 0,
        first_shown(counts, height) > 0 ==> rows_from(counts, first_shown(counts, height) - 1)
            > height,
{
    let all = rows_from(counts, 0);
    let rows = if height < all {
        height
    } else {
        all
    };
    let n = counts.len() as int;
    lemma_rows_from(counts, 0);
    lemma_filling(counts, n, rows);
    lemma_filled(counts, n, rows);
    let start = filling(counts, n, rows);
    if start > 0 {
        lemma_rows_shrink(counts, start);
        assert(counts[start - 1] >= 1);
    }
}

proof fn lemma_rows_shrink(counts: Seq<int>, start: int)
    requires
        0 <= start <= counts.len(),
        forall|i: int| 0 <= i < counts.len() ==> #[trigger] counts[i] >= 1,
    ensures
        rows_from(counts, 0) >= rows_from(counts, start) + start,
    decreases start,
{
    if start > 0 {
        lemma_rows_shrink(counts, start - 1);
    }
}

} // verus!
