//! The program: what each key does on each screen.

use crate::chat::{self, ChatState, ChatView, Color};
use crate::clock::{self, Date, DateView, Moment};
use crate::command::{self, Request, RequestView};
use crate::text;
use crate::tracker::{self, TimeTracker, TrackerView};
use vstd::prelude::*;
use vstd::utf8::*;

verus! {

/// The keys of the keyboard.
#[derive(Clone, Copy, PartialEq, Eq, Structural, Debug)]
pub enum Key {
    Enter,
    Esc,
    Backspace,
    Left,
    Right,
    Up,
    Down,
    ScrollLock,
    Char(char),
    Other,
}

/// What the keys are taken for.
#[derive(Clone, Copy, PartialEq, Eq, Structural, Debug)]
pub enum InputMode {
    Normal,
    StartCountdown,
    StopTask,
    ConfirmDeleteAll,
    DeleteTask,
    SelectDay,
    /// The user is composing a chat message or command.
    ChatTyping,
}

/// The screens of the program.
#[derive(Clone, Copy, PartialEq, Eq, Structural, Debug)]
pub enum Screen {
    Main,
    History,
    Calendar,
    Chat,
}

/// What the program holds.
#[verifier::ext_equal]
pub struct AppView {
    pub tracker: TrackerView,
    /// Whether the tasks have changed since they were last kept.
    pub unsaved: bool,
    pub exit: bool,
    pub mode: InputMode,
    pub screen: Screen,
    pub input: Seq<char>,
    pub message: Option<Seq<char>>,
    pub color: Color,
    /// The line of the history that is marked.
    pub selected: Option<usize>,
    /// The day at which the calendar stands.
    pub calendar: DateView,
    /// The day whose tasks are shown, if not today's.
    pub day: Option<DateView>,
    pub chat: ChatView,
}

/// The program with a message.
pub open spec fn told(s: AppView, message: Seq<char>, color: Color) -> AppView {
    AppView { message: Some(message), color, ..s }
}

/// The program with tasks to keep.
pub open spec fn changed(s: AppView, tracker: TrackerView) -> AppView {
    AppView { tracker, unsaved: true, ..s }
}

/// The program waiting for input of some kind.
pub open spec fn asking(s: AppView, mode: InputMode) -> AppView {
    AppView { mode, input: Seq::empty(), message: None, ..s }
}

/// The program done with an input.
pub open spec fn answered(s: AppView) -> AppView {
    AppView { mode: InputMode::Normal, input: Seq::empty(), ..s }
}

/// The program after an input was given up.
pub open spec fn cancelled(s: AppView) -> AppView {
    told(answered(s), "Cancelled"@, Color::Yellow)
}

/// The program with one more character in the input.
pub open spec fn typed(s: AppView, c: char) -> AppView {
    AppView { input: s.input.push(c), ..s }
}

/// A text without its last character.
pub open spec fn shortened(t: Seq<char>) -> Seq<char> {
    if t.len() > 0 {
        t.drop_last()
    } else {
        t
    }
}

/// Whether a key is this letter, small or capital.
pub open spec fn is_letter(key: Key, small: char, capital: char) -> bool {
    key == Key::Char(small) || key == Key::Char(capital)
}

/// "s" behind any number but one.
pub open spec fn plural(n: int) -> Seq<char> {
    if n == 1 {
        ""@
    } else {
        "s"@
    }
}

/// The program after the running task at `index` was stopped.
pub open spec fn after_stop(s: AppView, index: int, now: Moment, offsets: Seq<i32>) -> AppView {
    told(
        changed(s, tracker::after_stop(s.tracker, index, now, offsets[index])),
        "✓ Stopped task: "@ + s.tracker.active[index].activity,
        Color::Green,
    )
}

/// The program after a key on the main screen.
pub open spec fn main_key(s: AppView, key: Key, now: Moment, offsets: Seq<i32>) -> AppView {
    let running = s.tracker.active.len() as int;
    if is_letter(key, 'q', 'Q') {
        AppView { exit: true, ..s }
    } else if is_letter(key, 't', 'T') {
        asking(s, InputMode::StartCountdown)
    } else if is_letter(key, 'x', 'X') {
        if running == 0 {
            told(s, "✗ No active tasks to stop"@, Color::Red)
        } else if running == 1 {
            after_stop(s, 0, now, offsets)
        } else {
            asking(s, InputMode::StopTask)
        }
    } else if is_letter(key, 'c', 'C') {
        AppView { screen: Screen::Calendar, message: None, ..s }
    } else if is_letter(key, 'a', 'A') {
        if running > 0 {
            told(
                changed(s, tracker::after_stop_all(s.tracker, now, offsets)),
                "✓ Stopped "@ + text::number(running) + " task"@ + plural(running),
                Color::Green,
            )
        } else {
            told(s, "✗ No active tasks to stop"@, Color::Red)
        }
    } else if is_letter(key, 'h', 'H') {
        AppView { screen: Screen::History, message: None, ..s }
    } else if is_letter(key, 'm', 'M') {
        AppView { screen: Screen::Chat, mode: InputMode::ChatTyping, message: None, ..s }
    } else {
        s
    }
}

/// The months from the beginning of the year nought to the month of a date.
pub open spec fn month_number(d: DateView) -> int {
    d.year * 12 + d.month - 1
}

/// By how many months an arrow key moves the calendar, which shows three months in a row.
pub open spec fn months_by(key: Key) -> int {
    match key {
        Key::Left => -1,
        Key::Right => 1,
        Key::Up => -3,
        Key::Down => 3,
        _ => 0,
    }
}

/// A day in the month with this number, or the last day of the month if it has not so many; nothing
/// where the calendar ends.
pub open spec fn in_month(number: int, day: int) -> Option<DateView> {
    let year = number / 12;
    let month = number % 12 + 1;
    let last = clock::days_in_month(year, month);
    if clock::MIN_YEAR <= year <= clock::MAX_YEAR {
        Some(
            DateView {
                year,
                month,
                day: if day < last {
                    day
                } else {
                    last
                },
            },
        )
    } else {
        None
    }
}

/// Where a key leads on the calendar.
pub open spec fn moved(d: DateView, key: Key) -> Option<DateView> {
    in_month(month_number(d) + months_by(key), d.day)
}

/// Whether a key is an arrow.
pub open spec fn is_arrow(key: Key) -> bool {
    key == Key::Left || key == Key::Right || key == Key::Up || key == Key::Down
}

/// The program after a key on the calendar.
pub open spec fn calendar_key(s: AppView, key: Key) -> AppView {
    if key == Key::Esc || is_letter(key, 'q', 'Q') {
        AppView { screen: Screen::Main, day: None, message: None, ..s }
    } else if is_letter(key, 'd', 'D') {
        asking(s, InputMode::SelectDay)
    } else if is_arrow(key) {
        AppView { day: None, calendar: moved(s.calendar, key)->Some_0, ..s }
    } else {
        s
    }
}

/// The program after a key on the history.
pub open spec fn history_key(s: AppView, key: Key) -> AppView {
    let done = s.tracker.entries.len();
    let marked: usize = match s.selected {
        Some(i) => i,
        None => 0,
    };
    if key == Key::Esc || is_letter(key, 'q', 'Q') {
        AppView { screen: Screen::Main, message: None, ..s }
    } else if is_letter(key, 'x', 'X') {
        if done == 0 {
            told(s, "✗ No task to delete"@, Color::Red)
        } else {
            asking(s, InputMode::DeleteTask)
        }
    } else if is_letter(key, 'a', 'A') {
        if done == 0 {
            told(s, "No tasks to Delete"@, Color::Red)
        } else {
            asking(s, InputMode::ConfirmDeleteAll)
        }
    } else if key == Key::Up && done > 0 && marked > 0 {
        AppView { selected: Some((marked - 1) as usize), ..s }
    } else if key == Key::Down && marked < done - 1 {
        AppView { selected: Some((marked + 1) as usize), ..s }
    } else {
        s
    }
}

/// The program after a key on the chat while nothing is typed.
pub open spec fn chat_screen_key(s: AppView, key: Key) -> AppView {
    if key == Key::Esc || is_letter(key, 'q', 'Q') {
        AppView { screen: Screen::Main, ..s }
    } else if is_letter(key, 'i', 'I') {
        AppView { mode: InputMode::ChatTyping, ..s }
    } else {
        s
    }
}

/// The program after a key outside any input.
pub open spec fn normal_key(s: AppView, key: Key, now: Moment, offsets: Seq<i32>) -> AppView {
    match s.screen {
        Screen::Main => main_key(s, key, now, offsets),
        Screen::Calendar => calendar_key(s, key),
        Screen::History => history_key(s, key),
        Screen::Chat => chat_screen_key(s, key),
    }
}

/// The name in the input of a countdown, before the first colon.
pub open spec fn countdown_name(input: Seq<char>) -> Seq<char> {
    text::trimmed(input.take(text::find(input, ':')))
}

/// The minutes in the input of a countdown, behind the first colon.
pub open spec fn countdown_minutes(input: Seq<char>) -> Option<int> {
    text::parsed(
        input.skip(text::find(input, ':') + 1),
        true,
        i64::MIN as int,
        i64::MAX as int,
    )
}

/// The program after the input of a countdown was taken.
pub open spec fn countdown_taken(s: AppView, now: Moment) -> AppView {
    let name = countdown_name(s.input);
    if s.input.len() == 0 {
        s
    } else if !s.input.contains(':') {
        told(s, "Format: TaskName:Minutes (e.g., Study:25)"@, Color::Red)
    } else {
        match countdown_minutes(s.input) {
            None => told(s, "Invalid minutes format"@, Color::Red),
            Some(minutes) => if minutes <= 0 {
                told(s, "Minutes must be positive"@, Color::Red)
            } else if tracker::runs(s.tracker, name) {
                told(s, "Error: "@ + ("Task '"@ + name + "' is already active"@), Color::Red)
            } else {
                told(
                    changed(
                        s,
                        tracker::after_start(
                            s.tracker,
                            name,
                            now,
                            Some(tracker::countdown_nanos(minutes) as i128),
                        ),
                    ),
                    "Started countdown: "@ + name + " ("@ + (text::number(minutes) + " min)"@),
                    Color::Green,
                )
            },
        }
    }
}

/// The program after a key in the input of a countdown.
pub open spec fn countdown_key(s: AppView, key: Key, now: Moment) -> AppView {
    match key {
        Key::Enter => answered(countdown_taken(s, now)),
        Key::Char(c) => typed(s, c),
        Key::Backspace => AppView { input: shortened(s.input), ..s },
        Key::Esc => cancelled(s),
        _ => s,
    }
}

/// The number in the input, if it is one.
pub open spec fn number_typed(s: AppView) -> Option<int> {
    text::parsed(s.input, false, 0, usize::MAX as int)
}

/// The program after the number of a task was taken that is none of `count` tasks, or no number.
pub open spec fn wrong_number(s: AppView, count: int) -> AppView {
    match number_typed(s) {
        Some(n) => told(
            s,
            "✗ Invalid task number (1-"@ + text::number(count) + ")"@,
            Color::Red,
        ),
        None => told(s, "✗ Please enter a valid number"@, Color::Red),
    }
}

/// Whether the number in the input is that of one of `count` tasks.
pub open spec fn names_task(s: AppView, count: int) -> bool {
    number_typed(s) matches Some(n) && 0 < n <= count
}

/// The program after a key in the input of a task to stop.
pub open spec fn stop_key(s: AppView, key: Key, now: Moment, offsets: Seq<i32>) -> AppView {
    let count = s.tracker.active.len() as int;
    match key {
        Key::Enter => answered(
            if s.input.len() == 0 {
                s
            } else if names_task(s, count) {
                after_stop(s, number_typed(s)->Some_0 - 1, now, offsets)
            } else {
                wrong_number(s, count)
            },
        ),
        Key::Char(c) => if text::is_digit(c) {
            typed(s, c)
        } else {
            s
        },
        Key::Backspace => AppView { input: shortened(s.input), ..s },
        Key::Esc => cancelled(s),
        _ => s,
    }
}

/// The program after the finished task at `index` was deleted.
pub open spec fn after_delete(s: AppView, index: int) -> AppView {
    told(
        changed(s, tracker::after_delete(s.tracker, index)),
        "✓ Deleted task: "@ + s.tracker.entries[index].activity,
        Color::Green,
    )
}

/// The program after a key in the input of a task to delete.
pub open spec fn delete_key(s: AppView, key: Key) -> AppView {
    let count = s.tracker.entries.len() as int;
    match key {
        Key::Enter => answered(
            if s.input.len() == 0 {
                s
            } else if names_task(s, count) {
                after_delete(s, number_typed(s)->Some_0 - 1)
            } else {
                wrong_number(s, count)
            },
        ),
        Key::Char(c) => if c == 'a' || c == 'A' {
            if s.input.len() == 0 {
                told(s, "✗ No active tasks to stop"@, Color::Red)
            } else {
                s
            }
        } else if text::is_digit(c) {
            typed(s, c)
        } else {
            s
        },
        Key::Backspace => AppView { input: shortened(s.input), ..s },
        Key::Esc => cancelled(s),
        _ => s,
    }
}

/// The program after a key when asked whether to delete all.
pub open spec fn confirm_key(s: AppView, key: Key) -> AppView {
    let count = s.tracker.entries.len() as int;
    if is_letter(key, 'y', 'Y') {
        AppView {
            mode: InputMode::Normal,
            ..told(
                changed(s, TrackerView { entries: Seq::empty(), ..s.tracker }),
                "Deleted "@ + text::number(count) + " task"@ + plural(count),
                Color::Green,
            )
        }
    } else if key == Key::Esc {
        AppView { mode: InputMode::Normal, ..told(s, "Cancelled"@, Color::Yellow) }
    } else {
        s
    }
}

/// The program after the input of a day was taken.
pub open spec fn day_taken(s: AppView) -> AppView {
    if s.input.len() == 0 {
        s
    } else {
        match text::parsed(s.input, false, 0, u32::MAX as int) {
            None => told(s, "✗ Please enter a valid day number"@, Color::Red),
            Some(day) => if clock::is_date(s.calendar.year, s.calendar.month, day) {
                told(
                    AppView { day: Some(DateView { day, ..s.calendar }), ..s },
                    "Viewing tasks for "@ + clock::day_text(DateView { day, ..s.calendar }),
                    Color::Cyan,
                )
            } else {
                told(s, "✗ Invalid day for this month"@, Color::Red)
            },
        }
    }
}

/// The program after a key in the input of a day.
pub open spec fn day_key(s: AppView, key: Key) -> AppView {
    match key {
        Key::Enter => answered(day_taken(s)),
        Key::Char(c) => if text::is_digit(c) && encode_utf8(s.input).len() < 2 {
            typed(s, c)
        } else {
            s
        },
        Key::Backspace => AppView { input: shortened(s.input), ..s },
        Key::Esc => AppView { day: None, ..cancelled(s) },
        _ => s,
    }
}

/// The program, and what is to be done, after a key while a chat line is typed.
pub open spec fn chat_key(s: AppView, key: Key, nonce: Seq<u8>) -> (AppView, RequestView) {
    let emptied = ChatView { input: Seq::empty(), ..s.chat };
    let line = text::trimmed(s.chat.input);
    match key {
        Key::Esc => (
            AppView { mode: InputMode::Normal, chat: emptied, ..s },
            RequestView::Nothing,
        ),
        Key::Backspace => (
            AppView { chat: ChatView { input: shortened(s.chat.input), ..s.chat }, ..s },
            RequestView::Nothing,
        ),
        Key::Enter => if line.len() == 0 {
            (AppView { chat: emptied, ..s }, RequestView::Nothing)
        } else {
            let (chat, request) = command::after_command(emptied, line, nonce);
            (AppView { chat, ..s }, request)
        },
        Key::Char(c) => (
            AppView { chat: ChatView { input: s.chat.input.push(c), ..s.chat }, ..s },
            RequestView::Nothing,
        ),
        _ => (s, RequestView::Nothing),
    }
}

/// Whether the peer reads the text that goes to it when a line is entered.
pub open spec fn line_can_be_read(s: AppView, key: Key, nonce: Seq<u8>) -> bool {
    s.mode == InputMode::ChatTyping && key == Key::Enter && text::trimmed(s.chat.input).len() > 0
        ==> command::peer_can_read(
        ChatView { input: Seq::empty(), ..s.chat },
        text::trimmed(s.chat.input),
        nonce,
    )
}

/// The program, and what is to be done, after a key. By `offsets` the local clock is ahead when the
/// running countdowns are over; `nonce` is that of the chat message if one is sent.
pub open spec fn after_key(
    s: AppView,
    key: Key,
    now: Moment,
    offsets: Seq<i32>,
    nonce: Seq<u8>,
) -> (AppView, RequestView) {
    match s.mode {
        InputMode::Normal => (normal_key(s, key, now, offsets), RequestView::Nothing),
        InputMode::StartCountdown => (countdown_key(s, key, now), RequestView::Nothing),
        InputMode::StopTask => (stop_key(s, key, now, offsets), RequestView::Nothing),
        InputMode::DeleteTask => (delete_key(s, key), RequestView::Nothing),
        InputMode::ConfirmDeleteAll => (confirm_key(s, key), RequestView::Nothing),
        InputMode::SelectDay => (day_key(s, key), RequestView::Nothing),
        InputMode::ChatTyping => chat_key(s, key, nonce),
    }
}

/// Whether the countdown in the input, if it would start, has a span.
pub open spec fn countdown_fits(s: AppView) -> bool {
    s.input.contains(':') && !tracker::runs(s.tracker, countdown_name(s.input)) ==> (
    countdown_minutes(s.input) matches Some(minutes) ==> minutes > 0 ==> clock::span_fits(
        tracker::countdown_nanos(minutes),
    ))
}

/// Whether the program can take a key: the ends of the countdowns that it stops can be found, the
/// countdown that it starts has a span, the arrow does not lead past the calendar, and the key is not
/// the one that the calendar has no use for.
pub open spec fn accepts(s: AppView, key: Key) -> bool {
    match s.mode {
        InputMode::Normal => match s.screen {
            Screen::Main => {
                &&& is_letter(key, 'x', 'X') && s.tracker.active.len() == 1 ==> tracker::stoppable(
                    s.tracker.active[0],
                )
                &&& is_letter(key, 'a', 'A') ==> tracker::all_stoppable(s.tracker)
            },
            Screen::Calendar => key != Key::ScrollLock && moved(s.calendar, key) is Some,
            _ => true,
        },
        InputMode::StartCountdown => key == Key::Enter ==> countdown_fits(s),
        InputMode::StopTask => key == Key::Enter && names_task(s, s.tracker.active.len() as int)
            ==> tracker::stoppable(s.tracker.active[number_typed(s)->Some_0 - 1]),
        _ => true,
    }
}

/// An arrow moves the calendar by a month to the side or three months up or down, over the end of
/// the year too. The day of the month stays, unless the month has not so many: it is the last one
/// there. No other day is chosen any more, and all else stays.
pub proof fn law_arrows_move_by_months(s: AppView, key: Key, now: Moment, offsets: Seq<i32>)
    requires
        s.screen == Screen::Calendar,
        is_arrow(key),
        clock::is_date(s.calendar.year, s.calendar.month, s.calendar.day),
        moved(s.calendar, key) is Some,
    ensures
        ({
            let t = normal_key(s, key, now, offsets);
            &&& month_number(t.calendar) == month_number(s.calendar) + months_by(key)
            &&& clock::is_date(t.calendar.year, t.calendar.month, t.calendar.day)
            &&& t.calendar.day <= s.calendar.day
            &&& s.calendar.day <= clock::days_in_month(t.calendar.year, t.calendar.month)
                ==> t.calendar.day == s.calendar.day
            &&& t.calendar.day < s.calendar.day ==> t.calendar.day == clock::days_in_month(
                t.calendar.year,
                t.calendar.month,
            )
            &&& s.calendar.day <= 28 ==> t.calendar.day == s.calendar.day
            &&& t == AppView { calendar: t.calendar, day: None, ..s }
        }),
{
}

/// An arrow leads nowhere only past the first or the last year of the calendar.
pub proof fn law_arrows_lead_somewhere(d: DateView, key: Key)
    requires
        clock::is_date(d.year, d.month, d.day),
        clock::MIN_YEAR < d.year < clock::MAX_YEAR,
    ensures
        moved(d, key) is Some,
{
}

/// Right takes left back, left takes right back, down takes up back and up takes down back, where
/// the month between has the day.
pub proof fn law_arrows_undo_each_other(d: DateView)
    requires
        clock::is_date(d.year, d.month, d.day),
    ensures
        moved(d, Key::Left) matches Some(e) ==> e.day == d.day ==> moved(e, Key::Right) == Some(d),
        moved(d, Key::Right) matches Some(e) ==> e.day == d.day ==> moved(e, Key::Left) == Some(d),
        moved(d, Key::Up) matches Some(e) ==> e.day == d.day ==> moved(e, Key::Down) == Some(d),
        moved(d, Key::Down) matches Some(e) ==> e.day == d.day ==> moved(e, Key::Up) == Some(d),
{
}

/// Escape leaves every input: it leads back to no input, and tasks and chat lines stay as they are.
pub proof fn law_escape_leaves_inputs(
    s: AppView,
    now: Moment,
    offsets: Seq<i32>,
    nonce: Seq<u8>,
)
    ensures
        after_key(s, Key::Esc, now, offsets, nonce).0.mode == InputMode::Normal,
        after_key(s, Key::Esc, now, offsets, nonce).0.tracker == s.tracker,
        after_key(s, Key::Esc, now, offsets, nonce).0.chat.outbox == s.chat.outbox,
        after_key(s, Key::Esc, now, offsets, nonce).0.unsaved == s.unsaved,
        after_key(s, Key::Esc, now, offsets, nonce).1 is Nothing,
{
}

/// Whenever a key changes the tasks, they are to be kept.
pub proof fn law_changed_tasks_are_kept(
    s: AppView,
    key: Key,
    now: Moment,
    offsets: Seq<i32>,
    nonce: Seq<u8>,
)
    ensures
        after_key(s, key, now, offsets, nonce).0.tracker != s.tracker ==> after_key(
            s,
            key,
            now,
            offsets,
            nonce,
        ).0.unsaved,
        s.unsaved ==> after_key(s, key, now, offsets, nonce).0.unsaved,
{
}

/// Only the chat reaches the chat, and only outside inputs can the program be left.
pub proof fn law_keys_stay_in_their_place(
    s: AppView,
    key: Key,
    now: Moment,
    offsets: Seq<i32>,
    nonce: Seq<u8>,
)
    ensures
        s.mode != InputMode::ChatTyping ==> after_key(s, key, now, offsets, nonce).0.chat == s.chat,
        s.mode == InputMode::ChatTyping ==> after_key(s, key, now, offsets, nonce).0.tracker
            == s.tracker,
        after_key(s, key, now, offsets, nonce).0.exit && !s.exit ==> s.mode == InputMode::Normal
            && s.screen == Screen::Main && is_letter(key, 'q', 'Q'),
{
}

/// The program as it starts, on the main screen.
pub open spec fn at_start(tracker: TrackerView, chat: ChatView, today: DateView) -> AppView {
    AppView {
        tracker,
        unsaved: false,
        exit: false,
        mode: InputMode::Normal,
        screen: Screen::Main,
        input: Seq::empty(),
        message: None,
        color: Color::Green,
        selected: Some(0),
        calendar: today,
        day: None,
        chat,
    }
}

/// The program starts on the main screen, outside any input, with what it is given; its calendar stands
/// at today, and the first line of the history is marked.
pub proof fn law_program_starts_on_the_main_screen(
    tracker: TrackerView,
    chat: ChatView,
    today: DateView,
)
    ensures
        at_start(tracker, chat, today).tracker == tracker,
        at_start(tracker, chat, today).chat == chat,
        at_start(tracker, chat, today).calendar == today,
        at_start(tracker, chat, today).screen == Screen::Main,
        at_start(tracker, chat, today).mode == InputMode::Normal,
        at_start(tracker, chat, today).selected == Some(0usize),
        at_start(tracker, chat, today).input.len() == 0,
        at_start(tracker, chat, today).message is None,
        at_start(tracker, chat, today).color == Color::Green,
        at_start(tracker, chat, today).day is None,
        !at_start(tracker, chat, today).unsaved,
        !at_start(tracker, chat, today).exit,
{
}

/// The program.
pub struct App {
    tracker: TimeTracker,
    unsaved: bool,
    exit: bool,
    mode: InputMode,
    screen: Screen,
    input: String,
    message: Option<String>,
    message_color: Color,
    selected: Option<usize>,
    calendar_date: Date,
    selected_day: Option<Date>,
    chat: ChatState,
}

impl View for App {
    type V = AppView;

    closed spec fn view(&self) -> AppView {
        AppView {
            tracker: self.tracker@,
            unsaved: self.unsaved,
            exit: self.exit,
            mode: self.mode,
            screen: self.screen,
            input: self.input@,
            message: text::text_of(self.message),
            color: self.message_color,
            selected: self.selected,
            calendar: self.calendar_date@,
            day: clock::date_view(self.selected_day),
            chat: self.chat@,
        }
    }
}

/// Whether a key is this letter, small or capital.
fn letter(key: Key, small: char, capital: char) -> (r: bool)
    ensures
        r == is_letter(key, small, capital),
{
    match key {
        Key::Char(c) => c == small || c == capital,
        _ => false,
    }
}

/// "s" behind any number but one.
pub(crate) fn plural_text(n: usize) -> (r: &'static str)
    ensures
        r@ == plural(n as int),
{
    if n == 1 {
        ""
    } else {
        "s"
    }
}

/// Whether a character is one of the ten digits.
fn digit(c: char) -> (r: bool)
    ensures
        r == text::is_digit(c),
{
    '0' <= c && c <= '9'
}

/// Where a key leads on the calendar, if it does not end there.
fn move_date(date: &Date, key: Key) -> (r: Option<Date>)
    ensures
        clock::date_view(r) == moved(date@, key),
{
    let by: i32 = match key {
        Key::Left => -1,
        Key::Right => 1,
        Key::Up => -3,
        Key::Down => 3,
        _ => 0,
    };
    let sum: i32 = date.month() as i32 - 1 + by;
    let (year, month): (i32, u32) = if sum < 0 {
        (date.year() - 1, (sum + 13) as u32)
    } else if sum >= 12 {
        (date.year() + 1, (sum - 11) as u32)
    } else {
        (date.year(), (sum + 1) as u32)
    };
    proof {
        let number = month_number(date@) + months_by(key);
        assert(number / 12 == year && number % 12 + 1 == month);
    }
    let last: u32 = clock::month_length(year, month);
    let day: u32 = if date.day() < last {
        date.day()
    } else {
        last
    };
    Date::new(year, month, day)
}

impl App {
    /// The program with the tasks and the peers' keys that were kept, on the main screen; its
    /// calendar stands at `today`.
    pub fn new(tracker: TimeTracker, chat: ChatState, today: Date) -> (r: Self)
        ensures
            r@ == at_start(tracker@, chat@, today@),
    {
        App {
            tracker,
            unsaved: false,
            exit: false,
            mode: InputMode::Normal,
            screen: Screen::Main,
            input: String::new(),
            message: None,
            message_color: Color::Green,
            selected: Some(0),
            calendar_date: today,
            selected_day: None,
            chat,
        }
    }

    /// Shows a message.
    fn tell(&mut self, message: &str, color: Color)
        ensures
            final(self)@ == told(old(self)@, message@, color),
    {
        self.message = Some(message.to_owned());
        self.message_color = color;
    }

    /// Waits for input of some kind.
    fn ask(&mut self, mode: InputMode)
        ensures
            final(self)@ == asking(old(self)@, mode),
    {
        self.mode = mode;
        self.input = String::new();
        self.message = None;
    }

    /// Is done with an input.
    fn answer(&mut self)
        ensures
            final(self)@ == answered(old(self)@),
    {
        self.mode = InputMode::Normal;
        self.input = String::new();
    }

    /// Gives up an input.
    fn cancel(&mut self)
        ensures
            final(self)@ == cancelled(old(self)@),
    {
        self.answer();
        self.tell("Cancelled", Color::Yellow);
    }

    /// Takes the last character off the input.
    fn erase(&mut self)
        ensures
            final(self)@ == (AppView { input: shortened(old(self)@.input), ..old(self)@ }),
    {
        self.input.pop();
    }

    /// Adds a character to the input.
    fn type_char(&mut self, c: char)
        ensures
            final(self)@ == typed(old(self)@, c),
    {
        self.input.push(c);
    }

    /// Stops the running task at `index` and says so.
    fn stop_task(&mut self, index: usize, now: &Moment)
        requires
            index < old(self)@.tracker.active.len(),
            tracker::stoppable(old(self)@.tracker.active[index as int]),
        ensures
            exists|offsets: Seq<i32>|
                tracker::offsets_fit(offsets) && final(self)@ == #[trigger] after_stop(
                    old(self)@,
                    index as int,
                    *now,
                    offsets,
                ),
    {
        let r: Result<String, String> = self.tracker.stop(index, now);
        let ghost offset = choose|offset: i32|
            clock::offset_fits(offset) && self.tracker@ == #[trigger] tracker::after_stop(
                old(self)@.tracker,
                index as int,
                *now,
                offset,
            );
        let ghost offsets: Seq<i32> = Seq::new((index + 1) as nat, |i: int| offset);
        if let Ok(name) = r {
            self.unsaved = true;
            self.tell(text::join2("✓ Stopped task: ", name.as_str()).as_str(), Color::Green);
        }
        assert(offsets[index as int] == offset);
        assert(self@ == after_stop(old(self)@, index as int, *now, offsets));
    }

    /// Stops all running tasks and says so.
    fn stop_all_tasks(&mut self, now: &Moment)
        requires
            tracker::all_stoppable(old(self)@.tracker),
        ensures
            exists|offsets: Seq<i32>|
                tracker::offsets_fit(offsets) && final(self)@ == #[trigger] main_key(old(self)@, Key::Char('a'), *now, offsets),
    {
        let count: usize = self.tracker.stop_all(now);
        let ghost offsets = choose|offsets: Seq<i32>|
            offsets.len() == old(self)@.tracker.active.len() && tracker::offsets_fit(offsets)
                && self.tracker@ == #[trigger] tracker::after_stop_all(old(self)@.tracker, *now, offsets);
        if count > 0 {
            let line: String = text::join4(
                "✓ Stopped ",
                text::number_text(count as i128).as_str(),
                " task",
                plural_text(count),
            );
            self.unsaved = true;
            self.tell(line.as_str(), Color::Green);
        } else {
            self.tell("✗ No active tasks to stop", Color::Red);
            assert(self.tracker@ =~= old(self)@.tracker);
        }
        assert(self@ == main_key(old(self)@, Key::Char('a'), *now, offsets));
    }

    /// Takes a key on the main screen.
    fn handle_main_key(&mut self, key: Key, now: &Moment)
        requires
            is_letter(key, 'x', 'X') && old(self)@.tracker.active.len() == 1 ==> tracker::stoppable(
                old(self)@.tracker.active[0],
            ),
            is_letter(key, 'a', 'A') ==> tracker::all_stoppable(old(self)@.tracker),
        ensures
            exists|offsets: Seq<i32>|
                tracker::offsets_fit(offsets) && final(self)@ == #[trigger] main_key(old(self)@, key, *now, offsets),
    {
        let ghost none: Seq<i32> = Seq::empty();
        if letter(key, 'q', 'Q') {
            self.exit = true;
        } else if letter(key, 't', 'T') {
            self.ask(InputMode::StartCountdown);
        } else if letter(key, 'x', 'X') {
            let running: usize = self.tracker.active_entries.len();
            assert(running == self@.tracker.active.len());
            if running == 0 {
                self.tell("✗ No active tasks to stop", Color::Red);
            } else if running == 1 {
                self.stop_task(0, now);
                proof {
                    let offsets = choose|offsets: Seq<i32>|
                        tracker::offsets_fit(offsets) && self@ == #[trigger] after_stop(
                            old(self)@,
                            0,
                            *now,
                            offsets,
                        );
                    assert(self@ == main_key(old(self)@, key, *now, offsets));
                }
                return;
            } else {
                self.ask(InputMode::StopTask);
            }
        } else if letter(key, 'c', 'C') {
            self.screen = Screen::Calendar;
            self.message = None;
        } else if letter(key, 'a', 'A') {
            self.stop_all_tasks(now);
            proof {
                let offsets = choose|offsets: Seq<i32>|
                    tracker::offsets_fit(offsets) && self@ == #[trigger] main_key(old(self)@, Key::Char('a'), *now, offsets);
                assert(self@ == main_key(old(self)@, key, *now, offsets));
            }
            return;
        } else if letter(key, 'h', 'H') {
            self.screen = Screen::History;
            self.message = None;
        } else if letter(key, 'm', 'M') {
            self.screen = Screen::Chat;
            self.mode = InputMode::ChatTyping;
            self.message = None;
        }
        assert(self@ == main_key(old(self)@, key, *now, none));
    }

    /// Takes a key on the calendar.
    fn handle_calendar_key(&mut self, key: Key)
        requires
            moved(old(self)@.calendar, key) is Some,
        ensures
            final(self)@ == calendar_key(old(self)@, key),
    {
        let arrow: bool = match key {
            Key::Left | Key::Right | Key::Up | Key::Down => true,
            _ => false,
        };
        if key == Key::Esc || letter(key, 'q', 'Q') {
            self.screen = Screen::Main;
            self.selected_day = None;
            self.message = None;
        } else if letter(key, 'd', 'D') {
            self.ask(InputMode::SelectDay);
        } else if arrow {
            self.selected_day = None;
            if let Some(date) = move_date(&self.calendar_date, key) {
                self.calendar_date = date;
            }
        }
    }

    /// Takes a key on the history.
    fn handle_history_key(&mut self, key: Key)
        ensures
            final(self)@ == history_key(old(self)@, key),
    {
        let done: usize = self.tracker.entries.len();
        assert(done == self@.tracker.entries.len());
        let marked: usize = match self.selected {
            Some(i) => i,
            None => 0,
        };
        if key == Key::Esc || letter(key, 'q', 'Q') {
            self.screen = Screen::Main;
            self.message = None;
        } else if letter(key, 'x', 'X') {
            if done == 0 {
                self.tell("✗ No task to delete", Color::Red);
            } else {
                self.ask(InputMode::DeleteTask);
            }
        } else if letter(key, 'a', 'A') {
            if done == 0 {
                self.tell("No tasks to Delete", Color::Red);
            } else {
                self.ask(InputMode::ConfirmDeleteAll);
            }
        } else if key == Key::Up {
            if done > 0 && marked > 0 {
                self.selected = Some(marked - 1);
            }
        } else if key == Key::Down {
            if done > 0 && marked < done - 1 {
                self.selected = Some(marked + 1);
            }
        }
    }

    /// Takes a key on the chat while nothing is typed.
    fn handle_chat_screen_key(&mut self, key: Key)
        ensures
            final(self)@ == chat_screen_key(old(self)@, key),
    {
        if key == Key::Esc || letter(key, 'q', 'Q') {
            self.screen = Screen::Main;
        } else if letter(key, 'i', 'I') {
            self.mode = InputMode::ChatTyping;
        }
    }

    /// Takes a key outside any input.
    pub fn handle_normal_mode(&mut self, key: Key, now: &Moment)
        requires
            accepts(AppView { mode: InputMode::Normal, ..old(self)@ }, key),
        ensures
            exists|offsets: Seq<i32>|
                tracker::offsets_fit(offsets) && final(self)@ == #[trigger] normal_key(old(self)@, key, *now, offsets),
    {
        let ghost none: Seq<i32> = Seq::empty();
        match self.screen {
            Screen::Main => {
                self.handle_main_key(key, now);
                proof {
                    let offsets = choose|offsets: Seq<i32>|
                        tracker::offsets_fit(offsets) && self@ == #[trigger] main_key(old(self)@, key, *now, offsets);
                    assert(self@ == normal_key(old(self)@, key, *now, offsets));
                }
                return;
            },
            Screen::Calendar => self.handle_calendar_key(key),
            Screen::History => self.handle_history_key(key),
            Screen::Chat => self.handle_chat_screen_key(key),
        }
        assert(self@ == normal_key(old(self)@, key, *now, none));
    }

    /// Takes the input of a countdown.
    fn take_countdown(&mut self, now: &Moment)
        requires
            countdown_fits(old(self)@),
        ensures
            final(self)@ == countdown_taken(old(self)@, *now),
    {
        let len: usize = self.input.as_str().unicode_len();
        if len == 0 {
            return;
        }
        let colon: usize = text::find_char(self.input.as_str(), ':');
        proof {
            text::lemma_find(self.input@, ':');
        }
        if colon == len {
            self.tell("Format: TaskName:Minutes (e.g., Study:25)", Color::Red);
            return;
        }
        let name: String = text::trim(self.input.as_str().substring_char(0, colon));
        let rest: String = self.input.as_str().substring_char(colon + 1, len).to_owned();
        proof {
            assert(self.input@.subrange(0, colon as int) =~= self.input@.take(colon as int));
            assert(rest@ =~= self.input@.skip(colon + 1));
        }
        match text::parse_number(rest.as_str(), true, i64::MIN as i128, i64::MAX as i128) {
            None => {
                self.tell("Invalid minutes format", Color::Red);
            },
            Some(minutes) => {
                if minutes <= 0 {
                    self.tell("Minutes must be positive", Color::Red);
                    return;
                }
                match self.tracker.start_countdown(name.as_str(), minutes as i64, now) {
                    Ok(_) => {
                        let line: String = text::join4(
                            "Started countdown: ",
                            name.as_str(),
                            " (",
                            text::join2(text::number_text(minutes).as_str(), " min)").as_str(),
                        );
                        self.unsaved = true;
                        self.tell(line.as_str(), Color::Green);
                    },
                    Err(e) => {
                        self.tell(text::join2("Error: ", e.as_str()).as_str(), Color::Red);
                    },
                }
            },
        }
    }

    /// Takes a key in the input of a countdown.
    pub fn handle_countdown_input(&mut self, key: Key, now: &Moment)
        requires
            key == Key::Enter ==> countdown_fits(old(self)@),
        ensures
            final(self)@ == countdown_key(old(self)@, key, *now),
    {
        match key {
            Key::Enter => {
                self.take_countdown(now);
                self.answer();
            },
            Key::Char(c) => self.type_char(c),
            Key::Backspace => self.erase(),
            Key::Esc => self.cancel(),
            _ => {},
        }
    }

    /// The number in the input, if it is that of one of `count` tasks; else says what is wrong.
    fn take_number(&mut self, count: usize) -> (r: Option<usize>)
        ensures
            match r {
                Some(n) => names_task(old(self)@, count as int) && number_typed(old(self)@) == Some(
                    n as int,
                ) && final(self)@ == old(self)@,
                None => !names_task(old(self)@, count as int) && final(self)@ == wrong_number(
                    old(self)@,
                    count as int,
                ),
            },
    {
        match text::parse_number(self.input.as_str(), false, 0, usize::MAX as i128) {
            Some(n) => {
                if n > 0 && n <= count as i128 {
                    Some(n as usize)
                } else {
                    let line: String = text::join3(
                        "✗ Invalid task number (1-",
                        text::number_text(count as i128).as_str(),
                        ")",
                    );
                    self.tell(line.as_str(), Color::Red);
                    None
                }
            },
            None => {
                self.tell("✗ Please enter a valid number", Color::Red);
                None
            },
        }
    }

    /// Takes a key in the input of a task to stop.
    pub fn handle_stop_task_mode(&mut self, key: Key, now: &Moment)
        requires
            accepts(AppView { mode: InputMode::StopTask, ..old(self)@ }, key),
        ensures
            exists|offsets: Seq<i32>|
                tracker::offsets_fit(offsets) && final(self)@ == #[trigger] stop_key(old(self)@, key, *now, offsets),
    {
        let ghost none: Seq<i32> = Seq::empty();
        match key {
            Key::Enter => {
                let count: usize = self.tracker.active_entries.len();
                assert(count == self@.tracker.active.len());
                if self.input.as_str().unicode_len() > 0 {
                    if let Some(n) = self.take_number(count) {
                        self.stop_task(n - 1, now);
                        let ghost offsets = choose|offsets: Seq<i32>|
                            tracker::offsets_fit(offsets) && self@ == #[trigger] after_stop(
                                old(self)@,
                                n - 1,
                                *now,
                                offsets,
                            );
                        self.answer();
                        assert(self@ == stop_key(old(self)@, key, *now, offsets));
                        return;
                    }
                }
                self.answer();
            },
            Key::Char(c) => {
                if digit(c) {
                    self.type_char(c);
                }
            },
            Key::Backspace => self.erase(),
            Key::Esc => self.cancel(),
            _ => {},
        }
        assert(self@ == stop_key(old(self)@, key, *now, none));
    }

    /// Takes a key in the input of a task to delete.
    pub fn handle_delete_task_mode(&mut self, key: Key)
        ensures
            final(self)@ == delete_key(old(self)@, key),
    {
        match key {
            Key::Enter => {
                let count: usize = self.tracker.entries.len();
                assert(count == self@.tracker.entries.len());
                if self.input.as_str().unicode_len() > 0 {
                    if let Some(n) = self.take_number(count) {
                        if let Ok(name) = self.tracker.delete_task(n - 1) {
                            self.unsaved = true;
                            self.tell(
                                text::join2("✓ Deleted task: ", name.as_str()).as_str(),
                                Color::Green,
                            );
                        }
                    }
                }
                self.answer();
            },
            Key::Char(c) => {
                if c == 'a' || c == 'A' {
                    if self.input.as_str().unicode_len() == 0 {
                        self.tell("✗ No active tasks to stop", Color::Red);
                    }
                } else if digit(c) {
                    self.type_char(c);
                }
            },
            Key::Backspace => self.erase(),
            Key::Esc => self.cancel(),
            _ => {},
        }
    }

    /// Takes a key when asked whether to delete all finished tasks.
    pub fn handle_confirm_delete_all_mode(&mut self, key: Key)
        ensures
            final(self)@ == confirm_key(old(self)@, key),
    {
        if letter(key, 'y', 'Y') {
            let count: usize = self.tracker.delete_all();
            let line: String = text::join4(
                "Deleted ",
                text::number_text(count as i128).as_str(),
                " task",
                plural_text(count),
            );
            self.tell(line.as_str(), Color::Green);
            self.unsaved = true;
            self.mode = InputMode::Normal;
        } else if key == Key::Esc {
            self.tell("Cancelled", Color::Yellow);
            self.mode = InputMode::Normal;
        }
    }

    /// Takes the input of a day.
    fn take_day(&mut self)
        ensures
            final(self)@ == day_taken(old(self)@),
    {
        if self.input.as_str().unicode_len() == 0 {
            return;
        }
        match text::parse_number(self.input.as_str(), false, 0, u32::MAX as i128) {
            None => {
                self.tell("✗ Please enter a valid day number", Color::Red);
            },
            Some(day) => {
                let year: i32 = self.calendar_date.year();
                let month: u32 = self.calendar_date.month();
                match Date::new(year, month, day as u32) {
                    Some(date) => {
                        let shown: String = clock::format_day(&date);
                        self.selected_day = Some(date);
                        self.tell(
                            text::join2("Viewing tasks for ", shown.as_str()).as_str(),
                            Color::Cyan,
                        );
                    },
                    None => {
                        self.tell("✗ Invalid day for this month", Color::Red);
                    },
                }
            },
        }
    }

    /// Takes a key in the input of a day.
    pub fn handle_select_day_mode(&mut self, key: Key)
        ensures
            final(self)@ == day_key(old(self)@, key),
    {
        match key {
            Key::Enter => {
                self.take_day();
                self.answer();
            },
            Key::Char(c) => {
                if digit(c) && self.input.as_str().as_bytes().len() < 2 {
                    self.type_char(c);
                }
            },
            Key::Backspace => self.erase(),
            Key::Esc => {
                self.cancel();
                self.selected_day = None;
            },
            _ => {},
        }
    }

    /// Takes a key while a chat line is typed.
    pub fn handle_chat_typing(&mut self, key: Key) -> (r: Request)
        ensures
            exists|nonce: Seq<u8>|
                nonce.len() == 12 && (final(self)@, r@) == #[trigger] chat_key(
                    old(self)@,
                    key,
                    nonce,
                ) && line_can_be_read(
                    old(self)@,
                    key,
                    nonce,
                ),
    {
        let ghost none: Seq<u8> = Seq::new(12, |i: int| 0u8);
        match key {
            Key::Esc => {
                self.mode = InputMode::Normal;
                self.chat.clear_input();
            },
            Key::Backspace => self.chat.erase_char(),
            Key::Enter => {
                let raw: String = text::trim(self.chat.input());
                self.chat.clear_input();
                if raw.as_str().unicode_len() > 0 {
                    let ghost before = self.chat@;
                    let request: Request = self.chat.dispatch_chat_command(raw.as_str());
                    proof {
                        let nonce = choose|nonce: Seq<u8>|
                            nonce.len() == 12 && (self.chat@, request@)
                                == #[trigger] command::after_command(before, raw@, nonce)
                                && command::peer_can_read(before, raw@, nonce);
                        assert((self@, request@) == chat_key(old(self)@, key, nonce));
                    }
                    return request;
                }
            },
            Key::Char(c) => self.chat.type_char(c),
            _ => {},
        }
        assert((self@, RequestView::Nothing) == chat_key(old(self)@, key, none));
        Request::Nothing
    }

    /// Takes a key. The request that comes out is the caller's to perform.
    pub fn handle_key_event(&mut self, key: Key) -> (r: Request)
        requires
            accepts(old(self)@, key),
        ensures
            exists|now: Moment, offsets: Seq<i32>, nonce: Seq<u8>|
                clock::valid(now) && tracker::offsets_fit(offsets) && nonce.len() == 12 && (
                final(self)@, r@) == #[trigger] after_key(old(self)@, key, now, offsets, nonce)
                    && line_can_be_read(old(self)@, key, nonce),
    {
        let now: Moment = clock::now();
        self.handle_key_event_at(key, &now)
    }

    /// Takes a key at a moment.
    pub fn handle_key_event_at(&mut self, key: Key, now: &Moment) -> (r: Request)
        requires
            accepts(old(self)@, key),
        ensures
            exists|offsets: Seq<i32>, nonce: Seq<u8>|
                tracker::offsets_fit(offsets) && nonce.len() == 12 && (final(self)@, r@)
                    == #[trigger] after_key(old(self)@, key, *now, offsets, nonce) && line_can_be_read(old(self)@, key, nonce),
    {
        let ghost no_offsets: Seq<i32> = Seq::empty();
        let ghost no_nonce: Seq<u8> = Seq::new(12, |i: int| 0u8);
        match self.mode {
            InputMode::Normal => {
                self.handle_normal_mode(key, now);
                proof {
                    let offsets = choose|offsets: Seq<i32>|
                        tracker::offsets_fit(offsets) && self@ == #[trigger] normal_key(old(self)@, key, *now, offsets);
                    assert((self@, RequestView::Nothing) == after_key(
                        old(self)@,
                        key,
                        *now,
                        offsets,
                        no_nonce,
                    ));
                }
                return Request::Nothing;
            },
            InputMode::StopTask => {
                self.handle_stop_task_mode(key, now);
                proof {
                    let offsets = choose|offsets: Seq<i32>|
                        tracker::offsets_fit(offsets) && self@ == #[trigger] stop_key(old(self)@, key, *now, offsets);
                    assert((self@, RequestView::Nothing) == after_key(
                        old(self)@,
                        key,
                        *now,
                        offsets,
                        no_nonce,
                    ));
                }
                return Request::Nothing;
            },
            InputMode::ChatTyping => {
                let request: Request = self.handle_chat_typing(key);
                proof {
                    let nonce = choose|nonce: Seq<u8>|
                        nonce.len() == 12 && (self@, request@) == #[trigger] chat_key(
                            old(self)@,
                            key,
                            nonce,
                        ) && line_can_be_read(old(self)@, key, nonce);
                    assert((self@, request@) == after_key(
                        old(self)@,
                        key,
                        *now,
                        no_offsets,
                        nonce,
                    ));
                }
                return request;
            },
            InputMode::StartCountdown => self.handle_countdown_input(key, now),
            InputMode::DeleteTask => self.handle_delete_task_mode(key),
            InputMode::ConfirmDeleteAll => self.handle_confirm_delete_all_mode(key),
            InputMode::SelectDay => self.handle_select_day_mode(key),
        }
        assert((self@, RequestView::Nothing) == after_key(
            old(self)@,
            key,
            *now,
            no_offsets,
            no_nonce,
        ));
        Request::Nothing
    }

    /// Whether the countdown in the input, if it would start, has a span.
    fn can_start_countdown(&self) -> (r: bool)
        ensures
            r == countdown_fits(self@),
    {
        let len: usize = self.input.as_str().unicode_len();
        let colon: usize = text::find_char(self.input.as_str(), ':');
        proof {
            text::lemma_find(self.input@, ':');
        }
        if colon == len {
            return true;
        }
        let name: String = text::trim(self.input.as_str().substring_char(0, colon));
        let rest: String = self.input.as_str().substring_char(colon + 1, len).to_owned();
        proof {
            assert(self.input@.subrange(0, colon as int) =~= self.input@.take(colon as int));
            assert(rest@ =~= self.input@.skip(colon + 1));
        }
        if self.tracker.is_active(name.as_str()) {
            return true;
        }
        match text::parse_number(rest.as_str(), true, i64::MIN as i128, i64::MAX as i128) {
            Some(minutes) => minutes <= 0 || minutes * 60 * clock::NANOS <= clock::MAX_SPAN,
            None => true,
        }
    }

    /// Whether the program can take a key.
    pub fn can_handle(&self, key: Key) -> (r: bool)
        ensures
            r == accepts(self@, key),
    {
        match self.mode {
            InputMode::Normal => match self.screen {
                Screen::Main => {
                    assert(self@.tracker.active.len() == self.tracker.active_entries@.len());
                    if letter(key, 'x', 'X') && self.tracker.active_entries.len() == 1 {
                        assert(self@.tracker.active[0] == self.tracker.active_entries@[0]@);
                        self.tracker.can_stop(0)
                    } else if letter(key, 'a', 'A') {
                        self.tracker.can_stop_all()
                    } else {
                        true
                    }
                },
                Screen::Calendar => key != Key::ScrollLock && move_date(
                    &self.calendar_date,
                    key,
                ).is_some(),
                _ => true,
            },
            InputMode::StartCountdown => key != Key::Enter || self.can_start_countdown(),
            InputMode::StopTask => {
                if key != Key::Enter {
                    return true;
                }
                match text::parse_number(self.input.as_str(), false, 0, usize::MAX as i128) {
                    Some(n) => {
                        let count: usize = self.tracker.active_entries.len();
                        assert(count == self@.tracker.active.len());
                        if n > 0 && n <= count as i128 {
                            self.tracker.can_stop((n - 1) as usize)
                        } else {
                            true
                        }
                    },
                    None => true,
                }
            },
            _ => true,
        }
    }

    /// The tasks.
    pub fn tracker(&self) -> (r: &TimeTracker)
        ensures
            r@ == self@.tracker,
    {
        &self.tracker
    }

    /// Whether the tasks have to be kept anew; from here on they count as kept.
    pub fn take_unsaved(&mut self) -> (r: bool)
        ensures
            r == old(self)@.unsaved,
            final(self)@ == (AppView { unsaved: false, ..old(self)@ }),
    {
        let unsaved: bool = self.unsaved;
        self.unsaved = false;
        unsaved
    }

    /// Whether the program is to be left.
    pub fn exit(&self) -> (r: bool)
        ensures
            r == self@.exit,
    {
        self.exit
    }

    /// What the keys are taken for.
    pub fn mode(&self) -> (r: InputMode)
        ensures
            r == self@.mode,
    {
        self.mode
    }

    /// The screen that is shown.
    pub fn screen(&self) -> (r: Screen)
        ensures
            r == self@.screen,
    {
        self.screen
    }

    /// The input outside the chat.
    pub fn input(&self) -> (r: &str)
        ensures
            r@ == self@.input,
    {
        self.input.as_str()
    }

    /// The message that is shown.
    pub fn message(&self) -> (r: &Option<String>)
        ensures
            text::text_of(*r) == self@.message,
    {
        &self.message
    }

    /// The colour of the message.
    pub fn message_color(&self) -> (r: Color)
        ensures
            r == self@.color,
    {
        self.message_color
    }

    /// The line of the history that is marked.
    pub fn selected(&self) -> (r: Option<usize>)
        ensures
            r == self@.selected,
    {
        self.selected
    }

    /// Marks a line of the history.
    pub fn select(&mut self, selected: Option<usize>)
        ensures
            final(self)@ == (AppView { selected, ..old(self)@ }),
    {
        self.selected = selected;
    }

    /// The day at which the calendar stands.
    pub fn calendar_date(&self) -> (r: Date)
        ensures
            r@ == self@.calendar,
    {
        self.calendar_date
    }

    /// The day whose tasks are shown, if not today's.
    pub fn selected_day(&self) -> (r: Option<Date>)
        ensures
            clock::date_view(r) == self@.day,
    {
        self.selected_day
    }

    /// The chat.
    pub fn chat(&self) -> (r: &ChatState)
        ensures
            r@ == self@.chat,
    {
        &self.chat
    }

    /// The chat, to be changed.
    pub fn chat_mut(&mut self) -> (r: &mut ChatState)
        ensures
            r@ == old(self)@.chat,
            final(self)@ == (AppView { chat: final(r)@, ..old(self)@ }),
    {
        &mut self.chat
    }
}

} // verus!
