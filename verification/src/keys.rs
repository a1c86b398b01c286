//! What each key does on each screen and in each input, whatever else the program holds.

use crate::app::{self, AppView, InputMode, Key, Screen};
use crate::chat::{ChatView, Color};
use crate::clock::{self, DateView, Moment};
use crate::command::{self, RequestView};
use crate::text;
use crate::tracker::{self, TrackerView};
use vstd::prelude::*;
use vstd::utf8::*;

verus! {

/// The keys of the main screen that lead elsewhere: Q leaves the program, T asks for a countdown, C
/// shows the calendar, H the history, and M the chat, ready to type.
pub proof fn law_main_screen_leads_elsewhere(
    s: AppView,
    now: Moment,
    offsets: Seq<i32>,
    nonce: Seq<u8>,
    key: Key,
)
    requires
        s.mode == InputMode::Normal,
        s.screen == Screen::Main,
    ensures
        key == Key::Char('q') || key == Key::Char('Q') ==> app::after_key(s, key, now, offsets, nonce)
            == (AppView { exit: true, ..s }, RequestView::Nothing),
        key == Key::Char('t') || key == Key::Char('T') ==> app::after_key(s, key, now, offsets, nonce)
            == (
            AppView {
                mode: InputMode::StartCountdown,
                input: Seq::empty(),
                message: None,
                ..s
            },
            RequestView::Nothing,
        ),
        key == Key::Char('c') || key == Key::Char('C') ==> app::after_key(s, key, now, offsets, nonce)
            == (AppView { screen: Screen::Calendar, message: None, ..s }, RequestView::Nothing),
        key == Key::Char('h') || key == Key::Char('H') ==> app::after_key(s, key, now, offsets, nonce)
            == (AppView { screen: Screen::History, message: None, ..s }, RequestView::Nothing),
        key == Key::Char('m') || key == Key::Char('M') ==> app::after_key(s, key, now, offsets, nonce)
            == (
            AppView { screen: Screen::Chat, mode: InputMode::ChatTyping, message: None, ..s },
            RequestView::Nothing,
        ),
{
}

/// X on the main screen stops the only running task, asks which of several, and says so if there is
/// none. A stops all.
pub proof fn law_main_screen_stops_tasks(
    s: AppView,
    now: Moment,
    offsets: Seq<i32>,
    nonce: Seq<u8>,
    key: Key,
)
    requires
        s.mode == InputMode::Normal,
        s.screen == Screen::Main,
    ensures
        ({
            let n = s.tracker.active.len();
            let (t, request) = app::after_key(s, key, now, offsets, nonce);
            let nothing = AppView {
                message: Some("✗ No active tasks to stop"@),
                color: Color::Red,
                ..s
            };
            &&& key == Key::Char('x') || key == Key::Char('X') || key == Key::Char('a') || key
                == Key::Char('A') ==> request == RequestView::Nothing && (n == 0 ==> t == nothing)
            &&& (key == Key::Char('x') || key == Key::Char('X')) && n == 1 ==> t == (AppView {
                tracker: tracker::after_stop(s.tracker, 0, now, offsets[0]),
                unsaved: true,
                message: Some("✓ Stopped task: "@ + s.tracker.active[0].activity),
                color: Color::Green,
                ..s
            })
            &&& (key == Key::Char('x') || key == Key::Char('X')) && n > 1 ==> t == (AppView {
                mode: InputMode::StopTask,
                input: Seq::empty(),
                message: None,
                ..s
            })
            &&& (key == Key::Char('a') || key == Key::Char('A')) && n > 0 ==> t == (AppView {
                tracker: tracker::after_stop_all(s.tracker, now, offsets),
                unsaved: true,
                message: Some(
                    "✓ Stopped "@ + text::number(n as int) + " task"@ + if n == 1 {
                        ""@
                    } else {
                        "s"@
                    },
                ),
                color: Color::Green,
                ..s
            })
        }),
{
}

/// Whether a key is one of some letters, small or capital.
pub open spec fn is_one_of(key: Key, letters: Seq<char>) -> bool {
    key matches Key::Char(c) && letters.contains(c)
}

/// A key that a screen has no use for does nothing.
pub proof fn law_other_keys_do_nothing(
    s: AppView,
    now: Moment,
    offsets: Seq<i32>,
    nonce: Seq<u8>,
    key: Key,
)
    requires
        s.mode == InputMode::Normal,
        s.screen == Screen::Main ==> !is_one_of(
            key,
            seq!['q', 'Q', 't', 'T', 'x', 'X', 'c', 'C', 'a', 'A', 'h', 'H', 'm', 'M'],
        ),
        s.screen == Screen::Calendar ==> !is_one_of(key, seq!['q', 'Q', 'd', 'D']) && key != Key::Esc
            && key != Key::Left && key != Key::Right && key != Key::Up && key != Key::Down,
        s.screen == Screen::History ==> !is_one_of(key, seq!['q', 'Q', 'x', 'X', 'a', 'A']) && key
            != Key::Esc && key != Key::Up && key != Key::Down,
        s.screen == Screen::Chat ==> !is_one_of(key, seq!['q', 'Q', 'i', 'I']) && key != Key::Esc,
    ensures
        app::after_key(s, key, now, offsets, nonce) == (s, RequestView::Nothing),
{
    if let Key::Char(c) = key {
        let main = seq!['q', 'Q', 't', 'T', 'x', 'X', 'c', 'C', 'a', 'A', 'h', 'H', 'm', 'M'];
        let calendar = seq!['q', 'Q', 'd', 'D'];
        let history = seq!['q', 'Q', 'x', 'X', 'a', 'A'];
        let chat = seq!['q', 'Q', 'i', 'I'];
        assert forall|i: int| 0 <= i < 14 && c == main[i] implies main.contains(c) by {}
        assert forall|i: int| 0 <= i < 4 && c == calendar[i] implies calendar.contains(c) by {}
        assert forall|i: int| 0 <= i < 6 && c == history[i] implies history.contains(c) by {}
        assert forall|i: int| 0 <= i < 4 && c == chat[i] implies chat.contains(c) by {}
        assert(main[0] == 'q' && main[1] == 'Q' && main[2] == 't' && main[3] == 'T' && main[4]
            == 'x' && main[5] == 'X' && main[6] == 'c' && main[7] == 'C' && main[8] == 'a'
            && main[9] == 'A' && main[10] == 'h' && main[11] == 'H' && main[12] == 'm' && main[13]
            == 'M');
        assert(calendar[0] == 'q' && calendar[1] == 'Q' && calendar[2] == 'd' && calendar[3]
            == 'D');
        assert(history[0] == 'q' && history[1] == 'Q' && history[2] == 'x' && history[3] == 'X'
            && history[4] == 'a' && history[5] == 'A');
        assert(chat[0] == 'q' && chat[1] == 'Q' && chat[2] == 'i' && chat[3] == 'I');
    }
}

/// Escape and Q lead back to the main screen from each of the others; the calendar then shows no chosen
/// day any more.
pub proof fn law_screens_lead_back(
    s: AppView,
    now: Moment,
    offsets: Seq<i32>,
    nonce: Seq<u8>,
    key: Key,
)
    requires
        s.mode == InputMode::Normal,
        key == Key::Esc || key == Key::Char('q') || key == Key::Char('Q'),
    ensures
        s.screen == Screen::Calendar ==> app::after_key(s, key, now, offsets, nonce).0 == (AppView {
            screen: Screen::Main,
            day: None,
            message: None,
            ..s
        }),
        s.screen == Screen::History ==> app::after_key(s, key, now, offsets, nonce).0 == (AppView {
            screen: Screen::Main,
            message: None,
            ..s
        }),
        s.screen == Screen::Chat ==> app::after_key(s, key, now, offsets, nonce).0 == (AppView {
            screen: Screen::Main,
            ..s
        }),
{
}

/// D on the calendar asks for a day, and I on the chat lets one type.
pub proof fn law_screens_ask_for_input(
    s: AppView,
    now: Moment,
    offsets: Seq<i32>,
    nonce: Seq<u8>,
    key: Key,
)
    requires
        s.mode == InputMode::Normal,
    ensures
        s.screen == Screen::Calendar && (key == Key::Char('d') || key == Key::Char('D'))
            ==> app::after_key(s, key, now, offsets, nonce).0 == (AppView {
            mode: InputMode::SelectDay,
            input: Seq::empty(),
            message: None,
            ..s
        }),
        s.screen == Screen::Chat && (key == Key::Char('i') || key == Key::Char('I'))
            ==> app::after_key(s, key, now, offsets, nonce).0 == (AppView {
            mode: InputMode::ChatTyping,
            ..s
        }),
{
}

/// The arrows move the calendar by a month to the side and by three up and down.
pub proof fn law_arrows_by_months(
    s: AppView,
    now: Moment,
    offsets: Seq<i32>,
    nonce: Seq<u8>,
    key: Key,
    months: int,
)
    requires
        s.mode == InputMode::Normal,
        s.screen == Screen::Calendar,
        clock::is_date(s.calendar.year, s.calendar.month, s.calendar.day),
        key == Key::Left && months == -1 || key == Key::Right && months == 1 || key == Key::Up
            && months == -3 || key == Key::Down && months == 3,
        app::accepts(s, key),
    ensures
        ({
            let t = app::after_key(s, key, now, offsets, nonce).0;
            let number = s.calendar.year * 12 + (s.calendar.month - 1) + months;
            &&& t.calendar.year * 12 + (t.calendar.month - 1) == number
            &&& 1 <= t.calendar.month <= 12
            &&& t.calendar.day == if s.calendar.day <= clock::days_in_month(
                t.calendar.year,
                t.calendar.month,
            ) {
                s.calendar.day
            } else {
                clock::days_in_month(t.calendar.year, t.calendar.month)
            }
            &&& t == (AppView { calendar: t.calendar, day: None, ..s })
        }),
{
}

/// In the history, X asks which task to delete and A whether to delete all, if there are any; up and
/// down move the mark by one line, and not past the first or the last.
pub proof fn law_history_keys(
    s: AppView,
    now: Moment,
    offsets: Seq<i32>,
    nonce: Seq<u8>,
    key: Key,
)
    requires
        s.mode == InputMode::Normal,
        s.screen == Screen::History,
    ensures
        ({
            let t = app::after_key(s, key, now, offsets, nonce).0;
            let done = s.tracker.entries.len();
            let marked: int = match s.selected {
                Some(i) => i as int,
                None => 0,
            };
            &&& key == Key::Char('x') || key == Key::Char('X') ==> t == if done == 0 {
                AppView { message: Some("✗ No task to delete"@), color: Color::Red, ..s }
            } else {
                AppView {
                    mode: InputMode::DeleteTask,
                    input: Seq::empty(),
                    message: None,
                    ..s
                }
            }
            &&& key == Key::Char('a') || key == Key::Char('A') ==> t == if done == 0 {
                AppView { message: Some("No tasks to Delete"@), color: Color::Red, ..s }
            } else {
                AppView {
                    mode: InputMode::ConfirmDeleteAll,
                    input: Seq::empty(),
                    message: None,
                    ..s
                }
            }
            &&& key == Key::Up && (done == 0 || marked == 0) ==> t == s
            &&& key == Key::Up && done > 0 && marked > 0 ==> t.selected is Some
                && t.selected->Some_0 == marked - 1 && t == (AppView { selected: t.selected, ..s })
            &&& key == Key::Down && marked + 1 >= done ==> t == s
            &&& key == Key::Down && marked + 1 < done <= usize::MAX ==> t.selected is Some
                && t.selected->Some_0 == marked + 1 && t == (AppView { selected: t.selected, ..s })
        }),
{
}

/// In every input but the question whether to delete all, Backspace takes the last character off what
/// is typed, and Escape gives it up; only escaping the choice of a day also forgets the chosen one.
pub proof fn law_inputs_are_corrected_and_given_up(
    s: AppView,
    now: Moment,
    offsets: Seq<i32>,
    nonce: Seq<u8>,
)
    ensures
        s.mode == InputMode::StartCountdown || s.mode == InputMode::StopTask || s.mode
            == InputMode::DeleteTask || s.mode == InputMode::SelectDay ==> {
            &&& app::after_key(s, Key::Backspace, now, offsets, nonce).0 == (AppView {
                input: s.input.take(
                    if s.input.len() > 0 {
                        s.input.len() - 1
                    } else {
                        0
                    },
                ),
                ..s
            })
            &&& app::after_key(s, Key::Esc, now, offsets, nonce).0 == (AppView {
                mode: InputMode::Normal,
                input: Seq::empty(),
                message: Some("Cancelled"@),
                color: Color::Yellow,
                day: if s.mode == InputMode::SelectDay {
                    None
                } else {
                    s.day
                },
                ..s
            })
            &&& app::after_key(s, Key::Left, now, offsets, nonce).0 == s
            &&& app::after_key(s, Key::Right, now, offsets, nonce).0 == s
            &&& app::after_key(s, Key::Up, now, offsets, nonce).0 == s
            &&& app::after_key(s, Key::Down, now, offsets, nonce).0 == s
            &&& app::after_key(s, Key::ScrollLock, now, offsets, nonce).0 == s
            &&& app::after_key(s, Key::Other, now, offsets, nonce).0 == s
        },
{
    if s.input.len() > 0 {
        assert(s.input.drop_last() =~= s.input.take(s.input.len() - 1));
    } else {
        assert(s.input.take(0) =~= s.input);
    }
}

/// What is typed is added to the input: anything for a countdown, digits for the number of a task, and
/// at most two digits for a day.
pub proof fn law_inputs_take_characters(
    s: AppView,
    now: Moment,
    offsets: Seq<i32>,
    nonce: Seq<u8>,
    c: char,
)
    ensures
        ({
            let t = app::after_key(s, Key::Char(c), now, offsets, nonce).0;
            let more = AppView { input: s.input.push(c), ..s };
            let digit = 48 <= c as int <= 57;
            &&& s.mode == InputMode::StartCountdown ==> t == more
            &&& s.mode == InputMode::StopTask ==> t == if digit {
                more
            } else {
                s
            }
            &&& s.mode == InputMode::DeleteTask && digit ==> t == more
            &&& s.mode == InputMode::DeleteTask && !digit && !(c == 'a' || c == 'A') ==> t == s
            &&& s.mode == InputMode::DeleteTask && (c == 'a' || c == 'A') ==> t == if s.input.len()
                == 0 {
                AppView {
                    message: Some("✗ No active tasks to stop"@),
                    color: Color::Red,
                    ..s
                }
            } else {
                s
            }
            &&& s.mode == InputMode::SelectDay ==> t == if digit && encode_utf8(s.input).len() < 2 {
                more
            } else {
                s
            }
        }),
{
}

/// A countdown is entered as a name, a colon and minutes. It starts now under the name without the
/// white space around it, for so many minutes, unless a task of this name runs or the minutes are not
/// above nought; in any case the input is done.
pub proof fn law_countdowns_are_entered(
    s: AppView,
    now: Moment,
    offsets: Seq<i32>,
    nonce: Seq<u8>,
    name: Seq<char>,
    rest: Seq<char>,
)
    requires
        s.mode == InputMode::StartCountdown,
        s.input == name + ":"@ + rest,
        !name.contains(':'),
    ensures
        ({
            let t = app::after_key(s, Key::Enter, now, offsets, nonce).0;
            let trimmed = text::trimmed(name);
            let runs = exists|i: int|
                0 <= i < s.tracker.active.len() && (#[trigger] s.tracker.active[i]).activity
                    == trimmed;
            let done = AppView { mode: InputMode::Normal, input: Seq::empty(), ..s };
            match text::parsed(rest, true, i64::MIN as int, i64::MAX as int) {
                None => t == (AppView {
                    message: Some("Invalid minutes format"@),
                    color: Color::Red,
                    ..done
                }),
                Some(minutes) => if minutes <= 0 {
                    t == (AppView {
                        message: Some("Minutes must be positive"@),
                        color: Color::Red,
                        ..done
                    })
                } else if runs {
                    t == (AppView {
                        message: Some(
                            "Error: "@ + ("Task '"@ + trimmed + "' is already active"@),
                        ),
                        color: Color::Red,
                        ..done
                    })
                } else {
                    t == (AppView {
                        tracker: tracker::after_start(
                            s.tracker,
                            trimmed,
                            now,
                            Some((minutes * 60_000_000_000) as i128),
                        ),
                        unsaved: true,
                        message: Some(
                            "Started countdown: "@ + trimmed + " ("@ + (text::number(minutes)
                                + " min)"@),
                        ),
                        color: Color::Green,
                        ..done
                    })
                },
            }
        }),
{
    lemma_colon(s.input, name, rest);
}

/// A countdown that is entered without a colon is refused, and nothing is done about an empty input.
pub proof fn law_countdowns_need_a_colon(
    s: AppView,
    now: Moment,
    offsets: Seq<i32>,
    nonce: Seq<u8>,
)
    requires
        s.mode == InputMode::StartCountdown,
        !s.input.contains(':'),
    ensures
        app::after_key(s, Key::Enter, now, offsets, nonce).0 == if s.input.len() == 0 {
            AppView { mode: InputMode::Normal, ..s }
        } else {
            AppView {
                mode: InputMode::Normal,
                input: Seq::empty(),
                message: Some("Format: TaskName:Minutes (e.g., Study:25)"@),
                color: Color::Red,
                ..s
            }
        },
{
    if s.input.len() == 0 {
        assert(s.input =~= Seq::<char>::empty());
    }
}

/// The number that is entered stops, or deletes, the task with that number in the list, counted from
/// one. Another number, or what is none, is refused, and nothing is done about an empty input; in any
/// case the input is done.
pub proof fn law_numbers_choose_tasks(
    s: AppView,
    now: Moment,
    offsets: Seq<i32>,
    nonce: Seq<u8>,
    n: int,
)
    ensures
        ({
            let t = app::after_key(s, Key::Enter, now, offsets, nonce).0;
            let done = AppView { mode: InputMode::Normal, input: Seq::empty(), ..s };
            let typed = text::parsed(s.input, false, 0, usize::MAX as int);
            let count: int = if s.mode == InputMode::StopTask {
                s.tracker.active.len() as int
            } else {
                s.tracker.entries.len() as int
            };
            s.mode == InputMode::StopTask || s.mode == InputMode::DeleteTask ==> {
                &&& s.input.len() == 0 ==> t == done
                &&& s.input.len() > 0 && typed is None ==> t == (AppView {
                    message: Some("✗ Please enter a valid number"@),
                    color: Color::Red,
                    ..done
                })
                &&& s.input.len() > 0 && typed == Some(n) && !(1 <= n <= count) ==> t == (AppView {
                    message: Some("✗ Invalid task number (1-"@ + text::number(count) + ")"@),
                    color: Color::Red,
                    ..done
                })
                &&& s.input.len() > 0 && typed == Some(n) && 1 <= n <= count && s.mode
                    == InputMode::StopTask ==> t == (AppView {
                    tracker: tracker::after_stop(s.tracker, n - 1, now, offsets[n - 1]),
                    unsaved: true,
                    message: Some("✓ Stopped task: "@ + s.tracker.active[n - 1].activity),
                    color: Color::Green,
                    ..done
                })
                &&& s.input.len() > 0 && typed == Some(n) && 1 <= n <= count && s.mode
                    == InputMode::DeleteTask ==> t == (AppView {
                    tracker: tracker::after_delete(s.tracker, n - 1),
                    unsaved: true,
                    message: Some("✓ Deleted task: "@ + s.tracker.entries[n - 1].activity),
                    color: Color::Green,
                    ..done
                })
            }
        }),
{
}

/// A yes deletes all finished tasks and no other, Escape none; any other key leaves the question.
pub proof fn law_all_are_deleted_on_a_yes(
    s: AppView,
    now: Moment,
    offsets: Seq<i32>,
    nonce: Seq<u8>,
    key: Key,
)
    requires
        s.mode == InputMode::ConfirmDeleteAll,
    ensures
        ({
            let t = app::after_key(s, key, now, offsets, nonce).0;
            let n = s.tracker.entries.len();
            if key == Key::Char('y') || key == Key::Char('Y') {
                t == (AppView {
                    tracker: TrackerView { entries: Seq::empty(), active: s.tracker.active },
                    unsaved: true,
                    mode: InputMode::Normal,
                    message: Some(
                        "Deleted "@ + text::number(n as int) + " task"@ + if n == 1 {
                            ""@
                        } else {
                            "s"@
                        },
                    ),
                    color: Color::Green,
                    ..s
                })
            } else if key == Key::Esc {
                t == (AppView {
                    mode: InputMode::Normal,
                    message: Some("Cancelled"@),
                    color: Color::Yellow,
                    ..s
                })
            } else {
                t == s
            }
        }),
{
}

/// The day that is entered is shown if the month at which the calendar stands has it. Another day, or
/// what is no number, is refused, and nothing is done about an empty input; in any case the input is
/// done.
pub proof fn law_days_are_chosen(
    s: AppView,
    now: Moment,
    offsets: Seq<i32>,
    nonce: Seq<u8>,
    day: int,
)
    requires
        s.mode == InputMode::SelectDay,
        clock::is_date(s.calendar.year, s.calendar.month, s.calendar.day),
    ensures
        ({
            let t = app::after_key(s, Key::Enter, now, offsets, nonce).0;
            let done = AppView { mode: InputMode::Normal, input: Seq::empty(), ..s };
            let typed = text::parsed(s.input, false, 0, u32::MAX as int);
            let d = DateView { year: s.calendar.year, month: s.calendar.month, day };
            &&& s.input.len() == 0 ==> t == done
            &&& s.input.len() > 0 && typed is None ==> t == (AppView {
                message: Some("✗ Please enter a valid day number"@),
                color: Color::Red,
                ..done
            })
            &&& s.input.len() > 0 && typed == Some(day) && 1 <= day <= clock::days_in_month(
                s.calendar.year,
                s.calendar.month,
            ) ==> t == (AppView {
                day: Some(d),
                message: Some("Viewing tasks for "@ + clock::day_text(d)),
                color: Color::Cyan,
                ..done
            })
            &&& s.input.len() > 0 && typed == Some(day) && !(1 <= day <= clock::days_in_month(
                s.calendar.year,
                s.calendar.month,
            )) ==> t == (AppView {
                message: Some("✗ Invalid day for this month"@),
                color: Color::Red,
                ..done
            })
        }),
{
}

/// While a chat line is typed, characters are added to it and Backspace takes the last one off; Enter
/// carries out the line without the white space around it, unless nothing is left, and empties it;
/// Escape gives it up. Nothing but the chat changes.
pub proof fn law_chat_lines_are_typed(
    s: AppView,
    now: Moment,
    offsets: Seq<i32>,
    nonce: Seq<u8>,
    c: char,
)
    requires
        s.mode == InputMode::ChatTyping,
    ensures
        app::after_key(s, Key::Char(c), now, offsets, nonce) == (
            AppView { chat: ChatView { input: s.chat.input.push(c), ..s.chat }, ..s },
            RequestView::Nothing,
        ),
        app::after_key(s, Key::Backspace, now, offsets, nonce) == (
            AppView {
                chat: ChatView {
                    input: s.chat.input.take(
                        if s.chat.input.len() > 0 {
                            s.chat.input.len() - 1
                        } else {
                            0
                        },
                    ),
                    ..s.chat
                },
                ..s
            },
            RequestView::Nothing,
        ),
        app::after_key(s, Key::Esc, now, offsets, nonce) == (
            AppView {
                mode: InputMode::Normal,
                chat: ChatView { input: Seq::empty(), ..s.chat },
                ..s
            },
            RequestView::Nothing,
        ),
        ({
            let emptied = ChatView { input: Seq::empty(), ..s.chat };
            let line = text::trimmed(s.chat.input);
            let (t, request) = app::after_key(s, Key::Enter, now, offsets, nonce);
            if line.len() == 0 {
                t == (AppView { chat: emptied, ..s }) && request == RequestView::Nothing
            } else {
                t == (AppView { chat: command::after_command(emptied, line, nonce).0, ..s })
                    && request == command::after_command(emptied, line, nonce).1
            }
        }),
        app::after_key(s, Key::Left, now, offsets, nonce) == (s, RequestView::Nothing),
        app::after_key(s, Key::Right, now, offsets, nonce) == (s, RequestView::Nothing),
        app::after_key(s, Key::Up, now, offsets, nonce) == (s, RequestView::Nothing),
        app::after_key(s, Key::Down, now, offsets, nonce) == (s, RequestView::Nothing),
        app::after_key(s, Key::ScrollLock, now, offsets, nonce) == (s, RequestView::Nothing),
        app::after_key(s, Key::Other, now, offsets, nonce) == (s, RequestView::Nothing),
{
    if s.chat.input.len() > 0 {
        assert(s.chat.input.drop_last() =~= s.chat.input.take(s.chat.input.len() - 1));
    } else {
        assert(s.chat.input.take(0) =~= s.chat.input);
    }
}

/// Where exactly the program cannot take a key: on the main screen where X or A would stop a countdown
/// whose end cannot be found, on the calendar where the key is the one that it has no use for or leads
/// past its first or last year, and in the inputs of a countdown and of a task to stop where Enter would
/// start one that is too long, or stop one whose end cannot be found.
pub proof fn law_limits_of_keys(s: AppView, key: Key, months: int, n: int, name: Seq<char>, rest: Seq<char>)
    requires
        months == match key {
            Key::Left => -1int,
            Key::Right => 1int,
            Key::Up => -3int,
            Key::Down => 3int,
            _ => 0int,
        },
    ensures
        s.mode == InputMode::Normal && s.screen == Screen::Main ==> (app::accepts(s, key) <==> {
            &&& (key == Key::Char('x') || key == Key::Char('X')) && s.tracker.active.len() == 1
                ==> tracker::stoppable(s.tracker.active[0])
            &&& key == Key::Char('a') || key == Key::Char('A') ==> forall|i: int|
                0 <= i < s.tracker.active.len() ==> tracker::stoppable(
                    #[trigger] s.tracker.active[i],
                )
        }),
        s.mode == InputMode::Normal && s.screen == Screen::Calendar ==> (app::accepts(s, key) <==> key
            != Key::ScrollLock && -262_143 <= (s.calendar.year * 12 + s.calendar.month - 1 + months)
            / 12 <= 262_142),
        s.mode == InputMode::Normal && (s.screen == Screen::History || s.screen == Screen::Chat)
            ==> app::accepts(s, key),
        s.mode == InputMode::DeleteTask || s.mode == InputMode::ConfirmDeleteAll || s.mode
            == InputMode::SelectDay || s.mode == InputMode::ChatTyping ==> app::accepts(s, key),
        (s.mode == InputMode::StartCountdown || s.mode == InputMode::StopTask) && key != Key::Enter
            ==> app::accepts(s, key),
        s.mode == InputMode::StopTask && text::parsed(s.input, false, 0, usize::MAX as int) is None
            ==> app::accepts(s, key),
        s.mode == InputMode::StopTask && key == Key::Enter && text::parsed(
            s.input,
            false,
            0,
            usize::MAX as int,
        ) == Some(n) ==> (app::accepts(s, key) <==> (1 <= n <= s.tracker.active.len()
            ==> tracker::stoppable(s.tracker.active[n - 1]))),
        s.mode == InputMode::StartCountdown && !s.input.contains(':') ==> app::accepts(s, key),
        s.mode == InputMode::StartCountdown && key == Key::Enter && s.input == name + ":"@ + rest
            && !name.contains(':') ==> (app::accepts(s, key) <==> {
            ||| exists|i: int|
                0 <= i < s.tracker.active.len() && (#[trigger] s.tracker.active[i]).activity
                    == text::trimmed(name)
            ||| text::parsed(rest, true, i64::MIN as int, i64::MAX as int) is None
            ||| text::parsed(rest, true, i64::MIN as int, i64::MAX as int)->Some_0 * 60_000_000_000
                <= 9_223_372_036_854_775_807_000_000
        }),
{
    if s.input == name + ":"@ + rest && !name.contains(':') {
        lemma_colon(s.input, name, rest);
    }
}

proof fn lemma_colon(input: Seq<char>, name: Seq<char>, rest: Seq<char>)
    requires
        input == name + ":"@ + rest,
        !name.contains(':'),
    ensures
        input.contains(':'),
        text::find(input, ':') == name.len(),
        input.take(name.len() as int) == name,
        input.skip(name.len() as int + 1) == rest,
{
    reveal_strlit(":");
    assert(":"@ =~= seq![':']);
    let at = name.len() as int;
    assert(input[at] == ':');
    assert(input.contains(':'));
    text::lemma_find(input, ':');
    let f = text::find(input, ':');
    assert(f == at) by {
        if f < at {
            assert(name[f] == input[f]);
            assert(name.contains(':'));
        }
    }
    assert(input.take(at) =~= name);
    assert(input.skip(at + 1) =~= rest);
}

} // verus!
