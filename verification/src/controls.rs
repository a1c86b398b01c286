//! What the bottom lines of the screens offer: the input they ask for and the keys that do something.

use crate::app::InputMode;
use crate::chat::Color;
use vstd::prelude::*;

verus! {

/// A key and what it does, as the bottom line tells it.
pub struct Hint {
    pub key: &'static str,
    pub color: Color,
    pub label: &'static str,
}

/// What a hint says.
#[verifier::ext_equal]
pub struct HintView {
    pub key: Seq<char>,
    pub color: Color,
    pub label: Seq<char>,
}

impl View for Hint {
    type V = HintView;

    open spec fn view(&self) -> HintView {
        HintView { key: self.key@, color: self.color, label: self.label@ }
    }
}

/// The view of a row of hints.
pub open spec fn hints_view(hints: Seq<Hint>) -> Seq<HintView> {
    Seq::new(hints.len(), |i: int| hints[i]@)
}

/// A hint of a key.
pub open spec fn hint(key: Seq<char>, color: Color, label: Seq<char>) -> HintView {
    HintView { key, color, label }
}

/// A hint of a key.
fn new_hint(key: &'static str, color: Color, label: &'static str) -> (r: Hint)
    ensures
        r@ == hint(key@, color, label@),
{
    Hint { key, color, label }
}

/// What the bottom lines ask for, if they ask, and the keys they offer.
pub struct Controls {
    pub prompt: Option<&'static str>,
    pub hints: Vec<Hint>,
}

/// What the bottom lines say.
#[verifier::ext_equal]
pub struct ControlsView {
    pub prompt: Option<Seq<char>>,
    pub hints: Seq<HintView>,
}

impl View for Controls {
    type V = ControlsView;

    open spec fn view(&self) -> ControlsView {
        ControlsView {
            prompt: match self.prompt {
                Some(p) => Some(p@),
                None => None,
            },
            hints: hints_view(self.hints@),
        }
    }
}

/// The bottom lines of an input: what it asks for, and how to confirm and to give up.
pub open spec fn prompt_controls(prompt: Seq<char>, confirm: Seq<char>, cancel: Seq<char>) -> ControlsView {
    ControlsView {
        prompt: Some(prompt),
        hints: seq![
            hint("Enter"@, Color::Green, confirm),
            hint("Esc"@, Color::Red, cancel),
        ],
    }
}

/// The bottom line when asked whether to delete all.
pub open spec fn confirm_controls() -> ControlsView {
    ControlsView {
        prompt: None,
        hints: seq![
            hint("Y"@, Color::Green, " Confirm Delete All  "@),
            hint("Esc"@, Color::Red, " Cancel  "@),
        ],
    }
}

/// The bottom lines of the main screen.
pub open spec fn main_controls_view(mode: InputMode) -> ControlsView {
    match mode {
        InputMode::Normal => ControlsView {
            prompt: None,
            hints: seq![
                hint("X"@, Color::Red, " Stop  "@),
                hint("T"@, Color::Magenta, " Countdown  "@),
                hint("A"@, Color::Red, " Stop All  "@),
                hint("C"@, Color::Cyan, " Calendar  "@),
                hint("H"@, Color::Yellow, " History  "@),
                hint("M"@, Color::Blue, " Chat  "@),
                hint("Q"@, Color::Gray, " Quit "@),
            ],
        },
        InputMode::StartCountdown => prompt_controls(
            "Task:Minutes (e.g., Study:25): "@,
            " to start "@,
            " to cancel "@,
        ),
        InputMode::StopTask => prompt_controls(
            "Task number to stop: "@,
            " to confirm "@,
            " to cancel"@,
        ),
        InputMode::DeleteTask | InputMode::SelectDay => ControlsView {
            prompt: None,
            hints: seq![
                hint("S"@, Color::Green, " Start Task  "@),
                hint("X"@, Color::Red, " Stop Task  "@),
                hint("A"@, Color::Red, " Stop All  "@),
                hint("H"@, Color::Yellow, " History  "@),
                hint("Q"@, Color::Gray, " Quit "@),
            ],
        },
        InputMode::ConfirmDeleteAll => confirm_controls(),
        InputMode::ChatTyping => ControlsView {
            prompt: None,
            hints: seq![
                hint("I"@, Color::Blue, " type  "@),
                hint("Enter"@, Color::Green, " send  "@),
                hint("Esc"@, Color::Red, " back "@),
            ],
        },
    }
}

/// The bottom lines of the history.
pub open spec fn history_controls_view(mode: InputMode) -> ControlsView {
    match mode {
        InputMode::DeleteTask => prompt_controls(
            "Task number to delete: "@,
            " to confirm  "@,
            " to cancel"@,
        ),
        InputMode::ConfirmDeleteAll => confirm_controls(),
        _ => ControlsView {
            prompt: None,
            hints: seq![
                hint("↑↓"@, Color::Yellow, " Navigate  "@),
                hint("Esc"@, Color::Red, " Back to Main  "@),
                hint("X"@, Color::Red, " Delete Entry "@),
                hint("A"@, Color::Red, " Delete All"@),
            ],
        },
    }
}

/// The bottom lines of the calendar.
pub open spec fn calendar_controls_view(mode: InputMode) -> ControlsView {
    match mode {
        InputMode::SelectDay => prompt_controls(
            "Enter day (1-31): "@,
            " to confirm  "@,
            " to cancel"@,
        ),
        _ => ControlsView {
            prompt: None,
            hints: seq![
                hint("Arrow Keys"@, Color::Yellow, " Navigate Months "@),
                hint("D"@, Color::Cyan, " Select Day  "@),
                hint("Esc"@, Color::Red, " Back to Main"@),
            ],
        },
    }
}

/// The bottom lines of the chat, but for the words behind the keys.
pub open spec fn chat_controls_view(mode: InputMode) -> ControlsView {
    match mode {
        InputMode::ChatTyping => ControlsView {
            prompt: None,
            hints: seq![
                hint("Enter"@, Color::Green, " Send  "@),
                hint("Esc"@, Color::Red, " Cancel  "@),
            ],
        },
        _ => ControlsView {
            prompt: None,
            hints: seq![
                hint("I"@, Color::Blue, " Type  "@),
                hint("Esc/Q"@, Color::Red, " Back to Main  "@),
            ],
        },
    }
}

/// Bottom lines that ask for nothing.
fn plain_controls(hints: Vec<Hint>) -> (r: Controls)
    ensures
        r@ == (ControlsView { prompt: None, hints: hints_view(hints@) }),
{
    Controls { prompt: None, hints }
}

/// Bottom lines of an input.
fn asking_controls(prompt: &'static str, confirm: &'static str, cancel: &'static str) -> (r: Controls)
    ensures
        r@ == prompt_controls(prompt@, confirm@, cancel@),
{
    let hints: Vec<Hint> = vec![
        new_hint("Enter", Color::Green, confirm),
        new_hint("Esc", Color::Red, cancel),
    ];
    let r: Controls = Controls { prompt: Some(prompt), hints };
    assert(r@ =~= prompt_controls(prompt@, confirm@, cancel@));
    r
}

/// The bottom line when asked whether to delete all.
fn confirming_controls() -> (r: Controls)
    ensures
        r@ == confirm_controls(),
{
    let r: Controls = plain_controls(
        vec![
            new_hint("Y", Color::Green, " Confirm Delete All  "),
            new_hint("Esc", Color::Red, " Cancel  "),
        ],
    );
    assert(r@ =~= confirm_controls());
    r
}

/// The bottom lines of the main screen.
pub fn main_controls(mode: InputMode) -> (r: Controls)
    ensures
        r@ == main_controls_view(mode),
{
    let r: Controls = match mode {
        InputMode::Normal => plain_controls(
            vec![
                new_hint("X", Color::Red, " Stop  "),
                new_hint("T", Color::Magenta, " Countdown  "),
                new_hint("A", Color::Red, " Stop All  "),
                new_hint("C", Color::Cyan, " Calendar  "),
                new_hint("H", Color::Yellow, " History  "),
                new_hint("M", Color::Blue, " Chat  "),
                new_hint("Q", Color::Gray, " Quit "),
            ],
        ),
        InputMode::StartCountdown => asking_controls(
            "Task:Minutes (e.g., Study:25): ",
            " to start ",
            " to cancel ",
        ),
        InputMode::StopTask => asking_controls(
            "Task number to stop: ",
            " to confirm ",
            " to cancel",
        ),
        InputMode::DeleteTask | InputMode::SelectDay => plain_controls(
            vec![
                new_hint("S", Color::Green, " Start Task  "),
                new_hint("X", Color::Red, " Stop Task  "),
                new_hint("A", Color::Red, " Stop All  "),
                new_hint("H", Color::Yellow, " History  "),
                new_hint("Q", Color::Gray, " Quit "),
            ],
        ),
        InputMode::ConfirmDeleteAll => confirming_controls(),
        InputMode::ChatTyping => plain_controls(
            vec![
                new_hint("I", Color::Blue, " type  "),
                new_hint("Enter", Color::Green, " send  "),
                new_hint("Esc", Color::Red, " back "),
            ],
        ),
    };
    assert(r@ =~= main_controls_view(mode));
    r
}

/// The bottom lines of the history.
pub fn history_controls(mode: InputMode) -> (r: Controls)
    ensures
        r@ == history_controls_view(mode),
{
    let r: Controls = match mode {
        InputMode::DeleteTask => asking_controls(
            "Task number to delete: ",
            " to confirm  ",
            " to cancel",
        ),
        InputMode::ConfirmDeleteAll => confirming_controls(),
        _ => plain_controls(
            vec![
                new_hint("↑↓", Color::Yellow, " Navigate  "),
                new_hint("Esc", Color::Red, " Back to Main  "),
                new_hint("X", Color::Red, " Delete Entry "),
                new_hint("A", Color::Red, " Delete All"),
            ],
        ),
    };
    assert(r@ =~= history_controls_view(mode));
    r
}

/// The bottom lines of the calendar.
pub fn calendar_controls(mode: InputMode) -> (r: Controls)
    ensures
        r@ == calendar_controls_view(mode),
{
    let r: Controls = match mode {
        InputMode::SelectDay => asking_controls(
            "Enter day (1-31): ",
            " to confirm  ",
            " to cancel",
        ),
        _ => plain_controls(
            vec![
                new_hint("Arrow Keys", Color::Yellow, " Navigate Months "),
                new_hint("D", Color::Cyan, " Select Day  "),
                new_hint("Esc", Color::Red, " Back to Main"),
            ],
        ),
    };
    assert(r@ =~= calendar_controls_view(mode));
    r
}

/// The bottom lines of the chat, but for the words behind the keys.
pub fn chat_controls(mode: InputMode) -> (r: Controls)
    ensures
        r@ == chat_controls_view(mode),
{
    let r: Controls = match mode {
        InputMode::ChatTyping => plain_controls(
            vec![
                new_hint("Enter", Color::Green, " Send  "),
                new_hint("Esc", Color::Red, " Cancel  "),
            ],
        ),
        _ => plain_controls(
            vec![
                new_hint("I", Color::Blue, " Type  "),
                new_hint("Esc/Q", Color::Red, " Back to Main  "),
            ],
        ),
    };
    assert(r@ =~= chat_controls_view(mode));
    r
}

/// Whether a key, in a colour, is offered under a label at some place.
pub open spec fn offers(c: ControlsView, at: int, key: Seq<char>, color: Color, label: Seq<char>) -> bool {
    0 <= at < c.hints.len() && c.hints[at] == (HintView { key, color, label })
}

/// The main screen offers each of its keys for what it does, an input to enter and to give it up, and
/// the question whether to delete all a yes and a no.
pub proof fn law_main_screen_offers_its_keys()
    ensures
        ({
            let c = main_controls_view(InputMode::Normal);
            &&& c.prompt is None && c.hints.len() == 7
            &&& offers(c, 0, "X"@, Color::Red, " Stop  "@)
            &&& offers(c, 1, "T"@, Color::Magenta, " Countdown  "@)
            &&& offers(c, 2, "A"@, Color::Red, " Stop All  "@)
            &&& offers(c, 3, "C"@, Color::Cyan, " Calendar  "@)
            &&& offers(c, 4, "H"@, Color::Yellow, " History  "@)
            &&& offers(c, 5, "M"@, Color::Blue, " Chat  "@)
            &&& offers(c, 6, "Q"@, Color::Gray, " Quit "@)
        }),
        ({
            let c = main_controls_view(InputMode::StartCountdown);
            &&& c.prompt == Some("Task:Minutes (e.g., Study:25): "@) && c.hints.len() == 2
            &&& offers(c, 0, "Enter"@, Color::Green, " to start "@)
            &&& offers(c, 1, "Esc"@, Color::Red, " to cancel "@)
        }),
        ({
            let c = main_controls_view(InputMode::StopTask);
            &&& c.prompt == Some("Task number to stop: "@) && c.hints.len() == 2
            &&& offers(c, 0, "Enter"@, Color::Green, " to confirm "@)
            &&& offers(c, 1, "Esc"@, Color::Red, " to cancel"@)
        }),
        ({
            let c = main_controls_view(InputMode::ConfirmDeleteAll);
            &&& c == history_controls_view(InputMode::ConfirmDeleteAll)
            &&& c.prompt is None && c.hints.len() == 2
            &&& offers(c, 0, "Y"@, Color::Green, " Confirm Delete All  "@)
            &&& offers(c, 1, "Esc"@, Color::Red, " Cancel  "@)
        }),
        ({
            let c = main_controls_view(InputMode::DeleteTask);
            &&& c == main_controls_view(InputMode::SelectDay)
            &&& c.prompt is None && c.hints.len() == 5
            &&& offers(c, 0, "S"@, Color::Green, " Start Task  "@)
            &&& offers(c, 1, "X"@, Color::Red, " Stop Task  "@)
            &&& offers(c, 2, "A"@, Color::Red, " Stop All  "@)
            &&& offers(c, 3, "H"@, Color::Yellow, " History  "@)
            &&& offers(c, 4, "Q"@, Color::Gray, " Quit "@)
        }),
        ({
            let c = main_controls_view(InputMode::ChatTyping);
            &&& c.prompt is None && c.hints.len() == 3
            &&& offers(c, 0, "I"@, Color::Blue, " type  "@)
            &&& offers(c, 1, "Enter"@, Color::Green, " send  "@)
            &&& offers(c, 2, "Esc"@, Color::Red, " back "@)
        }),
{
}

/// The other screens offer their keys, and their inputs to enter and to give them up.
pub proof fn law_other_screens_offer_their_keys(mode: InputMode)
    ensures
        ({
            let c = history_controls_view(mode);
            &&& mode == InputMode::DeleteTask ==> {
                &&& c.prompt == Some("Task number to delete: "@) && c.hints.len() == 2
                &&& offers(c, 0, "Enter"@, Color::Green, " to confirm  "@)
                &&& offers(c, 1, "Esc"@, Color::Red, " to cancel"@)
            }
            &&& mode != InputMode::DeleteTask && mode != InputMode::ConfirmDeleteAll ==> {
                &&& c.prompt is None && c.hints.len() == 4
                &&& offers(c, 0, "↑↓"@, Color::Yellow, " Navigate  "@)
                &&& offers(c, 1, "Esc"@, Color::Red, " Back to Main  "@)
                &&& offers(c, 2, "X"@, Color::Red, " Delete Entry "@)
                &&& offers(c, 3, "A"@, Color::Red, " Delete All"@)
            }
        }),
        ({
            let c = calendar_controls_view(mode);
            &&& mode == InputMode::SelectDay ==> {
                &&& c.prompt == Some("Enter day (1-31): "@) && c.hints.len() == 2
                &&& offers(c, 0, "Enter"@, Color::Green, " to confirm  "@)
                &&& offers(c, 1, "Esc"@, Color::Red, " to cancel"@)
            }
            &&& mode != InputMode::SelectDay ==> {
                &&& c.prompt is None && c.hints.len() == 3
                &&& offers(c, 0, "Arrow Keys"@, Color::Yellow, " Navigate Months "@)
                &&& offers(c, 1, "D"@, Color::Cyan, " Select Day  "@)
                &&& offers(c, 2, "Esc"@, Color::Red, " Back to Main"@)
            }
        }),
        ({
            let c = chat_controls_view(mode);
            &&& c.prompt is None && c.hints.len() == 2
            &&& mode == InputMode::ChatTyping ==> offers(c, 0, "Enter"@, Color::Green, " Send  "@)
                && offers(c, 1, "Esc"@, Color::Red, " Cancel  "@)
            &&& mode != InputMode::ChatTyping ==> offers(c, 0, "I"@, Color::Blue, " Type  "@)
                && offers(c, 1, "Esc/Q"@, Color::Red, " Back to Main  "@)
        }),
{
}

} // verus!
