//! Which key means what.

use crate::tui::app::Mode;
use vstd::prelude::*;

verus! {

/// What the user wants.
#[derive(Clone, Copy, Debug, PartialEq, Eq, Structural)]
pub enum Action {
    Quit,
    SelectNext,
    SelectPrev,
    ClearSelection,
    /// Show the selected or the nearest flight in full.
    OpenDetail,
    /// Back to the radar.
    CloseDetail,
    ScrollUp,
    ScrollDown,
    /// Nothing.
    Ignore,
}

/// The keys that may mean something.
#[derive(Clone, Copy, Debug, PartialEq, Eq, Structural)]
pub enum Key {
    Char(char),
    Down,
    Up,
    Enter,
    Esc,
    PageUp,
    PageDown,
    Other,
}

/// A key event of the terminal.
#[derive(Clone, Copy, Debug, PartialEq, Eq, Structural)]
pub struct KeyEvent {
    pub key: Key,
    /// With the control key held.
    pub control: bool,
    /// Pressed, and not released or repeated.
    pub pressed: bool,
}

/// What a pressed key means, by mode.
pub open spec fn meaning(key: Key, control: bool, mode: Mode) -> Action {
    match key {
        Key::Char(c) => if c == 'q' || c == 'Q' || ((c == 'c' || c == 'C') && control) {
            Action::Quit
        } else if c == 'j' {
            Action::SelectNext
        } else if c == 'k' {
            Action::SelectPrev
        } else {
            Action::Ignore
        },
        Key::Down => Action::SelectNext,
        Key::Up => Action::SelectPrev,
        Key::Enter => if mode == Mode::Radar {
            Action::OpenDetail
        } else {
            Action::Ignore
        },
        Key::Esc => match mode {
            Mode::Detail => Action::CloseDetail,
            Mode::Radar => Action::ClearSelection,
        },
        Key::PageUp => if mode == Mode::Detail {
            Action::ScrollUp
        } else {
            Action::Ignore
        },
        Key::PageDown => if mode == Mode::Detail {
            Action::ScrollDown
        } else {
            Action::Ignore
        },
        Key::Other => Action::Ignore,
    }
}

/// What the user wants, given the key event of one frame, if there was one.
pub fn next_action(event: Option<KeyEvent>, mode: Mode) -> (r: Action)
    ensures
        r == (match event {
            Some(e) => if e.pressed {
                meaning(e.key, e.control, mode)
            } else {
                Action::Ignore
            },
            None => Action::Ignore,
        }),
{
    let e = match event {
        Some(e) => e,
        None => return Action::Ignore,
    };
    if !e.pressed {
        return Action::Ignore;
    }
    match e.key {
        Key::Char(c) => if c == 'q' || c == 'Q' || ((c == 'c' || c == 'C') && e.control) {
            Action::Quit
        } else if c == 'j' {
            Action::SelectNext
        } else if c == 'k' {
            Action::SelectPrev
        } else {
            Action::Ignore
        },
        Key::Down => Action::SelectNext,
        Key::Up => Action::SelectPrev,
        Key::Enter => if mode == Mode::Radar {
            Action::OpenDetail
        } else {
            Action::Ignore
        },
        Key::Esc => match mode {
            Mode::Detail => Action::CloseDetail,
            Mode::Radar => Action::ClearSelection,
        },
        Key::PageUp => if mode == Mode::Detail {
            Action::ScrollUp
        } else {
            Action::Ignore
        },
        Key::PageDown => if mode == Mode::Detail {
            Action::ScrollDown
        } else {
            Action::Ignore
        },
        Key::Other => Action::Ignore,
    }
}

/// The letters and the arrows step alike, in either view; what quits does so everywhere.
pub proof fn law_letters_and_arrows_step_alike(control: bool, mode: Mode)
    ensures
        meaning(Key::Char('j'), control, mode) == Action::SelectNext,
        meaning(Key::Down, control, mode) == Action::SelectNext,
        meaning(Key::Char('k'), control, mode) == Action::SelectPrev,
        meaning(Key::Up, control, mode) == Action::SelectPrev,
        meaning(Key::Char('q'), control, mode) == Action::Quit,
        meaning(Key::Char('Q'), control, mode) == Action::Quit,
        meaning(Key::Char('c'), true, mode) == Action::Quit,
        meaning(Key::Char('c'), false, mode) == Action::Ignore,
{
}

/// A letter that is none of these means nothing, nor does any other key.
pub proof fn law_other_keys_mean_nothing(c: char, control: bool, mode: Mode)
    requires
        c != 'q' && c != 'Q' && c != 'j' && c != 'k' && c != 'c' && c != 'C',
    ensures
        meaning(Key::Char(c), control, mode) == Action::Ignore,
        meaning(Key::Other, control, mode) == Action::Ignore,
{
}

/// Enter opens the detail from the radar alone; Escape closes it, and on the radar clears the
/// selection; the page keys scroll the detail alone.
pub proof fn law_view_decides_what_keys_do(control: bool)
    ensures
        meaning(Key::Enter, control, Mode::Radar) == Action::OpenDetail,
        meaning(Key::Enter, control, Mode::Detail) == Action::Ignore,
        meaning(Key::Esc, control, Mode::Detail) == Action::CloseDetail,
        meaning(Key::Esc, control, Mode::Radar) == Action::ClearSelection,
        meaning(Key::PageUp, control, Mode::Detail) == Action::ScrollUp,
        meaning(Key::PageDown, control, Mode::Detail) == Action::ScrollDown,
        meaning(Key::PageUp, control, Mode::Radar) == Action::Ignore,
        meaning(Key::PageDown, control, Mode::Radar) == Action::Ignore,
{
}

} // verus!
