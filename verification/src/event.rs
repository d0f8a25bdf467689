//! Modes of the screen, user actions, and the key table that maps key presses
//! to actions.
use vstd::prelude::*;

use crate::text::{is_control, is_control_spec};

verus! {

/// What the screen shows on top of the tables.
#[derive(Debug, Clone, Copy, PartialEq, Eq, Structural)]
pub enum Mode {
    Normal,
    AddingRepo,
    ConfirmDelete,
    ErrorPopup,
}

/// What the user asked for.
#[derive(Debug, Clone, Copy, PartialEq, Eq, Structural)]
pub enum Action {
    Quit,
    MoveUp,
    MoveDown,
    OpenAdd,
    OpenDeleteConfirm,
    ClosePopup,
    InputChar(char),
    Backspace,
    SubmitAdd,
    ConfirmDelete,
    RefreshOverview,
}

/// The keys that the key table tells apart.
#[derive(Debug, Clone, Copy, PartialEq, Eq, Structural)]
pub enum Key {
    Char(char),
    Up,
    Down,
    Esc,
    Enter,
    Backspace,
    Other,
}

/// A key event of the terminal: the key, whether Control was held, and
/// whether the key went down (rather than repeating or going up).
#[derive(Debug, Clone, Copy, PartialEq, Eq, Structural)]
pub struct KeyInput {
    pub key: Key,
    pub ctrl: bool,
    pub press: bool,
}

/// The key table: the action for a key event in a mode, if any.
pub open spec fn action_spec(mode: Mode, k: KeyInput) -> Option<Action> {
    if !k.press {
        None
    } else if k.key == Key::Char('c') && k.ctrl {
        Some(Action::Quit)
    } else {
        match mode {
            Mode::Normal => match k.key {
                Key::Char('q') => Some(Action::Quit),
                Key::Up | Key::Char('k') => Some(Action::MoveUp),
                Key::Down | Key::Char('j') => Some(Action::MoveDown),
                Key::Char('a') => Some(Action::OpenAdd),
                Key::Char('d') => Some(Action::OpenDeleteConfirm),
                Key::Char('r') => Some(Action::RefreshOverview),
                _ => None,
            },
            Mode::AddingRepo => match k.key {
                Key::Esc => Some(Action::ClosePopup),
                Key::Enter => Some(Action::SubmitAdd),
                Key::Backspace => Some(Action::Backspace),
                Key::Char(c) => if is_control_spec(c) {
                    None
                } else {
                    Some(Action::InputChar(c))
                },
                _ => None,
            },
            Mode::ConfirmDelete => match k.key {
                Key::Char('y') | Key::Char('Y') => Some(Action::ConfirmDelete),
                Key::Char('n') | Key::Char('N') | Key::Esc => Some(Action::ClosePopup),
                _ => None,
            },
            Mode::ErrorPopup => match k.key {
                Key::Enter | Key::Esc => Some(Action::ClosePopup),
                _ => None,
            },
        }
    }
}

/// The action for a key event in `mode`, if any.
///
/// Control-C quits in every mode; only key presses act.
pub fn action_for_key(mode: Mode, k: KeyInput) -> (a: Option<Action>)
    ensures
        a == action_spec(mode, k),
        k.press && k.ctrl && k.key == Key::Char('c') ==> a == Some(Action::Quit),
        !k.press ==> a is None,
{
    if !k.press {
        return None;
    }
    if k.key == Key::Char('c') && k.ctrl {
        return Some(Action::Quit);
    }
    match mode {
        Mode::Normal => match k.key {
            Key::Char('q') => Some(Action::Quit),
            Key::Up | Key::Char('k') => Some(Action::MoveUp),
            Key::Down | Key::Char('j') => Some(Action::MoveDown),
            Key::Char('a') => Some(Action::OpenAdd),
            Key::Char('d') => Some(Action::OpenDeleteConfirm),
            Key::Char('r') => Some(Action::RefreshOverview),
            _ => None,
        },
        Mode::AddingRepo => match k.key {
            Key::Esc => Some(Action::ClosePopup),
            Key::Enter => Some(Action::SubmitAdd),
            Key::Backspace => Some(Action::Backspace),
            Key::Char(c) => {
                if is_control(c) {
                    None
                } else {
                    Some(Action::InputChar(c))
                }
            },
            _ => None,
        },
        Mode::ConfirmDelete => match k.key {
            Key::Char('y') | Key::Char('Y') => Some(Action::ConfirmDelete),
            Key::Char('n') | Key::Char('N') | Key::Esc => Some(Action::ClosePopup),
            _ => None,
        },
        Mode::ErrorPopup => match k.key {
            Key::Enter | Key::Esc => Some(Action::ClosePopup),
            _ => None,
        },
    }
}

/// Text typed while adding a repository never holds control characters:
/// the key table turns only non-control characters into typed input.
pub proof fn lemma_typed_chars_printable(mode: Mode, k: KeyInput, c: char)
    requires
        action_spec(mode, k) == Some(Action::InputChar(c)),
    ensures
        !is_control_spec(c),
        mode == Mode::AddingRepo,
{
}

/// What each key does, over every mode and key event: only a key press acts;
/// Control-C, and `q` on the tables, quit; Up/`k` and Down/`j` move the
/// selection, on the tables only; Enter submits only in the add popup;
/// deleting is confirmed only by `y` or `Y` in the confirmation popup; Esc
/// closes every popup.
pub proof fn lemma_key_roles(mode: Mode, k: KeyInput)
    ensures
        (action_spec(mode, k) == Some(Action::Quit)) == (k.press && ((k.key == Key::Char('c')
            && k.ctrl) || (mode == Mode::Normal && k.key == Key::Char('q')))),
        (action_spec(mode, k) == Some(Action::MoveUp)) == (k.press && mode == Mode::Normal && (
        k.key == Key::Up || k.key == Key::Char('k'))),
        (action_spec(mode, k) == Some(Action::MoveDown)) == (k.press && mode == Mode::Normal && (
        k.key == Key::Down || k.key == Key::Char('j'))),
        (action_spec(mode, k) == Some(Action::SubmitAdd)) == (k.press && mode == Mode::AddingRepo
            && k.key == Key::Enter),
        (action_spec(mode, k) == Some(Action::ConfirmDelete)) == (k.press && mode
            == Mode::ConfirmDelete && (k.key == Key::Char('y') || k.key == Key::Char('Y'))),
        (action_spec(mode, k) == Some(Action::OpenAdd)) == (k.press && mode == Mode::Normal
            && k.key == Key::Char('a')),
        (action_spec(mode, k) == Some(Action::OpenDeleteConfirm)) == (k.press && mode
            == Mode::Normal && k.key == Key::Char('d')),
        (action_spec(mode, k) == Some(Action::RefreshOverview)) == (k.press && mode
            == Mode::Normal && k.key == Key::Char('r')),
        k.press && mode != Mode::Normal && k.key == Key::Esc ==> action_spec(mode, k) == Some(
            Action::ClosePopup,
        ),
        action_spec(mode, k) == Some(Action::ClosePopup) ==> mode != Mode::Normal,
{
}

} // verus!
