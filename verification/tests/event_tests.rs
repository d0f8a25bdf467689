use gh_pr_tui::event::{action_for_key, Action, Key, KeyInput, Mode};

fn press(key: Key) -> KeyInput {
    KeyInput { key, ctrl: false, press: true }
}

const MODES: [Mode; 4] = [Mode::Normal, Mode::AddingRepo, Mode::ConfirmDelete, Mode::ErrorPopup];

#[test]
fn ctrl_c_quits_everywhere() {
    for m in MODES {
        let k = KeyInput { key: Key::Char('c'), ctrl: true, press: true };
        assert_eq!(action_for_key(m, k), Some(Action::Quit));
    }
}

#[test]
fn releases_do_nothing() {
    for m in MODES {
        let k = KeyInput { key: Key::Char('c'), ctrl: true, press: false };
        assert_eq!(action_for_key(m, k), None);
        let k = KeyInput { key: Key::Enter, ctrl: false, press: false };
        assert_eq!(action_for_key(m, k), None);
    }
}

#[test]
fn normal_mode_keys() {
    let m = Mode::Normal;
    assert_eq!(action_for_key(m, press(Key::Char('q'))), Some(Action::Quit));
    assert_eq!(action_for_key(m, press(Key::Up)), Some(Action::MoveUp));
    assert_eq!(action_for_key(m, press(Key::Char('k'))), Some(Action::MoveUp));
    assert_eq!(action_for_key(m, press(Key::Down)), Some(Action::MoveDown));
    assert_eq!(action_for_key(m, press(Key::Char('j'))), Some(Action::MoveDown));
    assert_eq!(action_for_key(m, press(Key::Char('a'))), Some(Action::OpenAdd));
    assert_eq!(action_for_key(m, press(Key::Char('d'))), Some(Action::OpenDeleteConfirm));
    assert_eq!(action_for_key(m, press(Key::Char('r'))), Some(Action::RefreshOverview));
    assert_eq!(action_for_key(m, press(Key::Char('c'))), None);
    assert_eq!(action_for_key(m, press(Key::Enter)), None);
    assert_eq!(action_for_key(m, press(Key::Other)), None);
}

#[test]
fn adding_mode_keys() {
    let m = Mode::AddingRepo;
    assert_eq!(action_for_key(m, press(Key::Esc)), Some(Action::ClosePopup));
    assert_eq!(action_for_key(m, press(Key::Enter)), Some(Action::SubmitAdd));
    assert_eq!(action_for_key(m, press(Key::Backspace)), Some(Action::Backspace));
    assert_eq!(action_for_key(m, press(Key::Char('q'))), Some(Action::InputChar('q')));
    assert_eq!(action_for_key(m, press(Key::Char('/'))), Some(Action::InputChar('/')));
    assert_eq!(action_for_key(m, press(Key::Char('é'))), Some(Action::InputChar('é')));
    assert_eq!(action_for_key(m, press(Key::Char('\u{7}'))), None);
    assert_eq!(action_for_key(m, press(Key::Char('\u{85}'))), None);
    assert_eq!(action_for_key(m, press(Key::Up)), None);
}

#[test]
fn adding_mode_ctrl_letter_types_it() {
    let k = KeyInput { key: Key::Char('x'), ctrl: true, press: true };
    assert_eq!(action_for_key(Mode::AddingRepo, k), Some(Action::InputChar('x')));
}

#[test]
fn confirm_mode_keys() {
    let m = Mode::ConfirmDelete;
    assert_eq!(action_for_key(m, press(Key::Char('y'))), Some(Action::ConfirmDelete));
    assert_eq!(action_for_key(m, press(Key::Char('Y'))), Some(Action::ConfirmDelete));
    assert_eq!(action_for_key(m, press(Key::Char('n'))), Some(Action::ClosePopup));
    assert_eq!(action_for_key(m, press(Key::Char('N'))), Some(Action::ClosePopup));
    assert_eq!(action_for_key(m, press(Key::Esc)), Some(Action::ClosePopup));
    assert_eq!(action_for_key(m, press(Key::Enter)), None);
}

#[test]
fn error_mode_keys() {
    let m = Mode::ErrorPopup;
    assert_eq!(action_for_key(m, press(Key::Enter)), Some(Action::ClosePopup));
    assert_eq!(action_for_key(m, press(Key::Esc)), Some(Action::ClosePopup));
    assert_eq!(action_for_key(m, press(Key::Char('q'))), None);
}
