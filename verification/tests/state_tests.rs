use gh_pr_tui::config::AppConfig;
use gh_pr_tui::event::{Action, Mode};
use gh_pr_tui::github::{PrOverviewRow, ReviewStatus};
use gh_pr_tui::state::{App, Effect};

fn app(repos: &[&str]) -> App {
    App::new(AppConfig { repos: repos.iter().map(|s| s.to_string()).collect() })
}

fn row(n: u64) -> PrOverviewRow {
    PrOverviewRow {
        repo: "o/r".to_string(),
        number: n,
        title: String::new(),
        url: String::new(),
        status: ReviewStatus::Unknown,
        author: "a".to_string(),
        requested_reviewers: vec![],
        latest_reviews: vec![],
    }
}

#[test]
fn new_selects_first_repo() {
    let a = app(&["x", "y"]);
    assert_eq!(a.mode, Mode::Normal);
    assert_eq!(a.selected_idx(), Some(0));
    assert_eq!(a.pr_selected, None);
    assert!(a.input.is_empty() && a.message.is_empty() && a.pr_rows.is_empty());
    assert_eq!(app(&[]).selected_idx(), None);
}

#[test]
fn moving_stays_in_bounds() {
    let mut a = app(&["x", "y", "z"]);
    a.move_up();
    assert_eq!(a.selected, Some(0));
    a.move_down();
    a.move_down();
    a.move_down();
    assert_eq!(a.selected, Some(2));
    a.move_up();
    assert_eq!(a.selected, Some(1));
}

#[test]
fn moving_down_from_nothing_selects_first() {
    let mut a = app(&["x"]);
    a.selected = None;
    a.move_down();
    assert_eq!(a.selected, Some(0));
    let mut e = app(&[]);
    e.move_down();
    assert_eq!(e.selected, None);
    e.move_up();
    assert_eq!(e.selected, None);
}

#[test]
fn moving_clamps_a_stale_selection() {
    let mut a = app(&["x", "y"]);
    a.selected = Some(9);
    a.move_up();
    assert_eq!(a.selected, Some(1));
    a.selected = Some(usize::MAX);
    a.move_down();
    assert_eq!(a.selected, Some(1));
}

#[test]
fn add_popup_flow() {
    let mut a = app(&[]);
    assert_eq!(a.handle_action(Action::OpenAdd), Effect::Nothing);
    assert_eq!(a.mode, Mode::AddingRepo);
    for c in "octo/hellox".chars() {
        assert_eq!(a.handle_action(Action::InputChar(c)), Effect::Nothing);
    }
    assert_eq!(a.handle_action(Action::Backspace), Effect::Nothing);
    assert_eq!(a.input, "octo/hello");
    assert_eq!(a.handle_action(Action::SubmitAdd), Effect::SaveAdded);
    assert_eq!(a.cfg.repos, vec!["https://github.com/octo/hello"]);
    assert_eq!(a.mode, Mode::AddingRepo);
    a.finish_add();
    assert_eq!(a.mode, Mode::Normal);
    assert_eq!(a.selected, Some(0));
    assert!(a.input.is_empty());
}

#[test]
fn added_repo_is_selected_at_its_sorted_place() {
    let mut a = app(&["https://github.com/a/a", "https://github.com/c/c"]);
    a.open_add();
    a.input = "b/b".to_string();
    assert!(a.try_add_repo());
    a.finish_add();
    assert_eq!(a.selected, Some(1));
    assert_eq!(a.cfg.repos[1], "https://github.com/b/b");
}

#[test]
fn repeated_add_shows_error() {
    let mut a = app(&["https://github.com/a/a"]);
    a.open_add();
    a.input = "a/a".to_string();
    assert_eq!(a.handle_action(Action::SubmitAdd), Effect::Refresh);
    assert_eq!(a.mode, Mode::ErrorPopup);
    assert_eq!(a.message, "Repo already exists in config");
    assert_eq!(a.cfg.repos.len(), 1);
}

#[test]
fn refused_add_shows_reason() {
    let mut a = app(&[]);
    a.open_add();
    assert!(!a.try_add_repo());
    assert_eq!(a.mode, Mode::ErrorPopup);
    assert_eq!(a.message, "Empty repo URL");
}

#[test]
fn backspace_on_empty_input() {
    let mut a = app(&[]);
    a.open_add();
    assert_eq!(a.handle_action(Action::Backspace), Effect::Nothing);
    assert!(a.input.is_empty());
}

#[test]
fn delete_flow() {
    let mut a = app(&["a", "b", "c"]);
    a.move_down();
    a.move_down();
    assert_eq!(a.handle_action(Action::OpenDeleteConfirm), Effect::Nothing);
    assert_eq!(a.mode, Mode::ConfirmDelete);
    assert_eq!(a.message, "Delete selected repo? (y/n)");
    assert_eq!(a.handle_action(Action::ConfirmDelete), Effect::SaveDeleted);
    assert_eq!(a.cfg.repos, vec!["a", "b"]);
    a.finish_delete();
    assert_eq!(a.selected, Some(1));
    assert_eq!(a.mode, Mode::Normal);
    assert!(a.message.is_empty());
}

#[test]
fn deleting_the_last_repo_clears_selection() {
    let mut a = app(&["a"]);
    assert!(a.delete_selected());
    a.finish_delete();
    assert_eq!(a.selected, None);
}

#[test]
fn delete_without_selection_closes_popup() {
    let mut a = app(&[]);
    a.mode = Mode::ConfirmDelete;
    a.input = "x".to_string();
    assert_eq!(a.handle_action(Action::ConfirmDelete), Effect::Refresh);
    assert_eq!(a.mode, Mode::Normal);
    assert!(a.input.is_empty());
}

#[test]
fn delete_with_stale_selection_shows_error() {
    let mut a = app(&["a"]);
    a.selected = Some(3);
    assert!(!a.delete_selected());
    assert_eq!(a.mode, Mode::ErrorPopup);
    assert_eq!(a.message, "Nothing to delete");
    assert_eq!(a.cfg.repos, vec!["a"]);
}

#[test]
fn open_delete_needs_selection() {
    let mut a = app(&[]);
    a.open_delete_confirm();
    assert_eq!(a.mode, Mode::Normal);
    assert!(a.message.is_empty());
}

#[test]
fn close_popup_clears() {
    let mut a = app(&[]);
    a.set_error("boom".to_string());
    assert_eq!(a.mode, Mode::ErrorPopup);
    assert_eq!(a.message, "boom");
    a.input = "x".to_string();
    assert_eq!(a.handle_action(Action::ClosePopup), Effect::Nothing);
    assert_eq!(a.mode, Mode::Normal);
    assert!(a.message.is_empty() && a.input.is_empty());
}

#[test]
fn quit_and_refresh_effects() {
    let mut a = app(&["a"]);
    assert_eq!(a.handle_action(Action::Quit), Effect::Quit);
    assert_eq!(a.handle_action(Action::RefreshOverview), Effect::Refresh);
    assert_eq!(a.selected, Some(0));
}

#[test]
fn refresh_pieces() {
    let mut a = app(&["https://github.com/o/r", "bad"]);
    a.pr_rows = vec![row(99)];
    a.start_refresh();
    assert!(a.pr_rows.is_empty());
    assert_eq!(a.refresh_target(0), Some(("o".to_string(), "r".to_string())));
    assert!(a.record_fetch("o", "r", Ok(vec![row(1), row(2)])));
    assert_eq!(a.pr_rows.len(), 2);
    assert_eq!(a.refresh_target(1), None);
    assert_eq!(a.mode, Mode::ErrorPopup);
    assert_eq!(a.message, "Invalid repo in config: bad (Invalid repo URL)");
    a.finish_refresh();
    assert_eq!(a.pr_selected, Some(0));
}

#[test]
fn failed_fetch_is_reported() {
    let mut a = app(&["https://github.com/o/r"]);
    assert!(!a.record_fetch("o", "r", Err("HTTP 500".to_string())));
    assert_eq!(a.mode, Mode::ErrorPopup);
    assert_eq!(a.message, "Failed to fetch PRs for o/r: HTTP 500");
    a.finish_refresh();
    assert_eq!(a.pr_selected, None);
}

fn selection_valid(a: &App) -> bool {
    let len = a.cfg.repos.len();
    match a.selected {
        Some(i) => i < len,
        None => len == 0,
    }
}

fn settle(a: &mut App, action: Action) {
    match a.handle_action(action) {
        Effect::SaveAdded => a.finish_add(),
        Effect::SaveDeleted => a.finish_delete(),
        _ => {}
    }
}

#[test]
fn actions_keep_selection_valid_and_list_distinct() {
    let mut a = app(&[]);
    let script: Vec<Action> = vec![
        Action::MoveDown,
        Action::OpenAdd,
        Action::InputChar('b'),
        Action::InputChar('/'),
        Action::InputChar('b'),
        Action::SubmitAdd,
        Action::OpenAdd,
        Action::InputChar('a'),
        Action::InputChar('/'),
        Action::InputChar('a'),
        Action::SubmitAdd,
        Action::OpenAdd,
        Action::InputChar('a'),
        Action::InputChar('/'),
        Action::InputChar('a'),
        Action::SubmitAdd,
        Action::ClosePopup,
        Action::MoveDown,
        Action::MoveDown,
        Action::OpenDeleteConfirm,
        Action::ConfirmDelete,
        Action::MoveUp,
        Action::OpenDeleteConfirm,
        Action::ConfirmDelete,
        Action::ConfirmDelete,
        Action::MoveDown,
    ];
    for action in script {
        settle(&mut a, action);
        assert!(selection_valid(&a), "{action:?}");
        let mut sorted = a.cfg.repos.clone();
        sorted.dedup();
        assert_eq!(sorted.len(), a.cfg.repos.len());
    }
    assert!(a.cfg.repos.is_empty());
}

/// Runs the refresh steps in the order the program does, with `outcomes[i]`
/// standing for what fetching the `i`-th repository gives.
fn refresh_with(a: &mut App, outcomes: Vec<Result<Vec<PrOverviewRow>, String>>) {
    a.start_refresh();
    let mut outcomes = outcomes.into_iter();
    for i in 0..a.cfg.repos.len() {
        let Some((owner, name)) = a.refresh_target(i) else { return };
        let fetched = outcomes.next().unwrap();
        if !a.record_fetch(&owner, &name, fetched) {
            return;
        }
    }
    a.finish_refresh();
}

#[test]
fn refresh_concatenates_rows_in_list_order() {
    let mut a = app(&["https://github.com/a/a", "https://github.com/b/b", "https://github.com/c/c"]);
    a.pr_rows = vec![row(99)];
    refresh_with(&mut a, vec![Ok(vec![row(1), row(2)]), Ok(vec![]), Ok(vec![row(3)])]);
    let numbers: Vec<u64> = a.pr_rows.iter().map(|r| r.number).collect();
    assert_eq!(numbers, vec![1, 2, 3]);
    assert_eq!(a.pr_selected, Some(0));
    assert_eq!(a.mode, Mode::Normal);
}

#[test]
fn refresh_stops_at_first_failed_fetch() {
    let mut a = app(&["https://github.com/a/a", "https://github.com/b/b", "https://github.com/c/c"]);
    refresh_with(&mut a, vec![Ok(vec![row(1)]), Err("down".to_string()), Ok(vec![row(3)])]);
    let numbers: Vec<u64> = a.pr_rows.iter().map(|r| r.number).collect();
    assert_eq!(numbers, vec![1]);
    assert_eq!(a.pr_selected, None);
    assert_eq!(a.mode, Mode::ErrorPopup);
    assert_eq!(a.message, "Failed to fetch PRs for b/b: down");
}

#[test]
fn refresh_stops_at_first_bad_address() {
    let mut a = app(&["https://github.com/a/a", "nope", "https://github.com/c/c"]);
    refresh_with(&mut a, vec![Ok(vec![row(1)]), Ok(vec![row(2)]), Ok(vec![row(3)])]);
    let numbers: Vec<u64> = a.pr_rows.iter().map(|r| r.number).collect();
    assert_eq!(numbers, vec![1]);
    assert_eq!(a.message, "Invalid repo in config: nope (Invalid repo URL)");
}

#[test]
fn refresh_of_nothing_selects_nothing() {
    let mut a = app(&[]);
    a.pr_selected = Some(4);
    refresh_with(&mut a, vec![]);
    assert!(a.pr_rows.is_empty());
    assert_eq!(a.pr_selected, None);
}
