//! The state of the screen and how each action changes it.
//!
//! Saving the configuration and fetching pull requests happen outside: an
//! action answers with the [`Effect`] that the caller carries out, and the
//! caller hands the outcome back (`finish_add`, `finish_delete`,
//! `record_fetch`, ...).
use vstd::prelude::*;
use vstd::relations::sorted_by;
use vstd::string::StringExecFns;

use crate::config::{str_order, AppConfig};
use crate::event::{Action, Mode};
use crate::github::{row_views, PrOverviewRow, PrRowView};
use crate::repo::{normalize_repo_url, normalize_spec, owner_and_name, owner_and_name_spec};
use crate::text::{pop_char, push_char, views};

verus! {

broadcast use vstd::seq_lib::group_seq_properties;

/// The abstract content of the screen state.
pub struct AppView {
    pub mode: Mode,
    pub repos: Seq<Seq<char>>,
    pub selected: Option<usize>,
    pub input: Seq<char>,
    pub message: Seq<char>,
    pub rows: Seq<PrRowView>,
    pub pr_selected: Option<usize>,
}

/// The state of the screen: the configuration, the selected repository, the
/// text being typed, the message of a popup and the pull-request overview.
pub struct App {
    pub mode: Mode,
    pub cfg: AppConfig,
    /// The selected row of the repository table.
    pub selected: Option<usize>,
    pub input: String,
    pub message: String,
    pub pr_rows: Vec<PrOverviewRow>,
    /// The selected row of the pull-request table.
    pub pr_selected: Option<usize>,
}

impl View for App {
    type V = AppView;

    open spec fn view(&self) -> AppView {
        AppView {
            mode: self.mode,
            repos: views(self.cfg.repos@),
            selected: self.selected,
            input: self.input@,
            message: self.message@,
            rows: row_views(self.pr_rows@),
            pr_selected: self.pr_selected,
        }
    }
}

/// What the caller must do after an action.
#[derive(Debug, Clone, Copy, PartialEq, Eq, Structural)]
pub enum Effect {
    /// Nothing more.
    Nothing,
    /// Leave the program.
    Quit,
    /// Fetch the pull-request overview again.
    Refresh,
    /// Save the configuration, then `finish_add`, then fetch the overview.
    SaveAdded,
    /// Save the configuration, then `finish_delete`, then fetch the overview.
    SaveDeleted,
}

// ---------------------------------------------------------------------------
// The meaning of each operation
// ---------------------------------------------------------------------------

/// Row `idx` of a table of `len` rows, or the last row when `idx` is past it.
pub open spec fn clamped(idx: usize, len: nat) -> Option<usize> {
    if len == 0 {
        None
    } else if idx < len {
        Some(idx)
    } else {
        Some((len - 1) as usize)
    }
}

pub open spec fn move_up_spec(a: AppView) -> AppView {
    match a.selected {
        Some(i) => AppView {
            selected: clamped(
                if i > 0 {
                    (i - 1) as usize
                } else {
                    0
                },
                a.repos.len(),
            ),
            ..a
        },
        None => a,
    }
}

pub open spec fn move_down_spec(a: AppView) -> AppView {
    match a.selected {
        Some(i) => AppView {
            selected: clamped(
                if i < usize::MAX {
                    (i + 1) as usize
                } else {
                    i
                },
                a.repos.len(),
            ),
            ..a
        },
        None => if a.repos.len() > 0 {
            AppView { selected: Some(0), ..a }
        } else {
            a
        },
    }
}

pub open spec fn open_add_spec(a: AppView) -> AppView {
    AppView { mode: Mode::AddingRepo, input: Seq::empty(), message: Seq::empty(), ..a }
}

pub open spec fn open_delete_confirm_spec(a: AppView) -> AppView {
    if a.selected is Some {
        AppView { mode: Mode::ConfirmDelete, message: "Delete selected repo? (y/n)"@, ..a }
    } else {
        a
    }
}

pub open spec fn close_popup_spec(a: AppView) -> AppView {
    AppView { mode: Mode::Normal, message: Seq::empty(), input: Seq::empty(), ..a }
}

pub open spec fn set_error_spec(a: AppView, msg: Seq<char>) -> AppView {
    AppView { mode: Mode::ErrorPopup, message: msg, ..a }
}

/// Submitting the typed address: the new state and whether the configuration
/// changed (and must be saved).
pub open spec fn try_add_spec(a: AppView) -> (AppView, bool) {
    match normalize_spec(a.input) {
        Err(e) => (set_error_spec(a, e), false),
        Ok(n) => if a.repos.contains(n) {
            (set_error_spec(a, "Repo already exists in config"@), false)
        } else {
            (AppView { repos: a.repos.push(n).sort_by(str_order()), ..a }, true)
        },
    }
}

/// After the configuration with the added address is saved: select the added
/// address, close the popup and clear the typed text.
pub open spec fn finish_add_spec(a: AppView) -> AppView {
    let selected = match normalize_spec(a.input) {
        Ok(n) => match a.repos.index_of_first(n) {
            Some(p) => Some(p as usize),
            None => a.selected,
        },
        Err(_) => a.selected,
    };
    AppView { selected, mode: Mode::Normal, input: Seq::empty(), ..a }
}

/// Confirming the deletion: the new state and whether the configuration
/// changed (and must be saved).
pub open spec fn delete_spec(a: AppView) -> (AppView, bool) {
    match a.selected {
        None => (close_popup_spec(a), false),
        Some(i) => if i < a.repos.len() {
            (AppView { repos: a.repos.remove(i as int), ..a }, true)
        } else {
            (set_error_spec(a, "Nothing to delete"@), false)
        },
    }
}

/// After the configuration without the deleted address is saved: keep the
/// selection on the same row, or the last one, and close the popup.
pub open spec fn finish_delete_spec(a: AppView) -> AppView {
    AppView {
        selected: if a.repos.len() == 0 {
            None
        } else {
            clamped(a.selected->0, a.repos.len())
        },
        mode: Mode::Normal,
        message: Seq::empty(),
        ..a
    }
}

/// What an action does to the state, and what the caller must do next.
pub open spec fn step_spec(a: AppView, action: Action) -> (AppView, Effect) {
    match action {
        Action::Quit => (a, Effect::Quit),
        Action::MoveUp => (move_up_spec(a), Effect::Nothing),
        Action::MoveDown => (move_down_spec(a), Effect::Nothing),
        Action::OpenAdd => (open_add_spec(a), Effect::Nothing),
        Action::OpenDeleteConfirm => (open_delete_confirm_spec(a), Effect::Nothing),
        Action::ClosePopup => (close_popup_spec(a), Effect::Nothing),
        Action::InputChar(c) => (AppView { input: a.input.push(c), ..a }, Effect::Nothing),
        Action::Backspace => (
            AppView {
                input: if a.input.len() > 0 {
                    a.input.drop_last()
                } else {
                    a.input
                },
                ..a
            },
            Effect::Nothing,
        ),
        Action::SubmitAdd => {
            let (b, changed) = try_add_spec(a);
            (
                b,
                if changed {
                    Effect::SaveAdded
                } else {
                    Effect::Refresh
                },
            )
        },
        Action::ConfirmDelete => {
            let (b, changed) = delete_spec(a);
            (
                b,
                if changed {
                    Effect::SaveDeleted
                } else {
                    Effect::Refresh
                },
            )
        },
        Action::RefreshOverview => (a, Effect::Refresh),
    }
}

/// The error shown for an address of the configuration that does not split
/// into owner and name.
pub open spec fn invalid_repo_message(url: Seq<char>, e: Seq<char>) -> Seq<char> {
    "Invalid repo in config: "@ + url + " ("@ + e + ")"@
}

/// The error shown when fetching the pull requests of a repository failed.
pub open spec fn fetch_failed_message(owner: Seq<char>, name: Seq<char>, e: Seq<char>) -> Seq<
    char,
> {
    "Failed to fetch PRs for "@ + owner + "/"@ + name + ": "@ + e
}

/// The characters of an optional owner/name pair.
pub open spec fn pair_view(p: Option<(String, String)>) -> Option<(Seq<char>, Seq<char>)> {
    match p {
        Some((o, n)) => Some((o@, n@)),
        None => None,
    }
}

/// What fetching the pull requests of one repository gave: its rows, or why not.
pub type FetchOutcome = Result<Seq<PrRowView>, Seq<char>>;

/// The abstract content of a fetch outcome.
pub open spec fn fetch_view(r: Result<Vec<PrOverviewRow>, String>) -> FetchOutcome {
    match r {
        Ok(rows) => Ok(row_views(rows@)),
        Err(e) => Err(e@),
    }
}

/// Asking for the `i`-th repository to fetch: its owner and name, or the
/// error popup when its address does not split.
pub open spec fn refresh_target_spec(a: AppView, i: int) -> (AppView, Option<(Seq<char>, Seq<char>)>) {
    match owner_and_name_spec(a.repos[i]) {
        Ok(p) => (a, Some(p)),
        Err(e) => (set_error_spec(a, invalid_repo_message(a.repos[i], e)), None),
    }
}

/// Recording what fetching `owner/name` gave: its rows are appended, or the
/// failure is shown in the error popup; and whether the fetch succeeded.
pub open spec fn record_fetch_spec(
    a: AppView,
    owner: Seq<char>,
    name: Seq<char>,
    outcome: FetchOutcome,
) -> (AppView, bool) {
    match outcome {
        Ok(rows) => (AppView { rows: a.rows + rows, ..a }, true),
        Err(e) => (set_error_spec(a, fetch_failed_message(owner, name, e)), false),
    }
}

/// After the overview is fetched: select its first row, if any.
pub open spec fn finish_refresh_spec(a: AppView) -> AppView {
    AppView {
        pr_selected: if a.rows.len() == 0 {
            None
        } else {
            Some(0)
        },
        ..a
    }
}

// ---------------------------------------------------------------------------
// The operations
// ---------------------------------------------------------------------------

impl App {
    /// The state for a loaded configuration: no popup, the first repository
    /// selected (if any), no overview yet.
    pub fn new(cfg: AppConfig) -> (app: Self)
        ensures
            app@ == (AppView {
                mode: Mode::Normal,
                repos: views(cfg.repos@),
                selected: if cfg.repos@.len() > 0 {
                    Some(0usize)
                } else {
                    None
                },
                input: Seq::empty(),
                message: Seq::empty(),
                rows: Seq::empty(),
                pr_selected: None,
            }),
    {
        let selected = if cfg.repos.len() > 0 {
            Some(0)
        } else {
            None
        };
        let app = App {
            mode: Mode::Normal,
            cfg,
            selected,
            input: String::new(),
            message: String::new(),
            pr_rows: Vec::new(),
            pr_selected: None,
        };
        assert(app@.rows =~= Seq::<PrRowView>::empty());
        app
    }

    /// The selected row of the repository table.
    pub fn selected_idx(&self) -> (s: Option<usize>)
        ensures
            s == self.selected,
    {
        self.selected
    }

    fn select_clamped(&mut self, idx: usize)
        ensures
            final(self)@ == (AppView { selected: clamped(idx, old(self)@.repos.len()), ..old(self)@ }),
    {
        if self.cfg.repos.len() == 0 {
            self.selected = None;
        } else {
            let last = self.cfg.repos.len() - 1;
            let i = if idx < last {
                idx
            } else {
                last
            };
            self.selected = Some(i);
        }
    }

    /// Moves the selection one row up (staying on the first row).
    pub fn move_up(&mut self)
        ensures
            final(self)@ == move_up_spec(old(self)@),
    {
        if let Some(i) = self.selected_idx() {
            let j = if i > 0 {
                i - 1
            } else {
                0
            };
            self.select_clamped(j);
        }
    }

    /// Moves the selection one row down (staying on the last row), or selects
    /// the first row when nothing is selected.
    pub fn move_down(&mut self)
        ensures
            final(self)@ == move_down_spec(old(self)@),
    {
        if let Some(i) = self.selected_idx() {
            let j = if i < usize::MAX {
                i + 1
            } else {
                i
            };
            self.select_clamped(j);
        } else if self.cfg.repos.len() > 0 {
            self.selected = Some(0);
        }
    }

    /// Opens the popup for typing an address.
    pub fn open_add(&mut self)
        ensures
            final(self)@ == open_add_spec(old(self)@),
    {
        self.mode = Mode::AddingRepo;
        self.input = String::new();
        self.message = String::new();
    }

    /// Asks to confirm the deletion of the selected repository, if any.
    pub fn open_delete_confirm(&mut self)
        ensures
            final(self)@ == open_delete_confirm_spec(old(self)@),
    {
        if self.selected_idx().is_some() {
            self.mode = Mode::ConfirmDelete;
            self.message = String::from_str("Delete selected repo? (y/n)");
        }
    }

    /// Closes any popup, dropping its message and the typed text.
    pub fn close_popup(&mut self)
        ensures
            final(self)@ == close_popup_spec(old(self)@),
    {
        self.mode = Mode::Normal;
        self.message = String::new();
        self.input = String::new();
    }

    /// Shows `msg` in the error popup.
    pub fn set_error(&mut self, msg: String)
        ensures
            final(self)@ == set_error_spec(old(self)@, msg@),
    {
        self.mode = Mode::ErrorPopup;
        self.message = msg;
    }

    /// Adds the typed address to the configuration; returns whether it
    /// changed (then the caller saves it and calls `finish_add`). A refused or
    /// repeated address is reported in the error popup.
    pub fn try_add_repo(&mut self) -> (changed: bool)
        ensures
            (final(self)@, changed) == try_add_spec(old(self)@),
    {
        match self.cfg.normalize_and_add(self.input.as_str()) {
            Ok(added) => {
                if !added {
                    self.set_error(String::from_str("Repo already exists in config"));
                    return false;
                }
                true
            },
            Err(e) => {
                self.set_error(e);
                false
            },
        }
    }

    /// Selects the added address, closes the popup and clears the typed text.
    pub fn finish_add(&mut self)
        ensures
            final(self)@ == finish_add_spec(old(self)@),
    {
        if let Ok(normalized) = normalize_repo_url(self.input.as_str()) {
            if let Some(pos) = self.cfg.position(&normalized) {
                self.selected = Some(pos);
            }
        }
        self.mode = Mode::Normal;
        self.input = String::new();
    }

    /// Removes the selected repository from the configuration; returns
    /// whether it changed (then the caller saves it and calls
    /// `finish_delete`).
    pub fn delete_selected(&mut self) -> (changed: bool)
        ensures
            (final(self)@, changed) == delete_spec(old(self)@),
    {
        let idx = match self.selected_idx() {
            Some(i) => i,
            None => {
                self.close_popup();
                return false;
            },
        };
        let ghost before = self.cfg.repos@;
        if !self.cfg.remove_at(idx) {
            self.set_error(String::from_str("Nothing to delete"));
            return false;
        }
        assert(views(self.cfg.repos@) =~= views(before).remove(idx as int));
        true
    }

    /// Keeps the selection on the same row (or the last one) after a deletion
    /// and closes the popup.
    pub fn finish_delete(&mut self)
        requires
            old(self).selected is Some,
        ensures
            final(self)@ == finish_delete_spec(old(self)@),
    {
        if self.cfg.repos.len() == 0 {
            self.selected = None;
        } else {
            let idx = self.selected.unwrap();
            self.select_clamped(idx);
        }
        self.mode = Mode::Normal;
        self.message = String::new();
    }

    /// Carries out `action` on the state; returns what the caller must do next.
    pub fn handle_action(&mut self, action: Action) -> (effect: Effect)
        ensures
            (final(self)@, effect) == step_spec(old(self)@, action),
    {
        match action {
            Action::Quit => Effect::Quit,
            Action::MoveUp => {
                self.move_up();
                Effect::Nothing
            },
            Action::MoveDown => {
                self.move_down();
                Effect::Nothing
            },
            Action::OpenAdd => {
                self.open_add();
                Effect::Nothing
            },
            Action::OpenDeleteConfirm => {
                self.open_delete_confirm();
                Effect::Nothing
            },
            Action::ClosePopup => {
                self.close_popup();
                Effect::Nothing
            },
            Action::InputChar(c) => {
                push_char(&mut self.input, c);
                Effect::Nothing
            },
            Action::Backspace => {
                pop_char(&mut self.input);
                Effect::Nothing
            },
            Action::SubmitAdd => {
                if self.try_add_repo() {
                    Effect::SaveAdded
                } else {
                    Effect::Refresh
                }
            },
            Action::ConfirmDelete => {
                if self.delete_selected() {
                    Effect::SaveDeleted
                } else {
                    Effect::Refresh
                }
            },
            Action::RefreshOverview => Effect::Refresh,
        }
    }

    /// Empties the overview before it is fetched again.
    pub fn start_refresh(&mut self)
        ensures
            final(self)@ == (AppView { rows: Seq::empty(), ..old(self)@ }),
    {
        self.pr_rows = Vec::new();
        assert(row_views(self.pr_rows@) =~= Seq::<PrRowView>::empty());
    }

    /// The owner and name of the `i`-th configured repository, to fetch its
    /// pull requests; when the address does not split, reports it in the
    /// error popup and gives none.
    pub fn refresh_target(&mut self, i: usize) -> (target: Option<(String, String)>)
        requires
            i < old(self).cfg.repos@.len(),
        ensures
            (final(self)@, pair_view(target)) == refresh_target_spec(old(self)@, i as int),
    {
        match owner_and_name(self.cfg.repos[i].as_str()) {
            Ok(pair) => Some(pair),
            Err(e) => {
                let mut msg = String::from_str("Invalid repo in config: ");
                msg.append(self.cfg.repos[i].as_str());
                msg.append(" (");
                msg.append(e.as_str());
                msg.append(")");
                self.set_error(msg);
                None
            },
        }
    }

    /// Records the outcome of fetching the pull requests of `owner/name`:
    /// appends the rows, or reports the failure in the error popup. Returns
    /// whether the fetch succeeded.
    pub fn record_fetch(
        &mut self,
        owner: &str,
        name: &str,
        fetched: Result<Vec<PrOverviewRow>, String>,
    ) -> (ok: bool)
        ensures
            (final(self)@, ok) == record_fetch_spec(
                old(self)@,
                owner@,
                name@,
                fetch_view(fetched),
            ),
    {
        match fetched {
            Ok(rows) => {
                let mut rows = rows;
                let ghost before = row_views(self.pr_rows@);
                let ghost added = row_views(rows@);
                self.pr_rows.append(&mut rows);
                assert(row_views(self.pr_rows@) =~= before + added);
                true
            },
            Err(e) => {
                let mut msg = String::from_str("Failed to fetch PRs for ");
                msg.append(owner);
                msg.append("/");
                msg.append(name);
                msg.append(": ");
                msg.append(e.as_str());
                self.set_error(msg);
                false
            },
        }
    }

    /// Selects the first row of the fetched overview, if any.
    pub fn finish_refresh(&mut self)
        ensures
            final(self)@ == finish_refresh_spec(old(self)@),
    {
        if self.pr_rows.len() == 0 {
            self.pr_selected = None;
        } else {
            self.pr_selected = Some(0);
        }
    }
}

} // verus!

verus! {

// ---------------------------------------------------------------------------
// Laws
// ---------------------------------------------------------------------------

/// The repository selection points at a listed repository, and something is
/// selected whenever the list is not empty.
pub open spec fn selection_valid(a: AppView) -> bool {
    &&& (a.selected matches Some(i) ==> i < a.repos.len())
    &&& (a.repos.len() > 0 ==> a.selected is Some)
}

/// The state after `action` once the caller has done what the effect asks
/// (saving succeeded).
pub open spec fn settle(a: AppView, action: Action) -> AppView {
    let (b, effect) = step_spec(a, action);
    match effect {
        Effect::SaveAdded => finish_add_spec(b),
        Effect::SaveDeleted => finish_delete_spec(b),
        _ => b,
    }
}

proof fn lemma_sorted_insert_contains(repos: Seq<Seq<char>>, n: Seq<char>)
    ensures
        repos.push(n).sort_by(str_order()).contains(n),
        repos.push(n).sort_by(str_order()).len() == repos.len() + 1,
{
    broadcast use vstd::seq_lib::group_to_multiset_ensures;

    crate::config::lemma_str_order_total();
    let s = repos.push(n);
    s.lemma_sort_by_ensures(str_order());
    assert(s.contains(n)) by {
        assert(s[repos.len() as int] == n);
    }
    assert(s.to_multiset().count(n) > 0);
    assert(s.sort_by(str_order()).to_multiset().len() == s.to_multiset().len());
}

/// A new state has a valid selection.
pub proof fn lemma_new_selection_valid(repos: Seq<Seq<char>>)
    ensures
        selection_valid(
            AppView {
                mode: Mode::Normal,
                repos,
                selected: if repos.len() > 0 {
                    Some(0usize)
                } else {
                    None
                },
                input: Seq::empty(),
                message: Seq::empty(),
                rows: Seq::empty(),
                pr_selected: None,
            },
        ),
{
}

/// Every action keeps the selection valid, once its effect is carried out.
pub proof fn lemma_action_keeps_selection_valid(a: AppView, action: Action)
    requires
        selection_valid(a),
    ensures
        selection_valid(settle(a, action)),
{
    match action {
        Action::SubmitAdd => {
            if let Ok(n) = normalize_spec(a.input) {
                if !a.repos.contains(n) {
                    let b = try_add_spec(a).0;
                    lemma_sorted_insert_contains(a.repos, n);
                    b.repos.index_of_first_ensures(n);
                }
            }
        },
        _ => {},
    }
}

/// After a successful add, the added address is listed and selected, and
/// the popup is closed.
pub proof fn lemma_added_repo_selected(a: AppView)
    requires
        try_add_spec(a).1,
        a.repos.len() < usize::MAX,
    ensures
        ({
            let c = finish_add_spec(try_add_spec(a).0);
            &&& c.selected is Some
            &&& c.selected->0 < c.repos.len()
            &&& c.repos[c.selected->0 as int] == normalize_spec(a.input)->Ok_0
            &&& c.mode == Mode::Normal
            &&& c.input.len() == 0
        }),
{
    let n = normalize_spec(a.input)->Ok_0;
    let b = try_add_spec(a).0;
    lemma_sorted_insert_contains(a.repos, n);
    b.repos.index_of_first_ensures(n);
}

/// A refused address leaves the list of repositories unchanged and shows
/// the reason in the error popup.
pub proof fn lemma_refused_add_changes_nothing(a: AppView)
    requires
        normalize_spec(a.input) is Err,
    ensures
        step_spec(a, Action::SubmitAdd) == (
            set_error_spec(a, normalize_spec(a.input)->Err_0),
            Effect::Refresh,
        ),
        step_spec(a, Action::SubmitAdd).0.repos == a.repos,
{
}

/// After the overview is fetched, its selection points at a row whenever
/// there is one.
pub proof fn lemma_refresh_selection_valid(a: AppView)
    ensures
        ({
            let b = finish_refresh_spec(a);
            &&& (b.pr_selected matches Some(i) ==> i < b.rows.len())
            &&& (b.rows.len() > 0 ==> b.pr_selected is Some)
        }),
{
}

/// Every action keeps the list of repositories free of repeats.
pub proof fn lemma_action_keeps_repos_distinct(a: AppView, action: Action)
    requires
        a.repos.no_duplicates(),
    ensures
        settle(a, action).repos.no_duplicates(),
{
    match action {
        Action::SubmitAdd => {
            if let Ok(n) = normalize_spec(a.input) {
                if !a.repos.contains(n) {
                    crate::config::lemma_add_keeps_list_clean(a.repos, n);
                }
            }
        },
        Action::ConfirmDelete => {
            if let Some(i) = a.selected {
                if i < a.repos.len() {
                    crate::config::lemma_remove_keeps_list_clean(a.repos, i as int);
                }
            }
        },
        _ => {},
    }
}

/// Refreshing the overview from the `i`-th repository on, where fetching the
/// `j`-th repository gives `outcomes[j]`: each repository's rows are appended
/// in list order and the first row is selected at the end; the first address
/// that does not split, or the first failed fetch, stops the refresh with the
/// error popup and the rows fetched so far.
pub open spec fn refresh_from(a: AppView, i: nat, outcomes: Seq<FetchOutcome>) -> AppView
    decreases a.repos.len() - i,
{
    if i >= a.repos.len() {
        finish_refresh_spec(a)
    } else {
        match owner_and_name_spec(a.repos[i as int]) {
            Err(e) => set_error_spec(a, invalid_repo_message(a.repos[i as int], e)),
            Ok((owner, name)) => match outcomes[i as int] {
                Err(e) => set_error_spec(a, fetch_failed_message(owner, name, e)),
                Ok(rows) => refresh_from(AppView { rows: a.rows + rows, ..a }, i + 1, outcomes),
            },
        }
    }
}

/// Refreshing the whole overview: the rows are emptied, then every
/// repository is fetched in turn.
pub open spec fn refresh_spec(a: AppView, outcomes: Seq<FetchOutcome>) -> AppView {
    refresh_from(AppView { rows: Seq::empty(), ..a }, 0, outcomes)
}

/// The steps `start_refresh`, `refresh_target`, `record_fetch` and
/// `finish_refresh`, called in turn as long as they succeed, refresh the
/// overview as `refresh_spec` says: each step moves from the state for
/// repository `i` to the state for repository `i + 1`, or ends the refresh.
pub proof fn lemma_refresh_steps(a: AppView, i: nat, outcomes: Seq<FetchOutcome>)
    requires
        i <= a.repos.len(),
    ensures
        i == a.repos.len() ==> refresh_from(a, i, outcomes) == finish_refresh_spec(a),
        i < a.repos.len() ==> ({
            let (b, target) = refresh_target_spec(a, i as int);
            match target {
                None => refresh_from(a, i, outcomes) == b,
                Some((owner, name)) => {
                    let (c, ok) = record_fetch_spec(b, owner, name, outcomes[i as int]);
                    &&& b == a
                    &&& ok ==> refresh_from(a, i, outcomes) == refresh_from(c, i + 1, outcomes)
                    &&& !ok ==> refresh_from(a, i, outcomes) == c
                },
            }
        }),
{
}

/// The rows of the first `k` fetch outcomes, in order.
pub open spec fn collected(outcomes: Seq<FetchOutcome>, k: nat) -> Seq<PrRowView>
    decreases k,
{
    if k == 0 {
        Seq::empty()
    } else {
        collected(outcomes, (k - 1) as nat) + outcomes[k - 1]->Ok_0
    }
}

/// Whether the `j`-th repository splits into owner and name and was fetched.
pub open spec fn fetched_ok(repos: Seq<Seq<char>>, outcomes: Seq<FetchOutcome>, j: int) -> bool {
    owner_and_name_spec(repos[j]) is Ok && outcomes[j] is Ok
}

proof fn lemma_refresh_prefix(a: AppView, i: nat, k: nat, outcomes: Seq<FetchOutcome>)
    requires
        i <= k <= a.repos.len(),
        a.rows == collected(outcomes, i),
        forall|j: int| i <= j < k ==> fetched_ok(a.repos, outcomes, j),
    ensures
        refresh_from(a, i, outcomes) == refresh_from(
            AppView { rows: collected(outcomes, k), ..a },
            k,
            outcomes,
        ),
    decreases k - i,
{
    if i == k {
        assert(AppView { rows: collected(outcomes, k), ..a } == a);
    } else {
        assert(fetched_ok(a.repos, outcomes, i as int));
        let next = AppView { rows: a.rows + outcomes[i as int]->Ok_0, ..a };
        assert(next.rows == collected(outcomes, i + 1));
        assert(next.repos == a.repos);
        lemma_refresh_prefix(next, i + 1, k, outcomes);
        assert(AppView { rows: collected(outcomes, k), ..next } == AppView {
            rows: collected(outcomes, k),
            ..a
        });
    }
}

/// When every address splits and every fetch succeeds, refreshing shows the
/// rows of all repositories in list order and selects the first one.
pub proof fn lemma_refresh_all_fetched(a: AppView, outcomes: Seq<FetchOutcome>)
    requires
        outcomes.len() >= a.repos.len(),
        forall|j: int| 0 <= j < a.repos.len() ==> fetched_ok(a.repos, outcomes, j),
    ensures
        refresh_spec(a, outcomes) == finish_refresh_spec(
            AppView { rows: collected(outcomes, a.repos.len()), ..a },
        ),
{
    let start = AppView { rows: Seq::empty(), ..a };
    assert(start.rows == collected(outcomes, 0));
    assert(start.repos == a.repos);
    lemma_refresh_prefix(start, 0, a.repos.len(), outcomes);
    assert(AppView { rows: collected(outcomes, a.repos.len()), ..start } == AppView {
        rows: collected(outcomes, a.repos.len()),
        ..a
    });
}

/// When the `k`-th repository is the first whose address does not split or
/// whose fetch fails, refreshing stops there: the error popup shows why, the
/// overview holds the rows of the repositories before it, and the overview's
/// selection is left as it was.
pub proof fn lemma_refresh_stops_at_first_failure(
    a: AppView,
    outcomes: Seq<FetchOutcome>,
    k: nat,
)
    requires
        k < a.repos.len(),
        k < outcomes.len(),
        forall|j: int| 0 <= j < k ==> fetched_ok(a.repos, outcomes, j),
        !fetched_ok(a.repos, outcomes, k as int),
    ensures
        ({
            let before = AppView { rows: collected(outcomes, k), ..a };
            refresh_spec(a, outcomes) == match owner_and_name_spec(a.repos[k as int]) {
                Err(e) => set_error_spec(before, invalid_repo_message(a.repos[k as int], e)),
                Ok((owner, name)) => set_error_spec(
                    before,
                    fetch_failed_message(owner, name, outcomes[k as int]->Err_0),
                ),
            }
        }),
{
    let start = AppView { rows: Seq::empty(), ..a };
    assert(start.rows == collected(outcomes, 0));
    assert(start.repos == a.repos);
    lemma_refresh_prefix(start, 0, k, outcomes);
    assert(AppView { rows: collected(outcomes, k), ..start } == AppView {
        rows: collected(outcomes, k),
        ..a
    });
}

/// With row `i` selected, MoveUp selects the row above (staying on the first
/// row) and MoveDown the row below (staying on the last row); nothing else
/// changes and nothing more is asked of the caller.
pub proof fn lemma_move_actions(a: AppView, i: usize)
    requires
        a.selected == Some(i),
        i < a.repos.len() <= usize::MAX,
    ensures
        i > 0 ==> step_spec(a, Action::MoveUp) == (
            AppView { selected: Some((i - 1) as usize), ..a },
            Effect::Nothing,
        ),
        i == 0 ==> step_spec(a, Action::MoveUp) == (a, Effect::Nothing),
        i + 1 < a.repos.len() ==> step_spec(a, Action::MoveDown) == (
            AppView { selected: Some((i + 1) as usize), ..a },
            Effect::Nothing,
        ),
        i + 1 == a.repos.len() ==> step_spec(a, Action::MoveDown) == (a, Effect::Nothing),
{
    if i == 0 {
        assert(AppView { selected: Some(i), ..a } == a);
    }
    if i + 1 == a.repos.len() {
        assert(AppView { selected: Some(i), ..a } == a);
    }
}

/// Confirming a deletion with row `i` selected removes exactly the `i`-th
/// address: the others stay, in order; the caller is asked to save. Once
/// the caller has saved, the selection stays on row `i`, or moves to the new
/// last row, or to none when the list is empty; the popup is closed.
#[verifier::rlimit(30)]
pub proof fn lemma_confirm_delete(a: AppView, i: usize)
    requires
        a.selected == Some(i),
        i < a.repos.len(),
    ensures
        ({
            let (b, effect) = step_spec(a, Action::ConfirmDelete);
            &&& effect == Effect::SaveDeleted
            &&& b.repos.len() == a.repos.len() - 1
            &&& forall|k: int| 0 <= k < i ==> b.repos[k] == a.repos[k]
            &&& forall|k: int| i <= k < b.repos.len() ==> b.repos[k] == a.repos[k + 1]
            &&& a.repos.no_duplicates() ==> !b.repos.contains(a.repos[i as int])
            &&& b.input == a.input
            &&& b.rows == a.rows
        }),
        ({
            let c = settle(a, Action::ConfirmDelete);
            &&& c.mode == Mode::Normal
            &&& c.message.len() == 0
            &&& i + 1 < a.repos.len() ==> c.selected == Some(i)
            &&& (i + 1 == a.repos.len() && i > 0) ==> c.selected == Some((i - 1) as usize)
            &&& a.repos.len() == 1 ==> c.selected is None
        }),
{
    let b = step_spec(a, Action::ConfirmDelete).0;
    assert(b.repos == a.repos.remove(i as int));
    if a.repos.no_duplicates() {
        if b.repos.contains(a.repos[i as int]) {
            let k = choose|k: int| 0 <= k < b.repos.len() && b.repos[k] == a.repos[i as int];
            if k < i {
                assert(a.repos[k] == a.repos[i as int]);
            } else {
                assert(a.repos[k + 1] == a.repos[i as int]);
            }
        }
    }
}

/// The popup and typing actions: opening the add popup clears the typed text
/// and the message; closing a popup returns to the tables and clears both;
/// a typed character goes at the end of the text and Backspace takes the
/// last one off; asking to delete opens the confirmation only when a row is
/// selected; quitting and refreshing change nothing. None of them touches
/// the list of repositories or the selection.
pub proof fn lemma_popup_actions(a: AppView, c: char)
    ensures
        ({
            let (b, e) = step_spec(a, Action::OpenAdd);
            &&& e == Effect::Nothing
            &&& b.mode == Mode::AddingRepo
            &&& b.input.len() == 0
            &&& b.message.len() == 0
            &&& b.repos == a.repos
            &&& b.selected == a.selected
        }),
        ({
            let (b, e) = step_spec(a, Action::ClosePopup);
            &&& e == Effect::Nothing
            &&& b.mode == Mode::Normal
            &&& b.input.len() == 0
            &&& b.message.len() == 0
            &&& b.repos == a.repos
            &&& b.selected == a.selected
        }),
        ({
            let (b, e) = step_spec(a, Action::InputChar(c));
            &&& e == Effect::Nothing
            &&& b.input.len() == a.input.len() + 1
            &&& b.input.last() == c
            &&& forall|k: int| 0 <= k < a.input.len() ==> b.input[k] == a.input[k]
            &&& b.mode == a.mode
            &&& b.repos == a.repos
            &&& b.selected == a.selected
        }),
        ({
            let (b, e) = step_spec(a, Action::Backspace);
            &&& e == Effect::Nothing
            &&& a.input.len() > 0 ==> b.input.len() == a.input.len() - 1
            &&& a.input.len() == 0 ==> b.input.len() == 0
            &&& forall|k: int| 0 <= k < b.input.len() ==> b.input[k] == a.input[k]
            &&& b.mode == a.mode
            &&& b.repos == a.repos
            &&& b.selected == a.selected
        }),
        ({
            let (b, e) = step_spec(a, Action::OpenDeleteConfirm);
            &&& e == Effect::Nothing
            &&& a.selected is Some ==> b.mode == Mode::ConfirmDelete && b.message
                == "Delete selected repo? (y/n)"@
            &&& a.selected is None ==> b == a
            &&& b.repos == a.repos
            &&& b.selected == a.selected
        }),
        step_spec(a, Action::Quit) == (a, Effect::Quit),
        step_spec(a, Action::RefreshOverview) == (a, Effect::Refresh),
{
}

/// Submitting a typed address that normalises to `n`: when `n` is not listed
/// yet, the caller is asked to save and the new list is sorted and holds
/// every old address and `n`, one more than before; once saved, `n` is
/// selected. When `n` is listed already, the list stays and the error popup
/// says so.
#[verifier::rlimit(30)]
pub proof fn lemma_submit_add(a: AppView)
    requires
        normalize_spec(a.input) is Ok,
        a.repos.len() < usize::MAX,
    ensures
        ({
            let n = normalize_spec(a.input)->Ok_0;
            let (b, e) = step_spec(a, Action::SubmitAdd);
            &&& !a.repos.contains(n) ==> {
                &&& e == Effect::SaveAdded
                &&& b.repos.len() == a.repos.len() + 1
                &&& sorted_by(b.repos, str_order())
                &&& b.repos.contains(n)
                &&& forall|k: int| 0 <= k < a.repos.len() ==> b.repos.contains(#[trigger] a.repos[k])
                &&& forall|k: int| 0 <= k < b.repos.len() ==> (#[trigger] b.repos[k] == n
                    || a.repos.contains(b.repos[k]))
                &&& ({
                    let c = settle(a, Action::SubmitAdd);
                    &&& c.selected matches Some(p) && p < c.repos.len() && c.repos[p as int] == n
                    &&& c.mode == Mode::Normal
                    &&& c.input.len() == 0
                })
            }
            &&& a.repos.contains(n) ==> {
                &&& e == Effect::Refresh
                &&& b.repos == a.repos
                &&& b.mode == Mode::ErrorPopup
                &&& b.message == "Repo already exists in config"@
            }
        }),
{
    broadcast use vstd::seq_lib::group_to_multiset_ensures;

    let n = normalize_spec(a.input)->Ok_0;
    if !a.repos.contains(n) {
        let s = a.repos.push(n);
        let b = try_add_spec(a).0;
        lemma_sorted_insert_contains(a.repos, n);
        crate::config::lemma_str_order_total();
        s.lemma_sort_by_ensures(str_order());
        assert(b.repos == s.sort_by(str_order()));
        assert forall|k: int| 0 <= k < a.repos.len() implies b.repos.contains(
            #[trigger] a.repos[k],
        ) by {
            assert(s[k] == a.repos[k]);
            assert(s.to_multiset().count(a.repos[k]) > 0);
        }
        assert forall|k: int| 0 <= k < b.repos.len() implies (#[trigger] b.repos[k] == n
            || a.repos.contains(b.repos[k])) by {
            assert(b.repos.to_multiset().count(b.repos[k]) > 0);
            assert(s.contains(b.repos[k]));
            let j = choose|j: int| 0 <= j < s.len() && s[j] == b.repos[k];
            if j < a.repos.len() {
                assert(a.repos[j] == b.repos[k]);
            }
        }
        lemma_added_repo_selected(a);
    }
}

} // verus!
