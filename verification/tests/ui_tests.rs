use gh_pr_tui::event::Mode;
use gh_pr_tui::ui::{message_title, popup_for, Popup};
use gh_pr_tui::github::{PrOverviewRow, ReviewStatus};
use gh_pr_tui::text::decimal_string;
use gh_pr_tui::ui::{centered_rect, join_truncated, latest_text, overview_cells, repo_rows, requested_text, Area};

fn strings(v: &[&str]) -> Vec<String> {
    v.iter().map(|s| s.to_string()).collect()
}

fn pairs(v: &[(&str, &str)]) -> Vec<(String, String)> {
    v.iter().map(|(a, b)| (a.to_string(), b.to_string())).collect()
}

#[test]
fn join_within_limit() {
    assert_eq!(join_truncated(&strings(&["a", "b", "c"]), 3, ", "), "a, b, c");
    assert_eq!(join_truncated(&strings(&[]), 3, ", "), "");
}

#[test]
fn join_past_limit() {
    assert_eq!(join_truncated(&strings(&["a", "b", "c", "d", "e"]), 3, ", "), "a, b, c …(+2)");
    assert_eq!(join_truncated(&strings(&["a", "b"]), 0, ", "), " …(+2)");
}

#[test]
fn requested_cell() {
    assert_eq!(requested_text(&strings(&[])), "-");
    assert_eq!(requested_text(&strings(&["x", "team:y"])), "x, team:y");
    assert_eq!(requested_text(&strings(&["1", "2", "3", "4"])), "1, 2, 3 …(+1)");
}

#[test]
fn latest_cell_keeps_last_three_in_order() {
    assert_eq!(latest_text(&pairs(&[])), "-");
    assert_eq!(latest_text(&pairs(&[("a", "APPROVED")])), "a:APPROVED");
    assert_eq!(
        latest_text(&pairs(&[("a", "1"), ("b", "2"), ("c", "3"), ("d", "4")])),
        "b:2 | c:3 | d:4"
    );
}

#[test]
fn overview_row_cells() {
    let r = PrOverviewRow {
        repo: "o/r".to_string(),
        number: 1234,
        title: "t".to_string(),
        url: "u".to_string(),
        status: ReviewStatus::ChangesRequested,
        author: "alice".to_string(),
        requested_reviewers: strings(&["bob"]),
        latest_reviews: pairs(&[("carol", "COMMENTED")]),
    };
    assert_eq!(
        overview_cells(&r),
        strings(&["o/r", "1234", "CHANGES_REQUESTED", "alice", "bob", "carol:COMMENTED"])
    );
}

#[test]
fn repo_table_rows() {
    assert_eq!(
        repo_rows(&strings(&["x", "y"])),
        pairs(&[("1", "x"), ("2", "y")])
    );
}

#[test]
fn decimal_numbers() {
    assert_eq!(decimal_string(0), "0");
    assert_eq!(decimal_string(7), "7");
    assert_eq!(decimal_string(10), "10");
    assert_eq!(decimal_string(1234567890), "1234567890");
    assert_eq!(decimal_string(u64::MAX), u64::MAX.to_string());
}

#[test]
fn popup_is_centered() {
    let c = centered_rect(60, 20, Area { x: 0, y: 0, width: 100, height: 50 });
    assert_eq!(c, Area { x: 20, y: 20, width: 60, height: 10 });
}

#[test]
fn full_popup_covers_area() {
    let r = Area { x: 3, y: 4, width: 40, height: 20 };
    assert_eq!(centered_rect(100, 100, r), r);
}

#[test]
fn popup_per_mode() {
    assert_eq!(popup_for(Mode::Normal), Popup::Nothing);
    assert_eq!(popup_for(Mode::AddingRepo), Popup::AddRepo);
    assert_eq!(popup_for(Mode::ConfirmDelete), Popup::Message);
    assert_eq!(popup_for(Mode::ErrorPopup), Popup::Message);
    assert_eq!(message_title(Mode::ConfirmDelete), "Confirm");
    assert_eq!(message_title(Mode::ErrorPopup), "Error");
    assert_eq!(message_title(Mode::Normal), "");
    assert_eq!(message_title(Mode::AddingRepo), "");
}

#[test]
fn popup_on_odd_sizes() {
    let c = centered_rect(80, 30, Area { x: 0, y: 0, width: 81, height: 24 });
    assert_eq!(c.y + c.height <= 24, true);
    assert_eq!(c.x + c.width <= 81, true);
    let again = centered_rect(80, 30, Area { x: 0, y: 0, width: 81, height: 24 });
    assert_eq!(c, again);
}
