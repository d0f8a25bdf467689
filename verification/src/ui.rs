//! What the tables show, and where a popup goes on the screen.
use vstd::prelude::*;
use vstd::string::StringExecFns;

use ratatui::layout::{Constraint, Direction, Layout, Rect};

use crate::event::Mode;
use crate::github::{pair_views, status_label, PrOverviewRow};
use crate::text::{decimal, decimal_string, digits_value, join, join_spec, lemma_decimal_writes, views};

verus! {

broadcast use vstd::seq_lib::group_seq_properties;

// ---------------------------------------------------------------------------
// Table text
// ---------------------------------------------------------------------------

/// The items joined by `sep`; past `max` items, only the first `max` and a
/// count of the others (`a, b, c …(+2)`).
pub open spec fn join_truncated_spec(items: Seq<Seq<char>>, max: nat, sep: Seq<char>) -> Seq<
    char,
> {
    if items.len() <= max {
        join_spec(items, sep)
    } else {
        join_spec(items.take(max as int), sep) + " …(+"@ + decimal((items.len() - max) as nat)
            + ")"@
    }
}

/// The items joined by `sep`, at most `max` of them, then a count of the rest.
pub fn join_truncated(items: &Vec<String>, max: usize, sep: &str) -> (s: String)
    ensures
        s@ == join_truncated_spec(views(items@), max as nat, sep@),
{
    if items.len() <= max {
        return join(items, sep);
    }
    let mut head: Vec<String> = Vec::new();
    let mut i: usize = 0;
    while i < max
        invariant
            i <= max < items.len(),
            views(head@) == views(items@).take(i as int),
            head@.len() == i,
        decreases max - i,
    {
        let ghost before = views(head@);
        let x = items[i].clone();
        assert(x@ == views(items@)[i as int]);
        assert(head@.len() == i);
        head.push(x);
        assert(views(head@) =~= before.push(views(items@)[i as int]));
        assert(views(head@) =~= views(items@).take(i + 1));
        i = i + 1;
    }
    let mut s = join(&head, sep);
    s.append(" …(+");
    let rest = items.len() - max;
    s.append(decimal_string(rest as u64).as_str());
    s.append(")");
    s
}

/// The cell of people asked to look: `-` when there are none, else at most three.
pub open spec fn requested_text_spec(reviewers: Seq<Seq<char>>) -> Seq<char> {
    if reviewers.len() == 0 {
        "-"@
    } else {
        join_truncated_spec(reviewers, 3, ", "@)
    }
}

/// How one review is shown: `login:STATE`.
pub open spec fn review_text() -> spec_fn((Seq<char>, Seq<char>)) -> Seq<char> {
    |p: (Seq<char>, Seq<char>)| p.0 + ":"@ + p.1
}

/// The latest-reviews cell: `-` when there are none, else the last three,
/// oldest first, joined by ` | `.
pub open spec fn latest_text_spec(reviews: Seq<(Seq<char>, Seq<char>)>) -> Seq<char> {
    if reviews.len() == 0 {
        "-"@
    } else {
        let from = if reviews.len() < 3 {
            0
        } else {
            reviews.len() - 3
        };
        join_spec(reviews.skip(from).map_values(review_text()), " | "@)
    }
}

/// The cell of people asked to look, for a row.
pub fn requested_text(reviewers: &Vec<String>) -> (s: String)
    ensures
        s@ == requested_text_spec(views(reviewers@)),
{
    if reviewers.len() == 0 {
        String::from_str("-")
    } else {
        join_truncated(reviewers, 3, ", ")
    }
}

/// The latest-reviews cell of a row.
pub fn latest_text(reviews: &Vec<(String, String)>) -> (s: String)
    ensures
        s@ == latest_text_spec(pair_views(reviews@)),
{
    if reviews.len() == 0 {
        return String::from_str("-");
    }
    let from = if reviews.len() < 3 {
        0
    } else {
        reviews.len() - 3
    };
    let ghost shown = pair_views(reviews@).skip(from as int).map_values(review_text());
    let mut items: Vec<String> = Vec::new();
    let mut i = from;
    while i < reviews.len()
        invariant
            from <= i <= reviews.len(),
            shown == pair_views(reviews@).skip(from as int).map_values(review_text()),
            views(items@) == shown.take(i - from),
            items@.len() == i - from,
        decreases reviews.len() - i,
    {
        let mut item = reviews[i].0.clone();
        item.append(":");
        item.append(reviews[i].1.as_str());
        let ghost before = views(items@);
        assert(items@.len() == i - from);
        assert(item@ == review_text()(pair_views(reviews@)[i as int]));
        items.push(item);
        assert(views(items@) =~= before.push(item@));
        assert(shown[i - from] == review_text()(pair_views(reviews@)[i as int]));
        assert(views(items@) =~= shown.take(i + 1 - from));
        i = i + 1;
    }
    assert(shown.take(reviews.len() - from) =~= shown);
    join(&items, " | ")
}

/// The cells of a row of the pull-request overview: repository, number,
/// status, author, people asked to look, latest reviews.
pub fn overview_cells(row: &PrOverviewRow) -> (cells: Vec<String>)
    ensures
        views(cells@) == seq![
            row.repo@,
            decimal(row.number as nat),
            status_label(row.status),
            row.author@,
            requested_text_spec(views(row.requested_reviewers@)),
            latest_text_spec(pair_views(row.latest_reviews@)),
        ],
{
    let mut cells: Vec<String> = Vec::new();
    cells.push(row.repo.clone());
    cells.push(decimal_string(row.number));
    cells.push(String::from_str(row.status.as_str()));
    cells.push(row.author.clone());
    cells.push(requested_text(&row.requested_reviewers));
    cells.push(latest_text(&row.latest_reviews));
    assert(views(cells@) =~= seq![
        row.repo@,
        decimal(row.number as nat),
        status_label(row.status),
        row.author@,
        requested_text_spec(views(row.requested_reviewers@)),
        latest_text_spec(pair_views(row.latest_reviews@)),
    ]);
    cells
}

/// The cells of the repository table: the row number (from 1) and the address.
pub fn repo_rows(repos: &Vec<String>) -> (rows: Vec<(String, String)>)
    ensures
        rows@.len() == repos@.len(),
        forall|i: int|
            0 <= i < repos@.len() ==> (#[trigger] rows@[i]).0@ == decimal((i + 1) as nat)
                && rows@[i].1@ == repos@[i]@,
{
    let mut rows: Vec<(String, String)> = Vec::new();
    let mut i: usize = 0;
    while i < repos.len()
        invariant
            i <= repos.len(),
            rows@.len() == i,
            forall|k: int|
                0 <= k < i ==> (#[trigger] rows@[k]).0@ == decimal((k + 1) as nat) && rows@[k].1@
                    == repos@[k]@,
        decreases repos.len() - i,
    {
        let n = decimal_string((i as u64) + 1);
        rows.push((n, repos[i].clone()));
        i = i + 1;
    }
    rows
}

// ---------------------------------------------------------------------------
// Popups
// ---------------------------------------------------------------------------

/// The popup drawn over the tables.
#[derive(Debug, Clone, Copy, PartialEq, Eq, Structural)]
pub enum Popup {
    Nothing,
    AddRepo,
    Message,
}

/// The popup for each mode: the address field while adding, the message box
/// while confirming a deletion or showing an error.
pub open spec fn popup_spec(mode: Mode) -> Popup {
    match mode {
        Mode::AddingRepo => Popup::AddRepo,
        Mode::ConfirmDelete | Mode::ErrorPopup => Popup::Message,
        Mode::Normal => Popup::Nothing,
    }
}

/// The popup to draw in `mode`.
pub fn popup_for(mode: Mode) -> (p: Popup)
    ensures
        p == popup_spec(mode),
{
    match mode {
        Mode::AddingRepo => Popup::AddRepo,
        Mode::ConfirmDelete | Mode::ErrorPopup => Popup::Message,
        Mode::Normal => Popup::Nothing,
    }
}

/// The title of the message box in `mode`.
pub open spec fn message_title_spec(mode: Mode) -> Seq<char> {
    match mode {
        Mode::ConfirmDelete => "Confirm"@,
        Mode::ErrorPopup => "Error"@,
        _ => ""@,
    }
}

/// The title of the message box in `mode`.
pub fn message_title(mode: Mode) -> (t: &'static str)
    ensures
        t@ == message_title_spec(mode),
{
    match mode {
        Mode::ConfirmDelete => "Confirm",
        Mode::ErrorPopup => "Error",
        _ => "",
    }
}

// ---------------------------------------------------------------------------
// Popup placement
// ---------------------------------------------------------------------------

/// A rectangle of terminal cells: column, row, width and height.
#[derive(Debug, Clone, Copy, PartialEq, Eq, Structural)]
pub struct Area {
    pub x: u16,
    pub y: u16,
    pub width: u16,
    pub height: u16,
}

impl View for Area {
    type V = (u16, u16, u16, u16);

    open spec fn view(&self) -> (u16, u16, u16, u16) {
        (self.x, self.y, self.width, self.height)
    }
}

/// The direction in which an area is cut.
#[derive(Debug, Clone, Copy, PartialEq, Eq, Structural)]
pub enum Axis {
    Vertical,
    Horizontal,
}

/// The middle part that ratatui's layout solver gives when `area` is cut along
/// the axis (`vertical` or not) into parts of `outer`, `middle` and `outer`
/// percent, where the three percentages add up to at most 100.
pub uninterp spec fn layout_middle_part(
    vertical: bool,
    outer: u16,
    middle: u16,
    area: (u16, u16, u16, u16),
) -> (u16, u16, u16, u16);

/// Cuts `area` along `axis` into three parts of `outer`, `middle` and `outer`
/// percent with ratatui's `Layout::split`, and gives the middle part.
///
/// Trusted. With the default `Flex::Start` layout, when the percentages add
/// up to at most 100 every part gets exactly its percentage, the first spacer
/// is empty and the rest of the area goes to the last spacer: the constraints
/// have a single solution, so the middle part depends on these arguments
/// alone (larger percentages leave ties that the solver breaks in an order
/// that varies from run to run; they are excluded). The part keeps the
/// area's extent across the cut (ratatui's `changes_to_rects`). Where the
/// part starts and how long it is are not stated: ratatui computes them in
/// floating point and rounds twice.
#[verifier::external_body]
fn split_middle(axis: Axis, outer: u16, middle: u16, area: Area) -> (part: Area)
    requires
        2 * outer + middle <= 100,
    ensures
        part@ == layout_middle_part(axis == Axis::Vertical, outer, middle, area@),
        axis == Axis::Vertical ==> part.x == area.x && part.width == area.width,
        axis == Axis::Horizontal ==> part.y == area.y && part.height == area.height,
{
    let direction = match axis {
        Axis::Vertical => Direction::Vertical,
        Axis::Horizontal => Direction::Horizontal,
    };
    let rect = Rect { x: area.x, y: area.y, width: area.width, height: area.height };
    let parts = Layout::default().direction(direction).constraints(
        [Constraint::Percentage(outer), Constraint::Percentage(middle), Constraint::Percentage(outer)],
    ).split(rect);
    Area { x: parts[1].x, y: parts[1].y, width: parts[1].width, height: parts[1].height }
}

/// The area of `percent_x` by `percent_y` percent in the middle of `r`.
pub fn centered_rect(percent_x: u16, percent_y: u16, r: Area) -> (c: Area)
    requires
        percent_x <= 100,
        percent_y <= 100,
    ensures
        c.y == layout_middle_part(true, ((100 - percent_y) / 2) as u16, percent_y, r@).1,
        c.height == layout_middle_part(true, ((100 - percent_y) / 2) as u16, percent_y, r@).3,
        c@ == layout_middle_part(
            false,
            ((100 - percent_x) / 2) as u16,
            percent_x,
            layout_middle_part(true, ((100 - percent_y) / 2) as u16, percent_y, r@),
        ),
{
    let band = split_middle(Axis::Vertical, (100 - percent_y) / 2, percent_y, r);
    split_middle(Axis::Horizontal, (100 - percent_x) / 2, percent_x, band)
}

/// Past `max` items, the truncated list shows the first `max` items joined by
/// `sep`, then ` …(+`, the number of the items left out in decimal digits
/// without a leading zero, and `)`; up to `max` items, all of them joined.
#[verifier::rlimit(30)]
pub proof fn lemma_truncated_count(items: Seq<Seq<char>>, max: nat, sep: Seq<char>)
    ensures
        items.len() <= max ==> join_truncated_spec(items, max, sep) == join_spec(items, sep),
        items.len() > max ==> exists|count: Seq<char>|
            {
                &&& join_truncated_spec(items, max, sep) == join_spec(items.take(max as int), sep)
                    + " …(+"@ + count + ")"@
                &&& count.len() > 0
                &&& forall|i: int| 0 <= i < count.len() ==> '0' <= #[trigger] count[i] <= '9'
                &&& count.len() > 1 ==> count[0] != '0'
                &&& digits_value(count) == items.len() - max
            },
{
    if items.len() > max {
        let count = decimal((items.len() - max) as nat);
        lemma_decimal_writes((items.len() - max) as nat);
        assert(join_truncated_spec(items, max, sep) == join_spec(items.take(max as int), sep)
            + " …(+"@ + count + ")"@);
    }
}

proof fn lemma_join_first_three(names: Seq<Seq<char>>, sep: Seq<char>)
    requires
        names.len() >= 3,
    ensures
        join_spec(names.take(3), sep) =~= names[0] + sep + names[1] + sep + names[2],
{
    let h = names.take(3);
    assert(h.drop_last().drop_last().len() == 1);
    assert(join_spec(h.drop_last().drop_last(), sep) == names[0]);
    assert(join_spec(h.drop_last(), sep) == join_spec(h.drop_last().drop_last(), sep) + sep
        + names[1]);
    assert(join_spec(h, sep) == join_spec(h.drop_last(), sep) + sep + names[2]);
}

/// The cell of people asked to look: `-` for nobody; up to three names, all
/// of them in order, separated by `, `; past three, the first three and the
/// number of the others.
#[verifier::rlimit(30)]
pub proof fn lemma_requested_cell(names: Seq<Seq<char>>)
    ensures
        names.len() == 0 ==> requested_text_spec(names) == "-"@,
        names.len() == 1 ==> requested_text_spec(names) == names[0],
        names.len() == 2 ==> requested_text_spec(names) == names[0] + ", "@ + names[1],
        names.len() >= 3 ==> exists|rest: Seq<char>|
            {
                &&& requested_text_spec(names) == names[0] + ", "@ + names[1] + ", "@ + names[2]
                    + rest
                &&& names.len() == 3 ==> rest.len() == 0
                &&& names.len() > 3 ==> exists|count: Seq<char>|
                    {
                        &&& rest == " …(+"@ + count + ")"@
                        &&& count.len() > 0
                        &&& forall|i: int|
                            0 <= i < count.len() ==> '0' <= #[trigger] count[i] <= '9'
                        &&& digits_value(count) == names.len() - 3
                    }
            },
{
    let n = names.len();
    if n == 2 {
        assert(names.drop_last().len() == 1);
        assert(join_spec(names, ", "@) == join_spec(names.drop_last(), ", "@) + ", "@ + names[1]);
    } else if n >= 3 {
        lemma_join_first_three(names, ", "@);
        let head = names[0] + ", "@ + names[1] + ", "@ + names[2];
        if n == 3 {
            assert(names.take(3) =~= names);
            assert(requested_text_spec(names) =~= head + Seq::<char>::empty());
        } else {
            let count = decimal((n - 3) as nat);
            lemma_decimal_writes((n - 3) as nat);
            let rest = " …(+"@ + count + ")"@;
            assert(requested_text_spec(names) == join_spec(names.take(3), ", "@) + rest);
            assert(requested_text_spec(names) =~= head + rest);
        }
    }
}

/// The latest-reviews cell: `-` for no reviews; otherwise the last three
/// reviews (all of them when there are fewer), oldest first, each as
/// `login:STATE`, separated by ` | `.
#[verifier::rlimit(30)]
pub proof fn lemma_latest_cell(reviews: Seq<(Seq<char>, Seq<char>)>)
    ensures
        reviews.len() == 0 ==> latest_text_spec(reviews) == "-"@,
        reviews.len() == 1 ==> latest_text_spec(reviews) == reviews[0].0 + ":"@ + reviews[0].1,
        reviews.len() == 2 ==> latest_text_spec(reviews) == reviews[0].0 + ":"@ + reviews[0].1
            + " | "@ + reviews[1].0 + ":"@ + reviews[1].1,
        reviews.len() >= 3 ==> ({
            let n = reviews.len() as int;
            latest_text_spec(reviews) == reviews[n - 3].0 + ":"@ + reviews[n - 3].1 + " | "@
                + reviews[n - 2].0 + ":"@ + reviews[n - 2].1 + " | "@ + reviews[n - 1].0 + ":"@
                + reviews[n - 1].1
        }),
{
    let n = reviews.len() as int;
    if n > 0 {
        let from = if n < 3 { 0 } else { n - 3 };
        let shown = reviews.skip(from).map_values(review_text());
        assert(shown.len() == n - from);
        if shown.len() == 1 {
            assert(shown[0] == review_text()(reviews[from]));
        } else if shown.len() == 2 {
            assert(shown.drop_last().len() == 1);
            assert(join_spec(shown.drop_last(), " | "@) == shown[0]);
            assert(shown[0] == review_text()(reviews[from]));
            assert(shown[1] == review_text()(reviews[from + 1]));
            assert(join_spec(shown, " | "@) == shown[0] + " | "@ + shown[1]);
            assert(shown[0] + " | "@ + shown[1] =~= reviews[0].0 + ":"@ + reviews[0].1 + " | "@
                + reviews[1].0 + ":"@ + reviews[1].1);
        } else {
            let s2 = shown.drop_last();
            assert(s2.len() == 2);
            assert(s2.drop_last().len() == 1);
            assert(join_spec(s2.drop_last(), " | "@) == shown[0]);
            assert(join_spec(s2, " | "@) == shown[0] + " | "@ + shown[1]);
            assert(join_spec(shown, " | "@) == shown[0] + " | "@ + shown[1] + " | "@ + shown[2]);
            assert(shown[0] == review_text()(reviews[n - 3]));
            assert(shown[1] == review_text()(reviews[n - 2]));
            assert(shown[2] == review_text()(reviews[n - 1]));
            assert(shown[0] + " | "@ + shown[1] + " | "@ + shown[2] =~= reviews[n - 3].0 + ":"@
                + reviews[n - 3].1 + " | "@ + reviews[n - 2].0 + ":"@ + reviews[n - 2].1
                + " | "@ + reviews[n - 1].0 + ":"@ + reviews[n - 1].1);
        }
    }
}

} // verus!
