//! GitHub's answer to the open-pull-requests query, and the overview rows
//! that the library draws from it.
use vstd::prelude::*;
use vstd::string::StringExecFns;

use crate::text::{join, join_spec, str_eq, views};

verus! {

broadcast use vstd::seq_lib::group_seq_properties;

// ---------------------------------------------------------------------------
// Review status
// ---------------------------------------------------------------------------

/// The review state of a pull request.
#[derive(Debug, Clone, Copy, PartialEq, Eq, Structural)]
pub enum ReviewStatus {
    Approved,
    ChangesRequested,
    ReviewRequired,
    NotReviewed,
    Unknown,
}

/// The status for GitHub's `reviewDecision`, and whether someone was asked to look.
pub open spec fn status_spec(decision: Option<Seq<char>>, requested: bool) -> ReviewStatus {
    match decision {
        Some(d) => if d == "APPROVED"@ {
            ReviewStatus::Approved
        } else if d == "CHANGES_REQUESTED"@ {
            ReviewStatus::ChangesRequested
        } else if d == "REVIEW_REQUIRED"@ {
            ReviewStatus::ReviewRequired
        } else {
            ReviewStatus::Unknown
        },
        None => if requested {
            ReviewStatus::ReviewRequired
        } else {
            ReviewStatus::NotReviewed
        },
    }
}

/// The label shown for a status.
pub open spec fn status_label(s: ReviewStatus) -> Seq<char> {
    match s {
        ReviewStatus::Approved => "APPROVED"@,
        ReviewStatus::ChangesRequested => "CHANGES_REQUESTED"@,
        ReviewStatus::ReviewRequired => "REVIEW_REQUIRED"@,
        ReviewStatus::NotReviewed => "NOT_REVIEWED"@,
        ReviewStatus::Unknown => "UNKNOWN"@,
    }
}

/// The characters of an optional string slice.
pub open spec fn opt_str_view(o: Option<&str>) -> Option<Seq<char>> {
    match o {
        Some(s) => Some(s@),
        None => None,
    }
}

/// The characters of an optional string.
pub open spec fn opt_view(o: Option<String>) -> Option<Seq<char>> {
    match o {
        Some(s) => Some(s@),
        None => None,
    }
}

impl ReviewStatus {
    /// The status for GitHub's `reviewDecision`; when GitHub gives none, a
    /// pull request that names people asked to look is still waiting.
    pub fn from_review_decision(decision: Option<&str>, requested_reviewers_nonempty: bool) -> (s:
        Self)
        ensures
            s == status_spec(opt_str_view(decision), requested_reviewers_nonempty),
    {
        match decision {
            Some(d) => {
                if str_eq(d, "APPROVED") {
                    ReviewStatus::Approved
                } else if str_eq(d, "CHANGES_REQUESTED") {
                    ReviewStatus::ChangesRequested
                } else if str_eq(d, "REVIEW_REQUIRED") {
                    ReviewStatus::ReviewRequired
                } else {
                    ReviewStatus::Unknown
                }
            },
            None => {
                if requested_reviewers_nonempty {
                    ReviewStatus::ReviewRequired
                } else {
                    ReviewStatus::NotReviewed
                }
            },
        }
    }

    /// The label shown for this status.
    pub fn as_str(&self) -> (s: &'static str)
        ensures
            s@ == status_label(*self),
    {
        match self {
            ReviewStatus::Approved => "APPROVED",
            ReviewStatus::ChangesRequested => "CHANGES_REQUESTED",
            ReviewStatus::ReviewRequired => "REVIEW_REQUIRED",
            ReviewStatus::NotReviewed => "NOT_REVIEWED",
            ReviewStatus::Unknown => "UNKNOWN",
        }
    }
}

/// The label of the status read from a known decision is that decision.
pub proof fn lemma_known_decision_round_trip(decision: Seq<char>, requested: bool)
    requires
        decision == "APPROVED"@ || decision == "CHANGES_REQUESTED"@ || decision
            == "REVIEW_REQUIRED"@,
    ensures
        status_label(status_spec(Some(decision), requested)) == decision,
{
}

// ---------------------------------------------------------------------------
// The answer to the query
// ---------------------------------------------------------------------------

/// A GraphQL answer: data, errors, or both.
#[derive(Debug)]
pub struct GraphQlResponse<T> {
    pub data: Option<T>,
    pub errors: Option<Vec<GraphQlError>>,
}

/// One error of a GraphQL answer.
#[derive(Debug)]
pub struct GraphQlError {
    pub message: String,
}

/// The data of the open-pull-requests query.
#[derive(Debug)]
pub struct RepoOpenPrsData {
    pub repository: Option<Repository>,
}

/// A repository and its open pull requests.
#[derive(Debug)]
pub struct Repository {
    pub name_with_owner: String,
    pub pull_requests: PullRequestConnection,
}

#[derive(Debug)]
pub struct PullRequestConnection {
    pub nodes: Option<Vec<PullRequestNode>>,
}

/// One open pull request.
#[derive(Debug)]
pub struct PullRequestNode {
    pub number: u64,
    pub title: String,
    pub url: String,
    pub author: Option<UserLike>,
    pub review_decision: Option<String>,
    pub review_requests: ReviewRequestConnection,
    pub reviews: ReviewConnection,
}

/// An actor that may have a login.
#[derive(Debug)]
pub struct UserLike {
    pub login: Option<String>,
}

#[derive(Debug)]
pub struct ReviewRequestConnection {
    pub nodes: Option<Vec<ReviewRequestNode>>,
}

#[derive(Debug)]
pub struct ReviewRequestNode {
    pub requested_reviewer: Option<RequestedReviewer>,
}

/// Someone asked to look at a pull request: a user (with a login) or a team (with a name).
#[derive(Debug)]
pub struct RequestedReviewer {
    pub login: Option<String>,
    pub name: Option<String>,
    pub typename_: String,
}

#[derive(Debug)]
pub struct ReviewConnection {
    pub nodes: Option<Vec<ReviewNode>>,
}

/// A submitted review: its state and its author.
#[derive(Debug)]
pub struct ReviewNode {
    pub state: String,
    pub author: Option<UserLike>,
}

// ---------------------------------------------------------------------------
// Overview rows
// ---------------------------------------------------------------------------

/// One row of the pull-request overview.
#[derive(Debug, Clone)]
pub struct PrOverviewRow {
    pub repo: String,
    pub number: u64,
    pub title: String,
    pub url: String,
    pub status: ReviewStatus,
    pub author: String,
    pub requested_reviewers: Vec<String>,
    pub latest_reviews: Vec<(String, String)>,
}

/// The abstract content of an overview row.
pub struct PrRowView {
    pub repo: Seq<char>,
    pub number: u64,
    pub title: Seq<char>,
    pub url: Seq<char>,
    pub status: ReviewStatus,
    pub author: Seq<char>,
    pub requested_reviewers: Seq<Seq<char>>,
    pub latest_reviews: Seq<(Seq<char>, Seq<char>)>,
}

/// The characters of a sequence of string pairs.
pub open spec fn pair_views(v: Seq<(String, String)>) -> Seq<(Seq<char>, Seq<char>)> {
    v.map_values(|p: (String, String)| (p.0@, p.1@))
}

impl View for PrOverviewRow {
    type V = PrRowView;

    open spec fn view(&self) -> PrRowView {
        PrRowView {
            repo: self.repo@,
            number: self.number,
            title: self.title@,
            url: self.url@,
            status: self.status,
            author: self.author@,
            requested_reviewers: views(self.requested_reviewers@),
            latest_reviews: pair_views(self.latest_reviews@),
        }
    }
}

/// The abstract contents of a sequence of rows.
pub open spec fn row_views(v: Seq<PrOverviewRow>) -> Seq<PrRowView> {
    v.map_values(|r: PrOverviewRow| r@)
}

/// The elements of an optional list (none when absent).
pub open spec fn nodes_of<T>(o: Option<Vec<T>>) -> Seq<T> {
    match o {
        Some(v) => v@,
        None => Seq::empty(),
    }
}

/// A string, or `unknown` when absent.
pub open spec fn or_unknown(o: Option<String>) -> Seq<char> {
    match o {
        Some(s) => s@,
        None => "unknown"@,
    }
}

/// The login of an actor, or `unknown`.
pub open spec fn login_of(u: Option<UserLike>) -> Seq<char> {
    match u {
        Some(a) => or_unknown(a.login),
        None => "unknown"@,
    }
}

/// How the person asked to look is shown: a user by login, a team as `team:NAME`.
pub open spec fn reviewer_label(r: RequestedReviewer) -> Seq<char> {
    if r.typename_@ == "User"@ {
        or_unknown(r.login)
    } else if r.typename_@ == "Team"@ {
        "team:"@ + or_unknown(r.name)
    } else {
        "unknown"@
    }
}

/// The label of a request node that names someone.
pub open spec fn request_label() -> spec_fn(ReviewRequestNode) -> Option<Seq<char>> {
    |n: ReviewRequestNode|
        match n.requested_reviewer {
            Some(r) => Some(reviewer_label(r)),
            None => None,
        }
}

/// The people asked to look at a pull request, in the order given.
pub open spec fn requested_spec(pr: PullRequestNode) -> Seq<Seq<char>> {
    nodes_of(pr.review_requests.nodes).filter_map(request_label())
}

/// A review as (author login, state).
pub open spec fn review_pair() -> spec_fn(ReviewNode) -> (Seq<char>, Seq<char>) {
    |r: ReviewNode| (login_of(r.author), r.state@)
}

/// The reviews of a pull request, in the order given.
pub open spec fn reviews_spec(pr: PullRequestNode) -> Seq<(Seq<char>, Seq<char>)> {
    nodes_of(pr.reviews.nodes).map_values(review_pair())
}

/// The overview row of the pull request `pr` of repository `repo`.
pub open spec fn row_spec(repo: Seq<char>, pr: PullRequestNode) -> PrRowView {
    PrRowView {
        repo,
        number: pr.number,
        title: pr.title@,
        url: pr.url@,
        status: status_spec(opt_view(pr.review_decision), requested_spec(pr).len() > 0),
        author: login_of(pr.author),
        requested_reviewers: requested_spec(pr),
        latest_reviews: reviews_spec(pr),
    }
}

/// The row of each pull request of repository `repo`.
pub open spec fn row_maker(repo: Seq<char>) -> spec_fn(PullRequestNode) -> PrRowView {
    |pr: PullRequestNode| row_spec(repo, pr)
}

/// The messages of the errors of an answer.
pub open spec fn messages(errors: Seq<GraphQlError>) -> Seq<Seq<char>> {
    errors.map_values(|e: GraphQlError| e.message@)
}

/// The rows for an answer, or the reason there are none: the answer's errors
/// joined by `; `, or the repository missing.
pub open spec fn rows_spec(resp: GraphQlResponse<RepoOpenPrsData>) -> Result<
    Seq<PrRowView>,
    Seq<char>,
> {
    match resp.errors {
        Some(errors) => Err(join_spec(messages(errors@), "; "@)),
        None => match resp.data {
            Some(d) => match d.repository {
                Some(repo) => Ok(
                    nodes_of(repo.pull_requests.nodes).map_values(row_maker(repo.name_with_owner@)),
                ),
                None => Err("Repository not found or inaccessible"@),
            },
            None => Err("Repository not found or inaccessible"@),
        },
    }
}

fn clone_or_unknown(o: &Option<String>) -> (s: String)
    ensures
        s@ == or_unknown(*o),
{
    match o {
        Some(s) => s.clone(),
        None => String::from_str("unknown"),
    }
}

fn login_string(u: &Option<UserLike>) -> (s: String)
    ensures
        s@ == login_of(*u),
{
    match u {
        Some(a) => clone_or_unknown(&a.login),
        None => String::from_str("unknown"),
    }
}

fn reviewer_string(r: &RequestedReviewer) -> (s: String)
    ensures
        s@ == reviewer_label(*r),
{
    if str_eq(r.typename_.as_str(), "User") {
        clone_or_unknown(&r.login)
    } else if str_eq(r.typename_.as_str(), "Team") {
        let mut s = String::from_str("team:");
        let n = clone_or_unknown(&r.name);
        s.append(n.as_str());
        s
    } else {
        String::from_str("unknown")
    }
}

fn requested_strings(pr: &PullRequestNode) -> (v: Vec<String>)
    ensures
        views(v@) == requested_spec(*pr),
{
    let mut v: Vec<String> = Vec::new();
    match &pr.review_requests.nodes {
        None => {
            assert(views(v@) =~= Seq::<Seq<char>>::empty());
        },
        Some(nodes) => {
            let mut i: usize = 0;
            assert(nodes@.take(0) =~= Seq::<ReviewRequestNode>::empty());
            while i < nodes.len()
                invariant
                    i <= nodes.len(),
                    views(v@) == nodes@.take(i as int).filter_map(request_label()),
                decreases nodes.len() - i,
            {
                proof {
                    nodes@.lemma_filter_map_take_succ(request_label(), i as int);
                }
                let ghost before = views(v@);
                match &nodes[i].requested_reviewer {
                    Some(r) => {
                        let s = reviewer_string(r);
                        v.push(s);
                        assert(views(v@) =~= before + seq![reviewer_label(*r)]);
                    },
                    None => {},
                }
                i = i + 1;
            }
            assert(nodes@.take(nodes@.len() as int) =~= nodes@);
        },
    }
    v
}

fn review_pairs(pr: &PullRequestNode) -> (v: Vec<(String, String)>)
    ensures
        pair_views(v@) == reviews_spec(*pr),
{
    let mut v: Vec<(String, String)> = Vec::new();
    match &pr.reviews.nodes {
        None => {
            assert(pair_views(v@) =~= reviews_spec(*pr));
        },
        Some(nodes) => {
            let mut i: usize = 0;
            while i < nodes.len()
                invariant
                    i <= nodes.len(),
                    pair_views(v@) == nodes@.take(i as int).map_values(review_pair()),
                decreases nodes.len() - i,
            {
                let ghost before = pair_views(v@);
                let who = login_string(&nodes[i].author);
                let state = nodes[i].state.clone();
                assert(who@ == login_of(nodes@[i as int].author));
                assert(state@ == nodes@[i as int].state@);
                v.push((who, state));
                assert(nodes@.take(i + 1) =~= nodes@.take(i as int).push(nodes@[i as int]));
                assert(pair_views(v@) =~= before.push(review_pair()(nodes@[i as int])));
                assert(pair_views(v@) =~= nodes@.take(i + 1).map_values(review_pair()));
                i = i + 1;
            }
            assert(nodes@.take(nodes@.len() as int) =~= nodes@);
        },
    }
    v
}

fn overview_row(repo: &String, pr: &PullRequestNode) -> (row: PrOverviewRow)
    ensures
        row@ == row_spec(repo@, *pr),
{
    let author = login_string(&pr.author);
    let requested_reviewers = requested_strings(pr);
    let requested_nonempty = requested_reviewers.len() > 0;
    let status = match &pr.review_decision {
        Some(d) => ReviewStatus::from_review_decision(Some(d.as_str()), requested_nonempty),
        None => ReviewStatus::from_review_decision(None, requested_nonempty),
    };
    let latest_reviews = review_pairs(pr);
    PrOverviewRow {
        repo: repo.clone(),
        number: pr.number,
        title: pr.title.clone(),
        url: pr.url.clone(),
        status,
        author,
        requested_reviewers,
        latest_reviews,
    }
}

fn error_text(errors: &Vec<GraphQlError>) -> (s: String)
    ensures
        s@ == join_spec(messages(errors@), "; "@),
{
    let mut msgs: Vec<String> = Vec::new();
    let mut i: usize = 0;
    while i < errors.len()
        invariant
            i <= errors.len(),
            views(msgs@) == messages(errors@.take(i as int)),
        decreases errors.len() - i,
    {
        let ghost before = views(msgs@);
        let m = errors[i].message.clone();
        assert(m@ == errors@[i as int].message@);
        msgs.push(m);
        assert(errors@.take(i + 1) =~= errors@.take(i as int).push(errors@[i as int]));
        assert(views(msgs@) =~= before.push(errors@[i as int].message@));
        assert(views(msgs@) =~= messages(errors@.take(i + 1)));
        i = i + 1;
    }
    assert(errors@.take(errors@.len() as int) =~= errors@);
    join(&msgs, "; ")
}

/// The overview rows for GitHub's answer to the open-pull-requests query of
/// one repository, or the reason there are none.
pub fn rows_from_response(resp: &GraphQlResponse<RepoOpenPrsData>) -> (res: Result<
    Vec<PrOverviewRow>,
    String,
>)
    ensures
        match res {
            Ok(rows) => rows_spec(*resp) == Ok::<Seq<PrRowView>, Seq<char>>(row_views(rows@)),
            Err(e) => rows_spec(*resp) == Err::<Seq<PrRowView>, Seq<char>>(e@),
        },
{
    if let Some(errors) = &resp.errors {
        return Err(error_text(errors));
    }
    let repo = match &resp.data {
        Some(d) => match &d.repository {
            Some(r) => r,
            None => {
                return Err(String::from_str("Repository not found or inaccessible"));
            },
        },
        None => {
            return Err(String::from_str("Repository not found or inaccessible"));
        },
    };
    let mut rows: Vec<PrOverviewRow> = Vec::new();
    match &repo.pull_requests.nodes {
        None => {
            assert(row_views(rows@) =~= nodes_of(repo.pull_requests.nodes).map_values(
                row_maker(repo.name_with_owner@),
            ));
        },
        Some(nodes) => {
            let mut i: usize = 0;
            while i < nodes.len()
                invariant
                    i <= nodes.len(),
                    row_views(rows@) == nodes@.take(i as int).map_values(
                        row_maker(repo.name_with_owner@),
                    ),
                decreases nodes.len() - i,
            {
                let ghost before = row_views(rows@);
                let row = overview_row(&repo.name_with_owner, &nodes[i]);
                let ghost rv = row@;
                assert(rows@.len() == before.len());
                rows.push(row);
                assert(row_views(rows@) =~= before.push(rv));
                assert(nodes@.take(i + 1) =~= nodes@.take(i as int).push(nodes@[i as int]));
                i = i + 1;
            }
            assert(nodes@.take(nodes@.len() as int) =~= nodes@);
        },
    }
    Ok(rows)
}

/// With no `reviewDecision`, a row's status is REVIEW_REQUIRED exactly when
/// someone was asked to look (the row lists them) and NOT_REVIEWED otherwise;
/// submitted reviews play no part in it.
pub proof fn lemma_undecided_status(repo: Seq<char>, pr: PullRequestNode, reviews: ReviewConnection)
    requires
        pr.review_decision is None,
    ensures
        row_spec(repo, pr).requested_reviewers.len() > 0 ==> row_spec(repo, pr).status
            == ReviewStatus::ReviewRequired,
        row_spec(repo, pr).requested_reviewers.len() == 0 ==> row_spec(repo, pr).status
            == ReviewStatus::NotReviewed,
        row_spec(repo, PullRequestNode { reviews, ..pr }).status == row_spec(repo, pr).status,
        row_spec(repo, PullRequestNode { reviews, ..pr }).requested_reviewers == row_spec(
            repo,
            pr,
        ).requested_reviewers,
{
}

/// With a `reviewDecision`, a row's status follows it: `APPROVED`,
/// `CHANGES_REQUESTED` and `REVIEW_REQUIRED` give those statuses, anything else
/// UNKNOWN, whoever was asked to look.
pub proof fn lemma_decided_status(repo: Seq<char>, pr: PullRequestNode)
    requires
        pr.review_decision is Some,
    ensures
        ({
            let d = pr.review_decision->0@;
            let s = row_spec(repo, pr).status;
            &&& d == "APPROVED"@ ==> s == ReviewStatus::Approved
            &&& d == "CHANGES_REQUESTED"@ ==> s == ReviewStatus::ChangesRequested
            &&& d == "REVIEW_REQUIRED"@ ==> s == ReviewStatus::ReviewRequired
            &&& (d != "APPROVED"@ && d != "CHANGES_REQUESTED"@ && d != "REVIEW_REQUIRED"@) ==> s
                == ReviewStatus::Unknown
        }),
{
    reveal_strlit("APPROVED");
    reveal_strlit("CHANGES_REQUESTED");
    reveal_strlit("REVIEW_REQUIRED");
    assert("APPROVED"@ != "CHANGES_REQUESTED"@) by {
        assert("APPROVED"@.len() != "CHANGES_REQUESTED"@.len());
    }
    assert("APPROVED"@ != "REVIEW_REQUIRED"@) by {
        assert("APPROVED"@.len() != "REVIEW_REQUIRED"@.len());
    }
    assert("CHANGES_REQUESTED"@ != "REVIEW_REQUIRED"@) by {
        assert("CHANGES_REQUESTED"@[0] != "REVIEW_REQUIRED"@[0]);
    }
}

proof fn lemma_requests_all_named(nodes: Seq<ReviewRequestNode>)
    requires
        forall|i: int| 0 <= i < nodes.len() ==> (#[trigger] nodes[i]).requested_reviewer is Some,
    ensures
        nodes.filter_map(request_label()).len() == nodes.len(),
        forall|i: int|
            0 <= i < nodes.len() ==> nodes.filter_map(request_label())[i] == reviewer_label(
                (#[trigger] nodes[i]).requested_reviewer->0,
            ),
    decreases nodes.len(),
{
    if nodes.len() > 0 {
        let rest = nodes.drop_last();
        assert forall|i: int| 0 <= i < rest.len() implies (#[trigger] rest[i]).requested_reviewer is Some by {
            assert(rest[i] == nodes[i]);
        }
        lemma_requests_all_named(rest);
        assert(nodes.last().requested_reviewer is Some);
        assert(nodes.filter_map(request_label()) == rest.filter_map(request_label()) + seq![
            reviewer_label(nodes.last().requested_reviewer->0),
        ]);
        assert forall|i: int| 0 <= i < nodes.len() implies nodes.filter_map(request_label())[i]
            == reviewer_label((#[trigger] nodes[i]).requested_reviewer->0) by {
            if i < rest.len() {
                assert(rest[i] == nodes[i]);
            }
        }
    }
}

proof fn lemma_requests_none_named(nodes: Seq<ReviewRequestNode>)
    requires
        forall|i: int| 0 <= i < nodes.len() ==> (#[trigger] nodes[i]).requested_reviewer is None,
    ensures
        nodes.filter_map(request_label()).len() == 0,
    decreases nodes.len(),
{
    if nodes.len() > 0 {
        let rest = nodes.drop_last();
        assert forall|i: int| 0 <= i < rest.len() implies (#[trigger] rest[i]).requested_reviewer is None by {
            assert(rest[i] == nodes[i]);
        }
        lemma_requests_none_named(rest);
        assert(nodes.last().requested_reviewer is None);
    }
}

/// What a row shows of its pull request: the repository it was asked for, the
/// pull request's number, title and address; its author's login (`unknown`
/// when GitHub gives none); each submitted review, in the order given, as its
/// author's login (or `unknown`) and its state; and, when every request
/// names someone, each of them in the order given, a user by login (or
/// `unknown`) and a team as `team:` and its name (or `unknown`). When no
/// request names anyone, nobody is listed.
#[verifier::rlimit(30)]
pub proof fn lemma_row_contents(repo: Seq<char>, pr: PullRequestNode)
    ensures
        ({
            let r = row_spec(repo, pr);
            let requests = nodes_of(pr.review_requests.nodes);
            let reviews = nodes_of(pr.reviews.nodes);
            &&& r.repo == repo
            &&& r.number == pr.number
            &&& r.title == pr.title@
            &&& r.url == pr.url@
            &&& (pr.author is Some && pr.author->0.login is Some) ==> r.author
                == pr.author->0.login->0@
            &&& !(pr.author is Some && pr.author->0.login is Some) ==> r.author == "unknown"@
            &&& r.latest_reviews.len() == reviews.len()
            &&& forall|i: int|
                0 <= i < reviews.len() ==> {
                    &&& (#[trigger] r.latest_reviews[i]).1 == reviews[i].state@
                    &&& (reviews[i].author is Some && reviews[i].author->0.login is Some)
                        ==> r.latest_reviews[i].0 == reviews[i].author->0.login->0@
                    &&& !(reviews[i].author is Some && reviews[i].author->0.login is Some)
                        ==> r.latest_reviews[i].0 == "unknown"@
                }
            &&& (forall|i: int| 0 <= i < requests.len() ==> (#[trigger] requests[i]).requested_reviewer is None)
                ==> r.requested_reviewers.len() == 0
            &&& (forall|i: int| 0 <= i < requests.len() ==> (#[trigger] requests[i]).requested_reviewer is Some)
                ==> {
                &&& r.requested_reviewers.len() == requests.len()
                &&& forall|i: int|
                    0 <= i < requests.len() ==> {
                        let who = (#[trigger] requests[i]).requested_reviewer->0;
                        &&& (who.typename_@ == "User"@ && who.login is Some)
                            ==> r.requested_reviewers[i] == who.login->0@
                        &&& (who.typename_@ == "Team"@ && who.name is Some)
                            ==> r.requested_reviewers[i] == "team:"@ + who.name->0@
                    }
            }
        }),
{
    let requests = nodes_of(pr.review_requests.nodes);
    if forall|i: int| 0 <= i < requests.len() ==> (#[trigger] requests[i]).requested_reviewer is None {
        lemma_requests_none_named(requests);
    }
    if forall|i: int| 0 <= i < requests.len() ==> (#[trigger] requests[i]).requested_reviewer is Some {
        lemma_requests_all_named(requests);
        assert forall|i: int| 0 <= i < requests.len() implies ({
            let who = (#[trigger] requests[i]).requested_reviewer->0;
            &&& (who.typename_@ == "User"@ && who.login is Some)
                ==> row_spec(repo, pr).requested_reviewers[i] == who.login->0@
            &&& (who.typename_@ == "Team"@ && who.name is Some)
                ==> row_spec(repo, pr).requested_reviewers[i] == "team:"@ + who.name->0@
        }) by {
            let who = requests[i].requested_reviewer->0;
            reveal_strlit("User");
            reveal_strlit("Team");
            if who.typename_@ == "Team"@ {
                assert("Team"@ != "User"@) by {
                    assert("Team"@[0] != "User"@[0]);
                }
            }
        }
    }
}

/// The rows of an answer: with errors, the error is their messages joined by
/// `; `; without errors and with the repository, one row per pull request,
/// in the order given, each for the repository's `nameWithOwner`; otherwise
/// the repository was not found.
pub proof fn lemma_rows_per_pr(resp: GraphQlResponse<RepoOpenPrsData>)
    ensures
        resp.errors matches Some(es) ==> ({
            let ms = messages(es@);
            &&& ms.len() == es@.len()
            &&& forall|i: int| 0 <= i < es@.len() ==> #[trigger] ms[i] == es@[i].message@
            &&& rows_spec(resp) == Err::<Seq<PrRowView>, Seq<char>>(join_spec(ms, "; "@))
        }),
        (resp.errors is None && resp.data is Some && resp.data->0.repository is Some) ==> ({
            let repo = resp.data->0.repository->0;
            let prs = nodes_of(repo.pull_requests.nodes);
            &&& rows_spec(resp) is Ok
            &&& rows_spec(resp)->Ok_0.len() == prs.len()
            &&& forall|i: int|
                0 <= i < prs.len() ==> #[trigger] rows_spec(resp)->Ok_0[i] == row_spec(
                    repo.name_with_owner@,
                    prs[i],
                )
        }),
        (resp.errors is None && !(resp.data is Some && resp.data->0.repository is Some))
            ==> rows_spec(resp) == Err::<Seq<PrRowView>, Seq<char>>(
            "Repository not found or inaccessible"@,
        ),
{
}

} // verus!
