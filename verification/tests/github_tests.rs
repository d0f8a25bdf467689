use gh_pr_tui::github::{
    rows_from_response, GraphQlError, GraphQlResponse, PullRequestConnection, PullRequestNode,
    RepoOpenPrsData, Repository, RequestedReviewer, ReviewConnection, ReviewNode,
    ReviewRequestConnection, ReviewRequestNode, ReviewStatus, UserLike,
};

fn user(login: Option<&str>) -> Option<UserLike> {
    Some(UserLike { login: login.map(|s| s.to_string()) })
}

fn reviewer(typename: &str, login: Option<&str>, name: Option<&str>) -> ReviewRequestNode {
    ReviewRequestNode {
        requested_reviewer: Some(RequestedReviewer {
            login: login.map(|s| s.to_string()),
            name: name.map(|s| s.to_string()),
            typename_: typename.to_string(),
        }),
    }
}

fn pr(number: u64, decision: Option<&str>, requests: Vec<ReviewRequestNode>, reviews: Option<Vec<ReviewNode>>) -> PullRequestNode {
    PullRequestNode {
        number,
        title: format!("PR {number}"),
        url: format!("https://github.com/o/r/pull/{number}"),
        author: user(Some("alice")),
        review_decision: decision.map(|s| s.to_string()),
        review_requests: ReviewRequestConnection { nodes: Some(requests) },
        reviews: ReviewConnection { nodes: reviews },
    }
}

fn answer(nodes: Option<Vec<PullRequestNode>>) -> GraphQlResponse<RepoOpenPrsData> {
    GraphQlResponse {
        data: Some(RepoOpenPrsData {
            repository: Some(Repository {
                name_with_owner: "o/r".to_string(),
                pull_requests: PullRequestConnection { nodes },
            }),
        }),
        errors: None,
    }
}

#[test]
fn status_from_decision() {
    assert_eq!(ReviewStatus::from_review_decision(Some("APPROVED"), false), ReviewStatus::Approved);
    assert_eq!(
        ReviewStatus::from_review_decision(Some("CHANGES_REQUESTED"), true),
        ReviewStatus::ChangesRequested
    );
    assert_eq!(
        ReviewStatus::from_review_decision(Some("REVIEW_REQUIRED"), false),
        ReviewStatus::ReviewRequired
    );
    assert_eq!(ReviewStatus::from_review_decision(Some("approved"), false), ReviewStatus::Unknown);
    assert_eq!(ReviewStatus::from_review_decision(None, true), ReviewStatus::ReviewRequired);
    assert_eq!(ReviewStatus::from_review_decision(None, false), ReviewStatus::NotReviewed);
}

#[test]
fn status_labels() {
    assert_eq!(ReviewStatus::Approved.as_str(), "APPROVED");
    assert_eq!(ReviewStatus::ChangesRequested.as_str(), "CHANGES_REQUESTED");
    assert_eq!(ReviewStatus::ReviewRequired.as_str(), "REVIEW_REQUIRED");
    assert_eq!(ReviewStatus::NotReviewed.as_str(), "NOT_REVIEWED");
    assert_eq!(ReviewStatus::Unknown.as_str(), "UNKNOWN");
}

#[test]
fn known_decisions_round_trip() {
    for d in ["APPROVED", "CHANGES_REQUESTED", "REVIEW_REQUIRED"] {
        assert_eq!(ReviewStatus::from_review_decision(Some(d), false).as_str(), d);
    }
}

#[test]
fn errors_are_joined() {
    let resp: GraphQlResponse<RepoOpenPrsData> = GraphQlResponse {
        data: None,
        errors: Some(vec![
            GraphQlError { message: "first".to_string() },
            GraphQlError { message: "second".to_string() },
        ]),
    };
    assert_eq!(rows_from_response(&resp).unwrap_err(), "first; second");
}

#[test]
fn errors_win_over_data() {
    let mut resp = answer(Some(vec![]));
    resp.errors = Some(vec![]);
    assert_eq!(rows_from_response(&resp).unwrap_err(), "");
}

#[test]
fn missing_repository() {
    let resp: GraphQlResponse<RepoOpenPrsData> = GraphQlResponse {
        data: Some(RepoOpenPrsData { repository: None }),
        errors: None,
    };
    assert_eq!(rows_from_response(&resp).unwrap_err(), "Repository not found or inaccessible");
    let resp: GraphQlResponse<RepoOpenPrsData> = GraphQlResponse { data: None, errors: None };
    assert_eq!(rows_from_response(&resp).unwrap_err(), "Repository not found or inaccessible");
}

#[test]
fn no_pull_requests() {
    assert!(rows_from_response(&answer(None)).unwrap().is_empty());
    assert!(rows_from_response(&answer(Some(vec![]))).unwrap().is_empty());
}

#[test]
fn rows_are_built() {
    let reviews = vec![
        ReviewNode { state: "COMMENTED".to_string(), author: user(Some("bob")) },
        ReviewNode { state: "APPROVED".to_string(), author: None },
        ReviewNode { state: "DISMISSED".to_string(), author: user(None) },
    ];
    let requests = vec![
        reviewer("User", Some("carol"), None),
        ReviewRequestNode { requested_reviewer: None },
        reviewer("Team", None, Some("core")),
        reviewer("Team", None, None),
        reviewer("Mannequin", Some("m"), None),
        reviewer("User", None, None),
    ];
    let mut first = pr(7, None, requests, Some(reviews));
    first.author = None;
    let second = pr(8, Some("APPROVED"), vec![], None);
    let rows = rows_from_response(&answer(Some(vec![first, second]))).unwrap();
    assert_eq!(rows.len(), 2);

    let r = &rows[0];
    assert_eq!(r.repo, "o/r");
    assert_eq!(r.number, 7);
    assert_eq!(r.title, "PR 7");
    assert_eq!(r.url, "https://github.com/o/r/pull/7");
    assert_eq!(r.author, "unknown");
    assert_eq!(r.status, ReviewStatus::ReviewRequired);
    assert_eq!(
        r.requested_reviewers,
        vec!["carol", "team:core", "team:unknown", "unknown", "unknown"]
    );
    assert_eq!(
        r.latest_reviews,
        vec![
            ("bob".to_string(), "COMMENTED".to_string()),
            ("unknown".to_string(), "APPROVED".to_string()),
            ("unknown".to_string(), "DISMISSED".to_string()),
        ]
    );

    let r = &rows[1];
    assert_eq!(r.number, 8);
    assert_eq!(r.author, "alice");
    assert_eq!(r.status, ReviewStatus::Approved);
    assert!(r.requested_reviewers.is_empty());
    assert!(r.latest_reviews.is_empty());
}

#[test]
fn no_requests_means_not_reviewed() {
    let rows = rows_from_response(&answer(Some(vec![pr(1, None, vec![], None)]))).unwrap();
    assert_eq!(rows[0].status, ReviewStatus::NotReviewed);
}
