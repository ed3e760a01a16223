use ghd::common::{datetime_to_ts, ts_to_datetime};
use ghd::gh::gql;
use ghd::gh::gql::get_pull_request_info as pr_info;
use ghd::gh::gql::search_issues as si;
use ghd::GHDError;

fn fragment(login: &str, id: Option<i64>) -> si::UserFragment {
    si::UserFragment {
        login: String::from(login),
        database_id: id,
        name: Some(format!("{} name", login)),
        avatar_url: format!("https://example.invalid/{}.png", login),
    }
}

fn issue_node(id: i64, author: &str) -> si::SearchIssuesSearchNodesOnIssue {
    si::SearchIssuesSearchNodesOnIssue {
        title: format!("issue {}", id),
        number: id + 1,
        database_id: Some(id),
        url: format!("https://example.invalid/i/{}", id),
        author: Some(si::SearchIssuesSearchNodesOnIssueAuthor::User(fragment(author, Some(77)))),
        repository: si::SearchIssuesSearchNodesOnIssueRepository {
            owner: si::SearchIssuesSearchNodesOnIssueRepositoryOwner {
                login: String::from("acme"),
                on: si::SearchIssuesSearchNodesOnIssueRepositoryOwnerOn::Organization,
            },
            name: String::from("widgets"),
        },
        state: si::IssueState::OPEN,
        created_at: String::from("2023-01-01T00:00:00Z"),
        updated_at: String::from("2023-01-02T00:00:00Z"),
        closed_at: None,
        comments: si::SearchIssuesSearchNodesOnIssueComments { nodes: None },
    }
}

fn pr_node(id: i64, author: &str) -> si::SearchIssuesSearchNodesOnPullRequest {
    si::SearchIssuesSearchNodesOnPullRequest {
        title: format!("pr {}", id),
        number: id + 1,
        database_id: Some(id),
        author: Some(si::SearchIssuesSearchNodesOnPullRequestAuthor::User(fragment(
            author,
            Some(88),
        ))),
        repository: si::SearchIssuesSearchNodesOnPullRequestRepository {
            owner: si::SearchIssuesSearchNodesOnPullRequestRepositoryOwner {
                login: String::from("acme"),
                on: si::SearchIssuesSearchNodesOnPullRequestRepositoryOwnerOn::User,
            },
            name: String::from("widgets"),
        },
        url: format!("https://example.invalid/p/{}", id),
        state: si::PullRequestState::MERGED,
        is_draft: true,
        total_comments_count: Some(3),
        review_requests: None,
        review_decision: Some(si::PullRequestReviewDecision::CHANGES_REQUESTED),
        reviews: Some(si::SearchIssuesSearchNodesOnPullRequestReviews { total_count: 1 }),
        created_at: String::from("2023-01-01T00:00:00Z"),
        updated_at: String::from("2023-01-03T12:00:00Z"),
        closed_at: Some(String::from("2023-01-04T00:00:00Z")),
        merged_at: Some(String::from("2023-01-04T00:00:00Z")),
    }
}

fn response(nodes: Vec<Option<si::SearchIssuesSearchNodes>>) -> si::ResponseData {
    si::ResponseData { search: si::SearchIssuesSearch { nodes: Some(nodes) } }
}

#[test]
fn datetime_parsing_matches_known_instants() {
    assert_eq!(datetime_to_ts("1970-01-01T00:00:00Z"), Some(0));
    assert_eq!(datetime_to_ts("1970-01-01T00:00:01Z"), Some(1));
    assert_eq!(datetime_to_ts("2023-01-01T00:00:00Z"), Some(1672531200));
    // an explicit offset shifts the instant
    assert_eq!(datetime_to_ts("1970-01-01T01:00:00+01:00"), Some(0));
    assert_eq!(datetime_to_ts(""), None);
    assert_eq!(datetime_to_ts("yesterday"), None);
}

#[test]
fn datetime_rendering_round_trips() {
    assert_eq!(ts_to_datetime(1), Ok(String::from("1970-01-01T00:00:01+00:00")));
    assert!(ts_to_datetime(0).is_err());
    assert!(ts_to_datetime(-5).is_err());
    let rendered = ts_to_datetime(1672531200).unwrap();
    assert_eq!(datetime_to_ts(&rendered), Some(1672531200));
}

#[test]
fn queries_are_built_exactly() {
    let login = String::from("alice");
    assert_eq!(gql::build_open_issues_query(&login), "involves:alice is:open");
    let q = gql::build_update_query(&login, 100).unwrap();
    assert_eq!(q, "involves:alice updated:>1970-01-01T00:01:40+00:00");
    assert!(gql::build_update_query(&login, 0).is_none());
}

#[test]
fn search_results_are_projected() {
    let res = response(vec![
        None,
        Some(si::SearchIssuesSearchNodes::Issue(issue_node(10, "alice"))),
        Some(si::SearchIssuesSearchNodes::PullRequest(pr_node(20, "bob"))),
    ]);
    let update = gql::process_user_search_results(&res, 999).unwrap();
    assert_eq!(update.when, 999);
    assert_eq!(update.issues.len(), 1);
    assert_eq!(update.prs.len(), 1);
    let iss = &update.issues[0];
    assert_eq!(iss.id, 10);
    assert_eq!(iss.number, 11);
    assert_eq!(iss.author, "alice");
    assert_eq!(iss.author_id, 77);
    assert_eq!(iss.repo_owner, "acme");
    assert_eq!(iss.repo_name, "widgets");
    assert_eq!(iss.state, "open");
    assert_eq!(iss.created_at, 1672531200);
    assert_eq!(iss.updated_at, 1672617600);
    assert_eq!(iss.closed_at, None);
    assert!(!iss.is_pull_request);
    let pr = &update.prs[0];
    assert_eq!(pr.issue.id, 20);
    assert_eq!(pr.issue.author, "bob");
    assert_eq!(pr.issue.state, "merged");
    assert!(pr.issue.is_pull_request);
    assert!(pr.is_draft);
    assert_eq!(pr.review_decision, "changes_requested");
    assert_eq!(pr.merged_at, Some(1672790400));
}

#[test]
fn malformed_search_results_are_transient_errors() {
    // missing node list
    let res = si::ResponseData { search: si::SearchIssuesSearch { nodes: None } };
    assert!(matches!(
        gql::process_user_search_results(&res, 1),
        Err(GHDError::TransientError)
    ));
    // unexpected node kind
    let res = response(vec![Some(si::SearchIssuesSearchNodes::Repository)]);
    assert!(matches!(
        gql::process_user_search_results(&res, 1),
        Err(GHDError::TransientError)
    ));
    // author that is not a user
    let mut node = issue_node(10, "alice");
    node.author = Some(si::SearchIssuesSearchNodesOnIssueAuthor::Bot);
    let res = response(vec![Some(si::SearchIssuesSearchNodes::Issue(node))]);
    assert!(matches!(
        gql::process_user_search_results(&res, 1),
        Err(GHDError::TransientError)
    ));
    // unparsable timestamp
    let mut node = issue_node(10, "alice");
    node.updated_at = String::from("not a date");
    let res = response(vec![Some(si::SearchIssuesSearchNodes::Issue(node))]);
    assert!(matches!(
        gql::process_user_search_results(&res, 1),
        Err(GHDError::TransientError)
    ));
    // missing identifier
    let mut node = issue_node(10, "alice");
    node.database_id = None;
    let res = response(vec![Some(si::SearchIssuesSearchNodes::Issue(node))]);
    assert!(matches!(
        gql::process_user_search_results(&res, 1),
        Err(GHDError::TransientError)
    ));
}

#[test]
fn username_and_id_are_read_from_the_fragment() {
    let f = fragment("carol", Some(5));
    let (login, id) = gql::get_username_and_id(&f);
    assert_eq!(login, "carol");
    assert_eq!(id, 5);
    assert_eq!(gql::get_id(Some(9)), 9);
}

fn info_fragment(login: &str, id: Option<i64>, name: Option<&str>) -> pr_info::UserFragment {
    pr_info::UserFragment {
        login: String::from(login),
        database_id: id,
        name: name.map(String::from),
        avatar_url: format!("https://example.invalid/{}.png", login),
    }
}

fn detail_reply() -> pr_info::ResponseData {
    pr_info::ResponseData {
        repository: Some(pr_info::GetPullRequestInfoRepository {
            pull_request: Some(pr_info::GetPullRequestInfoRepositoryPullRequest {
                number: 42,
                title: String::from("add widgets"),
                body_html: String::from("<p>widgets</p>"),
                author: Some(pr_info::GetPullRequestInfoRepositoryPullRequestAuthor::User(
                    info_fragment("alice", Some(7), None),
                )),
                repository: pr_info::GetPullRequestInfoRepositoryPullRequestRepository {
                    owner: pr_info::GetPullRequestInfoRepositoryPullRequestRepositoryOwner {
                        login: String::from("acme"),
                        on: pr_info::GetPullRequestInfoRepositoryPullRequestRepositoryOwnerOn::Organization,
                    },
                    name: String::from("widgets"),
                },
                url: String::from("https://example.invalid/p/42"),
                state: pr_info::PullRequestState::OPEN,
                is_draft: false,
                milestone: Some(pr_info::GetPullRequestInfoRepositoryPullRequestMilestone {
                    title: String::from("v1"),
                    state: pr_info::MilestoneState::OPEN,
                    due_on: Some(String::from("1970-01-01T00:00:10Z")),
                }),
                labels: Some(pr_info::GetPullRequestInfoRepositoryPullRequestLabels {
                    nodes: Some(vec![
                        Some(pr_info::GetPullRequestInfoRepositoryPullRequestLabelsNodes {
                            color: String::from("ff0000"),
                            name: String::from("bug"),
                        }),
                        None,
                        Some(pr_info::GetPullRequestInfoRepositoryPullRequestLabelsNodes {
                            color: String::from("00ff00"),
                            name: String::from("feature"),
                        }),
                    ]),
                }),
                total_comments_count: None,
                comments: pr_info::GetPullRequestInfoRepositoryPullRequestComments { nodes: None },
                reviews: Some(pr_info::GetPullRequestInfoRepositoryPullRequestReviews {
                    nodes: Some(vec![Some(
                        pr_info::GetPullRequestInfoRepositoryPullRequestReviewsNodes {
                            author: None,
                            state: pr_info::PullRequestReviewState::APPROVED,
                        },
                    )]),
                }),
                participants: pr_info::GetPullRequestInfoRepositoryPullRequestParticipants {
                    nodes: Some(vec![Some(
                        pr_info::GetPullRequestInfoRepositoryPullRequestParticipantsNodes {
                            login: String::from("bob"),
                            name: Some(String::from("Bob")),
                            avatar_url: String::from("https://example.invalid/bob.png"),
                            database_id: Some(2),
                        },
                    )]),
                },
            }),
        }),
    }
}

#[test]
fn detail_reply_is_projected() {
    let info = gql::get_pull_request_info(&detail_reply()).unwrap();
    assert_eq!(info.number, 42);
    assert_eq!(info.title, "add widgets");
    assert_eq!(info.body_html, "<p>widgets</p>");
    // user author without a display name falls back to "unknown"
    assert_eq!(info.author.id, 7);
    assert_eq!(info.author.login, "alice");
    assert_eq!(info.author.name, "unknown");
    assert_eq!(info.repo_owner, "acme");
    assert_eq!(info.repo_name, "widgets");
    assert_eq!(info.state, "open");
    assert!(!info.is_draft);
    let ms = info.milestone.as_ref().unwrap();
    assert_eq!(ms.title, "v1");
    assert_eq!(ms.state, "open");
    assert_eq!(ms.due_on_ts, Some(10));
    // absent label entries are skipped, present ones kept in order
    assert_eq!(info.labels.len(), 2);
    assert_eq!(info.labels[0].name, "bug");
    assert_eq!(info.labels[1].color, "00ff00");
    // an absent comment count reads as zero
    assert_eq!(info.total_comments, 0);
    assert_eq!(info.participants.len(), 1);
    assert_eq!(info.participants[0].login, "bob");
    assert_eq!(info.participants[0].name, "Bob");
    // a review without an author shows the unknown user
    assert_eq!(info.reviews.len(), 1);
    assert_eq!(info.reviews[0].author.id, -1);
    assert_eq!(info.reviews[0].author.login, "unknown");
    assert_eq!(info.reviews[0].state, "approved");
}

#[test]
fn detail_reply_error_cases() {
    let res = pr_info::ResponseData { repository: None };
    assert!(matches!(
        gql::get_pull_request_info(&res),
        Err(GHDError::RepositoryNotFound)
    ));
    let res = pr_info::ResponseData {
        repository: Some(pr_info::GetPullRequestInfoRepository { pull_request: None }),
    };
    assert!(matches!(
        gql::get_pull_request_info(&res),
        Err(GHDError::ResourceNotFound)
    ));
}
