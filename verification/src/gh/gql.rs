use vstd::prelude::*;
use vstd::string::StringExecFns;

pub mod get_pull_request_info;
pub mod search_issues;
pub mod user_info;

use crate::common::{datetime_to_ts, ts_of_rfc3339, rfc3339_of, ts_to_datetime};
use crate::errors::GHDError;
use crate::gh::types::{GithubUser, Issue, Label, Milestone, PullRequest, PullRequestInfo,
    UserReview, UserUpdate};
use self::search_issues::{IssueState, PullRequestReviewDecision, SearchIssuesSearchNodes,
    SearchIssuesSearchNodesOnIssue, SearchIssuesSearchNodesOnIssueAuthor,
    SearchIssuesSearchNodesOnPullRequest, SearchIssuesSearchNodesOnPullRequestAuthor,
    UserFragment};

verus! {

/// The lifecycle tag stored for an issue's wire state.
pub open spec fn issue_state_view(s: IssueState) -> Seq<char> {
    match s {
        IssueState::OPEN => "open"@,
        IssueState::CLOSED => "closed"@,
        IssueState::Other(v) => v@,
    }
}

/// The lifecycle tag stored for a pull request's wire state.
pub open spec fn pr_state_view(s: search_issues::PullRequestState) -> Seq<char> {
    match s {
        search_issues::PullRequestState::OPEN => "open"@,
        search_issues::PullRequestState::CLOSED => "closed"@,
        search_issues::PullRequestState::MERGED => "merged"@,
        search_issues::PullRequestState::Other(v) => v@,
    }
}

/// The review-decision tag stored for a pull request; an absent decision is
/// recorded as "none".
pub open spec fn review_decision_view(d: Option<PullRequestReviewDecision>) -> Seq<char> {
    match d {
        None => "none"@,
        Some(PullRequestReviewDecision::APPROVED) => "approved"@,
        Some(PullRequestReviewDecision::CHANGES_REQUESTED) => "changes_requested"@,
        Some(PullRequestReviewDecision::REVIEW_REQUIRED) => "review_required"@,
        Some(PullRequestReviewDecision::Other(v)) => v@,
    }
}

fn issue_state_str(s: &IssueState) -> (r: String)
    ensures
        r@ == issue_state_view(*s),
{
    match s {
        IssueState::OPEN => String::from_str("open"),
        IssueState::CLOSED => String::from_str("closed"),
        IssueState::Other(v) => v.clone(),
    }
}

fn pr_state_str(s: &search_issues::PullRequestState) -> (r: String)
    ensures
        r@ == pr_state_view(*s),
{
    match s {
        search_issues::PullRequestState::OPEN => String::from_str("open"),
        search_issues::PullRequestState::CLOSED => String::from_str("closed"),
        search_issues::PullRequestState::MERGED => String::from_str("merged"),
        search_issues::PullRequestState::Other(v) => v.clone(),
    }
}

fn review_decision_str(d: &Option<PullRequestReviewDecision>) -> (r: String)
    ensures
        r@ == review_decision_view(*d),
{
    match d {
        None => String::from_str("none"),
        Some(PullRequestReviewDecision::APPROVED) => String::from_str("approved"),
        Some(PullRequestReviewDecision::CHANGES_REQUESTED) => String::from_str(
            "changes_requested",
        ),
        Some(PullRequestReviewDecision::REVIEW_REQUIRED) => String::from_str("review_required"),
        Some(PullRequestReviewDecision::Other(v)) => v.clone(),
    }
}

/// The identifier wrapped in an optional id field; the caller must have
/// established that the field is present.
pub fn get_id(v: Option<i64>) -> (r: i64)
    requires
        v is Some,
    ensures
        r == v.unwrap(),
{
    match v {
        Some(id) => id,
        None => 0,
    }
}

/// A user fragment's login and identifier; the caller must have established
/// that the fragment carries an identifier.
pub fn get_username_and_id(user: &UserFragment) -> (r: (String, i64))
    requires
        user.database_id is Some,
    ensures
        r.0 == user.login,
        r.1 == user.database_id.unwrap(),
{
    let id = get_id(user.database_id);
    (user.login.clone(), id)
}

/// Whether an issue node is well-formed enough to project: it carries its
/// identifier, a user author with an identifier, and parsable timestamps.
pub open spec fn issue_node_ok(n: SearchIssuesSearchNodesOnIssue) -> bool {
    &&& n.database_id is Some
    &&& (n.author matches Some(SearchIssuesSearchNodesOnIssueAuthor::User(u)) && u.database_id
        is Some)
    &&& ts_of_rfc3339(n.created_at@) is Some
    &&& ts_of_rfc3339(n.updated_at@) is Some
    &&& (n.closed_at matches Some(c) ==> ts_of_rfc3339(c@) is Some)
}

/// Field-for-field correspondence between a cached issue record and the
/// issue node it was projected from.
pub open spec fn issue_matches_issue_node(iss: Issue, n: SearchIssuesSearchNodesOnIssue) -> bool {
    &&& iss.id == n.database_id.unwrap()
    &&& iss.number == n.number
    &&& iss.title == n.title
    &&& (n.author matches Some(SearchIssuesSearchNodesOnIssueAuthor::User(u)) && iss.author
        == u.login && iss.author_id == u.database_id.unwrap())
    &&& iss.url == n.url
    &&& iss.repo_owner == n.repository.owner.login
    &&& iss.repo_name == n.repository.name
    &&& iss.state@ == issue_state_view(n.state)
    &&& Some(iss.created_at) == ts_of_rfc3339(n.created_at@)
    &&& Some(iss.updated_at) == ts_of_rfc3339(n.updated_at@)
    &&& iss.closed_at == (match n.closed_at {
        None => None::<i64>,
        Some(c) => ts_of_rfc3339(c@),
    })
    &&& iss.is_pull_request == false
    &&& iss.last_viewed is None
}

/// The issue record for a well-formed issue node; a malformed node reports
/// `TransientError`, the class of malformed remote replies.
pub fn get_issue_from_issue(node: &SearchIssuesSearchNodesOnIssue) -> (r: Result<Issue, GHDError>)
    ensures
        match r {
            Ok(iss) => issue_node_ok(*node) && issue_matches_issue_node(iss, *node),
            Err(e) => e == GHDError::TransientError && !issue_node_ok(*node),
        },
{
    let (username, userid) = match &node.author {
        Some(SearchIssuesSearchNodesOnIssueAuthor::User(u)) => {
            if u.database_id.is_none() {
                return Err(GHDError::TransientError);
            }
            get_username_and_id(u)
        },
        _ => {
            return Err(GHDError::TransientError);
        },
    };
    let id = match node.database_id {
        Some(v) => v,
        None => {
            return Err(GHDError::TransientError);
        },
    };
    let created_at = match datetime_to_ts(node.created_at.as_str()) {
        Some(v) => v,
        None => {
            return Err(GHDError::TransientError);
        },
    };
    let updated_at = match datetime_to_ts(node.updated_at.as_str()) {
        Some(v) => v,
        None => {
            return Err(GHDError::TransientError);
        },
    };
    let closed_at = match &node.closed_at {
        None => None,
        Some(c) => match datetime_to_ts(c.as_str()) {
            Some(v) => Some(v),
            None => {
                return Err(GHDError::TransientError);
            },
        },
    };
    Ok(
        Issue {
            id,
            number: node.number,
            title: node.title.clone(),
            author: username,
            author_id: userid,
            url: node.url.clone(),
            repo_owner: node.repository.owner.login.clone(),
            repo_name: node.repository.name.clone(),
            state: issue_state_str(&node.state),
            created_at,
            updated_at,
            closed_at,
            is_pull_request: false,
            last_viewed: None,
        },
    )
}

/// Whether the issue projection of a pull-request node is well-formed.
pub open spec fn pr_issue_node_ok(n: SearchIssuesSearchNodesOnPullRequest) -> bool {
    &&& n.database_id is Some
    &&& (n.author matches Some(SearchIssuesSearchNodesOnPullRequestAuthor::User(u))
        && u.database_id is Some)
    &&& ts_of_rfc3339(n.created_at@) is Some
    &&& ts_of_rfc3339(n.updated_at@) is Some
    &&& (n.closed_at matches Some(c) ==> ts_of_rfc3339(c@) is Some)
}

/// Whether a pull-request node is well-formed enough to project, its merge
/// timestamp included.
pub open spec fn pr_node_ok(n: SearchIssuesSearchNodesOnPullRequest) -> bool {
    &&& pr_issue_node_ok(n)
    &&& (n.merged_at matches Some(m) ==> ts_of_rfc3339(m@) is Some)
}

/// Field-for-field correspondence between a cached issue record and the
/// pull-request node it was projected from.
pub open spec fn issue_matches_pr_node(iss: Issue, n: SearchIssuesSearchNodesOnPullRequest)
    -> bool {
    &&& iss.id == n.database_id.unwrap()
    &&& iss.number == n.number
    &&& iss.title == n.title
    &&& (n.author matches Some(SearchIssuesSearchNodesOnPullRequestAuthor::User(u)) && iss.author
        == u.login && iss.author_id == u.database_id.unwrap())
    &&& iss.url == n.url
    &&& iss.repo_owner == n.repository.owner.login
    &&& iss.repo_name == n.repository.name
    &&& iss.state@ == pr_state_view(n.state)
    &&& Some(iss.created_at) == ts_of_rfc3339(n.created_at@)
    &&& Some(iss.updated_at) == ts_of_rfc3339(n.updated_at@)
    &&& iss.closed_at == (match n.closed_at {
        None => None::<i64>,
        Some(c) => ts_of_rfc3339(c@),
    })
    &&& iss.is_pull_request == true
    &&& iss.last_viewed is None
}

/// Correspondence between a fetched pull request and its node.
pub open spec fn pr_matches_node(p: PullRequest, n: SearchIssuesSearchNodesOnPullRequest) -> bool {
    &&& issue_matches_pr_node(p.issue, n)
    &&& p.is_draft == n.is_draft
    &&& p.review_decision@ == review_decision_view(n.review_decision)
    &&& p.merged_at == (match n.merged_at {
        None => None::<i64>,
        Some(m) => ts_of_rfc3339(m@),
    })
}

/// The issue record underlying a well-formed pull-request node.
pub fn get_issue_from_pull_request(node: &SearchIssuesSearchNodesOnPullRequest) -> (r: Result<
    Issue,
    GHDError,
>)
    ensures
        match r {
            Ok(iss) => pr_issue_node_ok(*node) && issue_matches_pr_node(iss, *node),
            Err(e) => e == GHDError::TransientError && !pr_issue_node_ok(*node),
        },
{
    let (username, userid) = match &node.author {
        Some(SearchIssuesSearchNodesOnPullRequestAuthor::User(u)) => {
            if u.database_id.is_none() {
                return Err(GHDError::TransientError);
            }
            get_username_and_id(u)
        },
        _ => {
            return Err(GHDError::TransientError);
        },
    };
    let id = match node.database_id {
        Some(v) => v,
        None => {
            return Err(GHDError::TransientError);
        },
    };
    let created_at = match datetime_to_ts(node.created_at.as_str()) {
        Some(v) => v,
        None => {
            return Err(GHDError::TransientError);
        },
    };
    let updated_at = match datetime_to_ts(node.updated_at.as_str()) {
        Some(v) => v,
        None => {
            return Err(GHDError::TransientError);
        },
    };
    let closed_at = match &node.closed_at {
        None => None,
        Some(c) => match datetime_to_ts(c.as_str()) {
            Some(v) => Some(v),
            None => {
                return Err(GHDError::TransientError);
            },
        },
    };
    Ok(
        Issue {
            id,
            number: node.number,
            title: node.title.clone(),
            author: username,
            author_id: userid,
            url: node.url.clone(),
            repo_owner: node.repository.owner.login.clone(),
            repo_name: node.repository.name.clone(),
            state: pr_state_str(&node.state),
            created_at,
            updated_at,
            closed_at,
            is_pull_request: true,
            last_viewed: None,
        },
    )
}

/// Whether one search node can be consumed: absent nodes are skipped, issue
/// and pull-request nodes must be well-formed, and any other node kind is a
/// malformed reply for this query.
pub open spec fn node_ok(n: Option<SearchIssuesSearchNodes>) -> bool {
    match n {
        None => true,
        Some(SearchIssuesSearchNodes::Issue(e)) => issue_node_ok(e),
        Some(SearchIssuesSearchNodes::PullRequest(e)) => pr_node_ok(e),
        Some(_) => false,
    }
}

/// The issue nodes of a search reply, in reply order.
pub open spec fn issue_nodes_of(ns: Seq<Option<SearchIssuesSearchNodes>>) -> Seq<
    SearchIssuesSearchNodesOnIssue,
> {
    ns.filter_map(
        |n: Option<SearchIssuesSearchNodes>|
            match n {
                Some(SearchIssuesSearchNodes::Issue(e)) => Some(e),
                _ => None::<SearchIssuesSearchNodesOnIssue>,
            },
    )
}

/// The pull-request nodes of a search reply, in reply order.
pub open spec fn pr_nodes_of(ns: Seq<Option<SearchIssuesSearchNodes>>) -> Seq<
    SearchIssuesSearchNodesOnPullRequest,
> {
    ns.filter_map(
        |n: Option<SearchIssuesSearchNodes>|
            match n {
                Some(SearchIssuesSearchNodes::PullRequest(e)) => Some(e),
                _ => None::<SearchIssuesSearchNodesOnPullRequest>,
            },
    )
}

/// Whether a whole search reply can be consumed.
pub open spec fn update_ok(res: search_issues::ResponseData) -> bool {
    &&& res.search.nodes is Some
    &&& (forall|i: int|
        0 <= i < res.search.nodes.unwrap()@.len() ==> node_ok(
            #[trigger] res.search.nodes.unwrap()@[i],
        ))
}

/// Project a search reply into the update that reconciliation consumes:
/// the issues and pull requests in reply order, stamped with `when`, the
/// time the fetch completed. A reply with missing nodes, an unexpected node
/// kind, or a malformed node reports `TransientError` and no partial result.
pub fn process_user_search_results(res: &search_issues::ResponseData, when: i64) -> (r: Result<
    UserUpdate,
    GHDError,
>)
    ensures
        match r {
            Ok(u) => {
                &&& update_ok(*res)
                &&& u.when == when
                &&& u.issues@.len() == issue_nodes_of(res.search.nodes.unwrap()@).len()
                &&& (forall|k: int|
                    0 <= k < u.issues@.len() ==> issue_matches_issue_node(
                        #[trigger] u.issues@[k],
                        issue_nodes_of(res.search.nodes.unwrap()@)[k],
                    ))
                &&& u.prs@.len() == pr_nodes_of(res.search.nodes.unwrap()@).len()
                &&& (forall|k: int|
                    0 <= k < u.prs@.len() ==> pr_matches_node(
                        #[trigger] u.prs@[k],
                        pr_nodes_of(res.search.nodes.unwrap()@)[k],
                    ))
            },
            Err(e) => e == GHDError::TransientError && !update_ok(*res),
        },
{
    let nodes = match &res.search.nodes {
        None => {
            return Err(GHDError::TransientError);
        },
        Some(v) => v,
    };
    let ghost ns = nodes@;
    let ghost issue_pick = |n: Option<SearchIssuesSearchNodes>|
        match n {
            Some(SearchIssuesSearchNodes::Issue(e)) => Some(e),
            _ => None::<SearchIssuesSearchNodesOnIssue>,
        };
    let ghost pr_pick = |n: Option<SearchIssuesSearchNodes>|
        match n {
            Some(SearchIssuesSearchNodes::PullRequest(e)) => Some(e),
            _ => None::<SearchIssuesSearchNodesOnPullRequest>,
        };
    let mut issue_lst: Vec<Issue> = Vec::new();
    let mut pr_lst: Vec<PullRequest> = Vec::new();
    let mut k: usize = 0;
    proof {
        assert(ns.take(0) =~= Seq::<Option<SearchIssuesSearchNodes>>::empty());
        assert(ns.take(0).filter_map(issue_pick) =~= Seq::<
            SearchIssuesSearchNodesOnIssue,
        >::empty());
        assert(ns.take(0).filter_map(pr_pick) =~= Seq::<
            SearchIssuesSearchNodesOnPullRequest,
        >::empty());
    }
    while k < nodes.len()
        invariant
            k <= ns.len(),
            ns == nodes@,
            res.search.nodes == Some(*nodes),
            issue_pick == (|n: Option<SearchIssuesSearchNodes>|
                match n {
                    Some(SearchIssuesSearchNodes::Issue(e)) => Some(e),
                    _ => None::<SearchIssuesSearchNodesOnIssue>,
                }),
            pr_pick == (|n: Option<SearchIssuesSearchNodes>|
                match n {
                    Some(SearchIssuesSearchNodes::PullRequest(e)) => Some(e),
                    _ => None::<SearchIssuesSearchNodesOnPullRequest>,
                }),
            forall|j: int| 0 <= j < k ==> node_ok(#[trigger] ns[j]),
            issue_lst@.len() == ns.take(k as int).filter_map(issue_pick).len(),
            forall|j: int|
                0 <= j < issue_lst@.len() ==> issue_matches_issue_node(
                    #[trigger] issue_lst@[j],
                    ns.take(k as int).filter_map(issue_pick)[j],
                ),
            pr_lst@.len() == ns.take(k as int).filter_map(pr_pick).len(),
            forall|j: int|
                0 <= j < pr_lst@.len() ==> pr_matches_node(
                    #[trigger] pr_lst@[j],
                    ns.take(k as int).filter_map(pr_pick)[j],
                ),
        decreases ns.len() - k,
    {
        proof {
            ns.lemma_filter_map_take_succ(issue_pick, k as int);
            ns.lemma_filter_map_take_succ(pr_pick, k as int);
        }
        match &nodes[k] {
            None => {},
            Some(SearchIssuesSearchNodes::Issue(entry)) => {
                match get_issue_from_issue(entry) {
                    Ok(iss) => {
                        issue_lst.push(iss);
                    },
                    Err(e) => {
                        proof {
                            assert(!node_ok(res.search.nodes.unwrap()@[k as int]));
                        }
                        return Err(e);
                    },
                }
            },
            Some(SearchIssuesSearchNodes::PullRequest(entry)) => {
                let issue = match get_issue_from_pull_request(entry) {
                    Ok(iss) => iss,
                    Err(e) => {
                        proof {
                            assert(!node_ok(res.search.nodes.unwrap()@[k as int]));
                        }
                        return Err(e);
                    },
                };
                let merged_at = match &entry.merged_at {
                    None => None,
                    Some(m) => match datetime_to_ts(m.as_str()) {
                        Some(v) => Some(v),
                        None => {
                            proof {
                                assert(!node_ok(res.search.nodes.unwrap()@[k as int]));
                            }
                            return Err(GHDError::TransientError);
                        },
                    },
                };
                pr_lst.push(
                    PullRequest {
                        issue,
                        is_draft: entry.is_draft,
                        review_decision: review_decision_str(&entry.review_decision),
                        merged_at,
                    },
                );
            },
            Some(_) => {
                proof {
                    assert(!node_ok(res.search.nodes.unwrap()@[k as int]));
                }
                return Err(GHDError::TransientError);
            },
        }
        k += 1;
    }
    proof {
        assert(ns.take(ns.len() as int) =~= ns);
    }
    Ok(UserUpdate { when, issues: issue_lst, prs: pr_lst })
}

/// The lifecycle tag stored for a detailed pull request's wire state.
pub open spec fn info_pr_state_view(s: get_pull_request_info::PullRequestState) -> Seq<char> {
    match s {
        get_pull_request_info::PullRequestState::OPEN => "open"@,
        get_pull_request_info::PullRequestState::CLOSED => "closed"@,
        get_pull_request_info::PullRequestState::MERGED => "merged"@,
        get_pull_request_info::PullRequestState::Other(v) => v@,
    }
}

/// The tag stored for a milestone's wire state.
pub open spec fn milestone_state_view(s: get_pull_request_info::MilestoneState) -> Seq<char> {
    match s {
        get_pull_request_info::MilestoneState::OPEN => "open"@,
        get_pull_request_info::MilestoneState::CLOSED => "closed"@,
        get_pull_request_info::MilestoneState::Other(v) => v@,
    }
}

/// The tag stored for a review's wire state.
pub open spec fn review_state_view(s: get_pull_request_info::PullRequestReviewState) -> Seq<
    char,
> {
    match s {
        get_pull_request_info::PullRequestReviewState::APPROVED => "approved"@,
        get_pull_request_info::PullRequestReviewState::CHANGES_REQUESTED => "changes_requested"@,
        get_pull_request_info::PullRequestReviewState::COMMENTED => "commented"@,
        get_pull_request_info::PullRequestReviewState::DISMISSED => "dismissed"@,
        get_pull_request_info::PullRequestReviewState::PENDING => "pending"@,
        get_pull_request_info::PullRequestReviewState::Other(v) => v@,
    }
}

fn info_pr_state_str(s: &get_pull_request_info::PullRequestState) -> (r: String)
    ensures
        r@ == info_pr_state_view(*s),
{
    match s {
        get_pull_request_info::PullRequestState::OPEN => String::from_str("open"),
        get_pull_request_info::PullRequestState::CLOSED => String::from_str("closed"),
        get_pull_request_info::PullRequestState::MERGED => String::from_str("merged"),
        get_pull_request_info::PullRequestState::Other(v) => v.clone(),
    }
}

fn milestone_state_str(s: &get_pull_request_info::MilestoneState) -> (r: String)
    ensures
        r@ == milestone_state_view(*s),
{
    match s {
        get_pull_request_info::MilestoneState::OPEN => String::from_str("open"),
        get_pull_request_info::MilestoneState::CLOSED => String::from_str("closed"),
        get_pull_request_info::MilestoneState::Other(v) => v.clone(),
    }
}

fn review_state_str(s: &get_pull_request_info::PullRequestReviewState) -> (r: String)
    ensures
        r@ == review_state_view(*s),
{
    match s {
        get_pull_request_info::PullRequestReviewState::APPROVED => String::from_str("approved"),
        get_pull_request_info::PullRequestReviewState::CHANGES_REQUESTED => String::from_str(
            "changes_requested",
        ),
        get_pull_request_info::PullRequestReviewState::COMMENTED => String::from_str("commented"),
        get_pull_request_info::PullRequestReviewState::DISMISSED => String::from_str("dismissed"),
        get_pull_request_info::PullRequestReviewState::PENDING => String::from_str("pending"),
        get_pull_request_info::PullRequestReviewState::Other(v) => v.clone(),
    }
}

/// The stand-in user record shown when the remote side reports no user
/// author (a deleted account, a bot, an organization).
pub open spec fn is_unknown_user(a: GithubUser) -> bool {
    &&& a.id == -1
    &&& a.login@ == "unknown"@
    &&& a.name@ == "unknown"@
    &&& a.avatar_url@ == Seq::<char>::empty()
}

fn unknown_user() -> (r: GithubUser)
    ensures
        is_unknown_user(r),
{
    GithubUser {
        id: -1,
        login: String::from_str("unknown"),
        name: String::from_str("unknown"),
        avatar_url: String::new(),
    }
}

/// Correspondence between a shown user record and a user fragment, with the
/// unknown-user fallbacks for missing pieces.
pub open spec fn fragment_user_matches(
    a: GithubUser,
    u: get_pull_request_info::UserFragment,
) -> bool {
    &&& a.id == (match u.database_id {
        Some(v) => v,
        None => -1i64,
    })
    &&& a.login == u.login
    &&& (match u.name {
        Some(v) => a.name == v,
        None => a.name@ == "unknown"@,
    })
    &&& a.avatar_url == u.avatar_url
}

/// Correspondence between the shown author and the wire author: a user
/// author is projected, anything else becomes the unknown user.
pub open spec fn info_author_matches(
    a: GithubUser,
    node: Option<get_pull_request_info::GetPullRequestInfoRepositoryPullRequestAuthor>,
) -> bool {
    match node {
        Some(
            get_pull_request_info::GetPullRequestInfoRepositoryPullRequestAuthor::User(u),
        ) => fragment_user_matches(a, u),
        _ => is_unknown_user(a),
    }
}

fn fragment_user(u: &get_pull_request_info::UserFragment) -> (r: GithubUser)
    ensures
        fragment_user_matches(r, *u),
{
    GithubUser {
        id: match u.database_id {
            Some(v) => v,
            None => -1,
        },
        login: u.login.clone(),
        name: match &u.name {
            Some(v) => v.clone(),
            None => String::from_str("unknown"),
        },
        avatar_url: u.avatar_url.clone(),
    }
}

/// Correspondence between a shown review and its wire node.
pub open spec fn review_matches(
    rv: UserReview,
    n: get_pull_request_info::GetPullRequestInfoRepositoryPullRequestReviewsNodes,
) -> bool {
    &&& (match n.author {
        Some(
            get_pull_request_info::GetPullRequestInfoRepositoryPullRequestReviewsNodesAuthor::User(
                u,
            ),
        ) => fragment_user_matches(rv.author, u),
        _ => is_unknown_user(rv.author),
    })
    &&& rv.state@ == review_state_view(n.state)
}

/// Correspondence between a shown participant and its wire node.
pub open spec fn participant_matches(
    a: GithubUser,
    n: get_pull_request_info::GetPullRequestInfoRepositoryPullRequestParticipantsNodes,
) -> bool {
    &&& a.id == (match n.database_id {
        Some(v) => v,
        None => -1i64,
    })
    &&& a.login == n.login
    &&& (match n.name {
        Some(v) => a.name == v,
        None => a.name@ == "unknown"@,
    })
    &&& a.avatar_url == n.avatar_url
}

/// The label nodes of a detail reply, absent layers flattened away.
pub open spec fn label_nodes_of(
    l: Option<get_pull_request_info::GetPullRequestInfoRepositoryPullRequestLabels>,
) -> Seq<get_pull_request_info::GetPullRequestInfoRepositoryPullRequestLabelsNodes> {
    match l {
        None => Seq::empty(),
        Some(ls) => match ls.nodes {
            None => Seq::empty(),
            Some(v) => v@.filter_map(
                |x: Option<
                    get_pull_request_info::GetPullRequestInfoRepositoryPullRequestLabelsNodes,
                >| x,
            ),
        },
    }
}

/// The participant nodes of a detail reply.
pub open spec fn participant_nodes_of(
    p: get_pull_request_info::GetPullRequestInfoRepositoryPullRequestParticipants,
) -> Seq<get_pull_request_info::GetPullRequestInfoRepositoryPullRequestParticipantsNodes> {
    match p.nodes {
        None => Seq::empty(),
        Some(v) => v@.filter_map(
            |x: Option<
                get_pull_request_info::GetPullRequestInfoRepositoryPullRequestParticipantsNodes,
            >| x,
        ),
    }
}

/// The review nodes of a detail reply.
pub open spec fn review_nodes_of(
    r: Option<get_pull_request_info::GetPullRequestInfoRepositoryPullRequestReviews>,
) -> Seq<get_pull_request_info::GetPullRequestInfoRepositoryPullRequestReviewsNodes> {
    match r {
        None => Seq::empty(),
        Some(rs) => match rs.nodes {
            None => Seq::empty(),
            Some(v) => v@.filter_map(
                |x: Option<
                    get_pull_request_info::GetPullRequestInfoRepositoryPullRequestReviewsNodes,
                >| x,
            ),
        },
    }
}

/// Project a detail reply into the pull request's shown information.
///
/// `RepositoryNotFound` when the reply carries no repository,
/// `ResourceNotFound` when the repository carries no such pull request;
/// otherwise every shown field is pinned to its wire counterpart, with
/// unknown-user fallbacks for missing author pieces and label, participant
/// and review lists in reply order.
pub fn get_pull_request_info(data: &get_pull_request_info::ResponseData) -> (r: Result<
    PullRequestInfo,
    GHDError,
>)
    ensures
        match r {
            Ok(info) => data.repository matches Some(repo) && (repo.pull_request matches Some(pr)
                && {
                &&& info.number == pr.number
                &&& info.title == pr.title
                &&& info.body_html == pr.body_html
                &&& info_author_matches(info.author, pr.author)
                &&& info.repo_owner == pr.repository.owner.login
                &&& info.repo_name == pr.repository.name
                &&& info.url == pr.url
                &&& info.state@ == info_pr_state_view(pr.state)
                &&& info.is_draft == pr.is_draft
                &&& (match pr.milestone {
                    None => info.milestone is None,
                    Some(m) => info.milestone matches Some(ms) && ms.title == m.title && ms.state@
                        == milestone_state_view(m.state) && ms.due_on_ts == (match m.due_on {
                        None => None::<i64>,
                        Some(d) => ts_of_rfc3339(d@),
                    }),
                })
                &&& info.labels@.len() == label_nodes_of(pr.labels).len()
                &&& (forall|k: int|
                    0 <= k < info.labels@.len() ==> (#[trigger] info.labels@[k]).name
                        == label_nodes_of(pr.labels)[k].name && info.labels@[k].color
                        == label_nodes_of(pr.labels)[k].color)
                &&& info.total_comments == (match pr.total_comments_count {
                    None => 0i64,
                    Some(v) => v,
                })
                &&& info.participants@.len() == participant_nodes_of(pr.participants).len()
                &&& (forall|k: int|
                    0 <= k < info.participants@.len() ==> participant_matches(
                        #[trigger] info.participants@[k],
                        participant_nodes_of(pr.participants)[k],
                    ))
                &&& info.reviews@.len() == review_nodes_of(pr.reviews).len()
                &&& (forall|k: int|
                    0 <= k < info.reviews@.len() ==> review_matches(
                        #[trigger] info.reviews@[k],
                        review_nodes_of(pr.reviews)[k],
                    ))
            }),
            Err(e) => match data.repository {
                None => e == GHDError::RepositoryNotFound,
                Some(repo) => repo.pull_request is None && e == GHDError::ResourceNotFound,
            },
        },
{
    let repo = match &data.repository {
        None => {
            return Err(GHDError::RepositoryNotFound);
        },
        Some(v) => v,
    };
    let pr = match &repo.pull_request {
        None => {
            return Err(GHDError::ResourceNotFound);
        },
        Some(v) => v,
    };
    let author: GithubUser = match &pr.author {
        Some(get_pull_request_info::GetPullRequestInfoRepositoryPullRequestAuthor::User(u)) => {
            fragment_user(u)
        },
        _ => unknown_user(),
    };
    let ghost flat_label = |x: Option<
        get_pull_request_info::GetPullRequestInfoRepositoryPullRequestLabelsNodes,
    >| x;
    let mut labels: Vec<Label> = Vec::new();
    if let Some(l) = &pr.labels {
        if let Some(lst) = &l.nodes {
            let ghost lns = lst@;
            let mut k: usize = 0;
            proof {
                assert(lns.take(0).filter_map(flat_label) =~= Seq::<
                    get_pull_request_info::GetPullRequestInfoRepositoryPullRequestLabelsNodes,
                >::empty());
            }
            while k < lst.len()
                invariant
                    k <= lns.len(),
                    lns == lst@,
                    flat_label == (|x: Option<
                        get_pull_request_info::GetPullRequestInfoRepositoryPullRequestLabelsNodes,
                    >| x),
                    labels@.len() == lns.take(k as int).filter_map(flat_label).len(),
                    forall|j: int|
                        0 <= j < labels@.len() ==> (#[trigger] labels@[j]).name == lns.take(
                            k as int,
                        ).filter_map(flat_label)[j].name && labels@[j].color == lns.take(
                            k as int,
                        ).filter_map(flat_label)[j].color,
                decreases lns.len() - k,
            {
                proof {
                    lns.lemma_filter_map_take_succ(flat_label, k as int);
                }
                if let Some(label) = &lst[k] {
                    labels.push(Label { name: label.name.clone(), color: label.color.clone() });
                }
                k += 1;
            }
            proof {
                assert(lns.take(lns.len() as int) =~= lns);
            }
        }
    }
    let ghost flat_part = |x: Option<
        get_pull_request_info::GetPullRequestInfoRepositoryPullRequestParticipantsNodes,
    >| x;
    let mut participants: Vec<GithubUser> = Vec::new();
    if let Some(lst) = &pr.participants.nodes {
        let ghost pns = lst@;
        let mut k: usize = 0;
        proof {
            assert(pns.take(0).filter_map(flat_part) =~= Seq::<
                get_pull_request_info::GetPullRequestInfoRepositoryPullRequestParticipantsNodes,
            >::empty());
        }
        while k < lst.len()
            invariant
                k <= pns.len(),
                pns == lst@,
                flat_part == (|x: Option<
                    get_pull_request_info::GetPullRequestInfoRepositoryPullRequestParticipantsNodes,
                >| x),
                participants@.len() == pns.take(k as int).filter_map(flat_part).len(),
                forall|j: int|
                    0 <= j < participants@.len() ==> participant_matches(
                        #[trigger] participants@[j],
                        pns.take(k as int).filter_map(flat_part)[j],
                    ),
            decreases pns.len() - k,
        {
            proof {
                pns.lemma_filter_map_take_succ(flat_part, k as int);
            }
            if let Some(user) = &lst[k] {
                participants.push(
                    GithubUser {
                        id: match &user.database_id {
                            None => -1,
                            Some(v) => *v,
                        },
                        login: user.login.clone(),
                        name: match &user.name {
                            None => String::from_str("unknown"),
                            Some(v) => v.clone(),
                        },
                        avatar_url: user.avatar_url.clone(),
                    },
                );
            }
            k += 1;
        }
        proof {
            assert(pns.take(pns.len() as int) =~= pns);
        }
    }
    let ghost flat_rev = |x: Option<
        get_pull_request_info::GetPullRequestInfoRepositoryPullRequestReviewsNodes,
    >| x;
    let mut reviews: Vec<UserReview> = Vec::new();
    if let Some(rvs) = &pr.reviews {
        if let Some(lst) = &rvs.nodes {
            let ghost rns = lst@;
            let mut k: usize = 0;
            proof {
                assert(rns.take(0).filter_map(flat_rev) =~= Seq::<
                    get_pull_request_info::GetPullRequestInfoRepositoryPullRequestReviewsNodes,
                >::empty());
            }
            while k < lst.len()
                invariant
                    k <= rns.len(),
                    rns == lst@,
                    flat_rev == (|x: Option<
                        get_pull_request_info::GetPullRequestInfoRepositoryPullRequestReviewsNodes,
                    >| x),
                    reviews@.len() == rns.take(k as int).filter_map(flat_rev).len(),
                    forall|j: int|
                        0 <= j < reviews@.len() ==> review_matches(
                            #[trigger] reviews@[j],
                            rns.take(k as int).filter_map(flat_rev)[j],
                        ),
                decreases rns.len() - k,
            {
                proof {
                    rns.lemma_filter_map_take_succ(flat_rev, k as int);
                }
                if let Some(rev) = &lst[k] {
                    let rev_author = match &rev.author {
                        Some(
                            get_pull_request_info::GetPullRequestInfoRepositoryPullRequestReviewsNodesAuthor::User(
                                u,
                            ),
                        ) => fragment_user(u),
                        _ => unknown_user(),
                    };
                    reviews.push(UserReview { author: rev_author, state: review_state_str(&rev.state) });
                }
                k += 1;
            }
            proof {
                assert(rns.take(rns.len() as int) =~= rns);
            }
        }
    }
    let milestone: Option<Milestone> = match &pr.milestone {
        None => None,
        Some(m) => Some(
            Milestone {
                title: m.title.clone(),
                state: milestone_state_str(&m.state),
                due_on_ts: match &m.due_on {
                    None => None,
                    Some(d) => datetime_to_ts(d.as_str()),
                },
            },
        ),
    };
    Ok(
        PullRequestInfo {
            number: pr.number,
            title: pr.title.clone(),
            body_html: pr.body_html.clone(),
            author,
            repo_owner: pr.repository.owner.login.clone(),
            repo_name: pr.repository.name.clone(),
            url: pr.url.clone(),
            state: info_pr_state_str(&pr.state),
            is_draft: pr.is_draft,
            milestone,
            labels,
            total_comments: match &pr.total_comments_count {
                None => 0,
                Some(v) => *v,
            },
            participants,
            reviews,
        },
    )
}

/// The search query that fetches all open issues involving `login`: the
/// initial population of a newly tracked user.
pub fn build_open_issues_query(login: &String) -> (q: String)
    ensures
        q@ == "involves:"@ + login@ + " is:open"@,
{
    let mut q = String::from_str("involves:");
    q.append(login.as_str());
    q.append(" is:open");
    q
}

/// The search query that fetches everything involving `login` updated since
/// `since_ts`: the delta fetch of an already-populated user. `None` when the
/// instant cannot be rendered (non-positive, or out of range).
pub fn build_update_query(login: &String, since_ts: i64) -> (r: Option<String>)
    ensures
        match r {
            Some(q) => since_ts > 0 && (rfc3339_of(since_ts) matches Some(v) && q@ == "involves:"@
                + login@ + " updated:>"@ + v),
            None => since_ts <= 0 || rfc3339_of(since_ts) is None,
        },
{
    let since = match ts_to_datetime(since_ts) {
        Ok(s) => s,
        Err(_) => {
            return None;
        },
    };
    let mut q = String::from_str("involves:");
    q.append(login.as_str());
    q.append(" updated:>");
    q.append(since.as_str());
    Some(q)
}

} // verus!
