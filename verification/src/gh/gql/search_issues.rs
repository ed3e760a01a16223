use vstd::prelude::*;

verus! {

/// Wire shape of the issue-search query: all issues and pull requests
/// involving a user, optionally restricted to those updated since a given
/// time. Timestamps arrive as RFC 3339 text and are parsed during
/// projection into the domain model.
#[derive(Debug)]
pub struct Variables {
    pub q: String,
}

#[derive(Debug)]
pub struct UserFragment {
    pub login: String,
    pub database_id: Option<i64>,
    pub name: Option<String>,
    pub avatar_url: String,
}

#[derive(Debug)]
pub struct ResponseData {
    pub search: SearchIssuesSearch,
}

#[derive(Debug)]
pub struct SearchIssuesSearch {
    pub nodes: Option<Vec<Option<SearchIssuesSearchNodes>>>,
}

#[derive(Debug)]
pub enum SearchIssuesSearchNodes {
    App,
    Discussion,
    Issue(SearchIssuesSearchNodesOnIssue),
    MarketplaceListing,
    Organization,
    PullRequest(SearchIssuesSearchNodesOnPullRequest),
    Repository,
    User,
}

#[derive(Debug)]
#[allow(non_camel_case_types)]
pub enum IssueState {
    CLOSED,
    OPEN,
    Other(String),
}

#[derive(Debug)]
#[allow(non_camel_case_types)]
pub enum PullRequestReviewDecision {
    APPROVED,
    CHANGES_REQUESTED,
    REVIEW_REQUIRED,
    Other(String),
}

#[derive(Debug)]
#[allow(non_camel_case_types)]
pub enum PullRequestState {
    CLOSED,
    MERGED,
    OPEN,
    Other(String),
}

#[derive(Debug)]
pub struct SearchIssuesSearchNodesOnIssue {
    pub title: String,
    pub number: i64,
    pub database_id: Option<i64>,
    pub url: String,
    pub author: Option<SearchIssuesSearchNodesOnIssueAuthor>,
    pub repository: SearchIssuesSearchNodesOnIssueRepository,
    pub state: IssueState,
    pub created_at: String,
    pub updated_at: String,
    pub closed_at: Option<String>,
    pub comments: SearchIssuesSearchNodesOnIssueComments,
}

#[derive(Debug)]
pub enum SearchIssuesSearchNodesOnIssueAuthor {
    Bot,
    EnterpriseUserAccount,
    Mannequin,
    Organization,
    User(UserFragment),
}

#[derive(Debug)]
pub struct SearchIssuesSearchNodesOnIssueRepository {
    pub owner: SearchIssuesSearchNodesOnIssueRepositoryOwner,
    pub name: String,
}

#[derive(Debug)]
pub struct SearchIssuesSearchNodesOnIssueRepositoryOwner {
    pub login: String,
    pub on: SearchIssuesSearchNodesOnIssueRepositoryOwnerOn,
}

#[derive(Debug)]
pub enum SearchIssuesSearchNodesOnIssueRepositoryOwnerOn {
    Organization,
    User,
}

#[derive(Debug)]
pub struct SearchIssuesSearchNodesOnIssueComments {
    pub nodes: Option<Vec<Option<SearchIssuesSearchNodesOnIssueCommentsNodes>>>,
}

#[derive(Debug)]
pub struct SearchIssuesSearchNodesOnIssueCommentsNodes {
    pub author: Option<SearchIssuesSearchNodesOnIssueCommentsNodesAuthor>,
}

#[derive(Debug)]
pub enum SearchIssuesSearchNodesOnIssueCommentsNodesAuthor {
    Bot,
    EnterpriseUserAccount,
    Mannequin,
    Organization,
    User(UserFragment),
}

#[derive(Debug)]
pub struct SearchIssuesSearchNodesOnPullRequest {
    pub title: String,
    pub number: i64,
    pub database_id: Option<i64>,
    pub author: Option<SearchIssuesSearchNodesOnPullRequestAuthor>,
    pub repository: SearchIssuesSearchNodesOnPullRequestRepository,
    pub url: String,
    pub state: PullRequestState,
    pub is_draft: bool,
    pub total_comments_count: Option<i64>,
    pub review_requests: Option<SearchIssuesSearchNodesOnPullRequestReviewRequests>,
    pub review_decision: Option<PullRequestReviewDecision>,
    pub reviews: Option<SearchIssuesSearchNodesOnPullRequestReviews>,
    pub created_at: String,
    pub updated_at: String,
    pub closed_at: Option<String>,
    pub merged_at: Option<String>,
}

#[derive(Debug)]
pub enum SearchIssuesSearchNodesOnPullRequestAuthor {
    Bot,
    EnterpriseUserAccount,
    Mannequin,
    Organization,
    User(UserFragment),
}

#[derive(Debug)]
pub struct SearchIssuesSearchNodesOnPullRequestRepository {
    pub owner: SearchIssuesSearchNodesOnPullRequestRepositoryOwner,
    pub name: String,
}

#[derive(Debug)]
pub struct SearchIssuesSearchNodesOnPullRequestRepositoryOwner {
    pub login: String,
    pub on: SearchIssuesSearchNodesOnPullRequestRepositoryOwnerOn,
}

#[derive(Debug)]
pub enum SearchIssuesSearchNodesOnPullRequestRepositoryOwnerOn {
    Organization,
    User,
}

#[derive(Debug)]
pub struct SearchIssuesSearchNodesOnPullRequestReviewRequests {
    pub nodes: Option<Vec<Option<SearchIssuesSearchNodesOnPullRequestReviewRequestsNodes>>>,
}

#[derive(Debug)]
pub struct SearchIssuesSearchNodesOnPullRequestReviewRequestsNodes {
    pub requested_reviewer: Option<
        SearchIssuesSearchNodesOnPullRequestReviewRequestsNodesRequestedReviewer,
    >,
}

#[derive(Debug)]
pub enum SearchIssuesSearchNodesOnPullRequestReviewRequestsNodesRequestedReviewer {
    Mannequin,
    Team,
    User(UserFragment),
}

#[derive(Debug)]
pub struct SearchIssuesSearchNodesOnPullRequestReviews {
    pub total_count: i64,
}

} // verus!
