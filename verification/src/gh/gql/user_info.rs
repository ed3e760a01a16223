use vstd::prelude::*;

verus! {

/// Wire shape of the per-user overview query: a user's profile together
/// with their open pull requests and issues. The issue-search query has
/// superseded it for refreshing, but the reply shape remains part of the
/// remote protocol surface.
#[derive(Debug)]
pub struct Variables {
    pub login: String,
}

#[derive(Debug)]
#[allow(non_camel_case_types)]
pub enum PullRequestReviewDecision {
    APPROVED,
    CHANGES_REQUESTED,
    REVIEW_REQUIRED,
    Other(String),
}

#[derive(Debug)]
pub struct ResponseData {
    pub user: Option<UserInfoUser>,
}

#[derive(Debug)]
pub struct UserInfoUser {
    pub name: Option<String>,
    pub login: String,
    pub avatar_url: String,
    pub database_id: Option<i64>,
    pub pull_requests: UserInfoUserPullRequests,
    pub issues: UserInfoUserIssues,
}

#[derive(Debug)]
pub struct UserInfoUserPullRequests {
    pub nodes: Option<Vec<Option<UserInfoUserPullRequestsNodes>>>,
}

#[derive(Debug)]
pub struct UserInfoUserPullRequestsNodes {
    pub title: String,
    pub number: i64,
    pub database_id: Option<i64>,
    pub total_comments_count: Option<i64>,
    pub created_at: String,
    pub updated_at: String,
    pub is_draft: bool,
    pub milestone: Option<UserInfoUserPullRequestsNodesMilestone>,
    pub repository: UserInfoUserPullRequestsNodesRepository,
    pub review_decision: Option<PullRequestReviewDecision>,
    pub reviews: Option<UserInfoUserPullRequestsNodesReviews>,
}

#[derive(Debug)]
pub struct UserInfoUserPullRequestsNodesMilestone {
    pub id: String,
}

#[derive(Debug)]
pub struct UserInfoUserPullRequestsNodesRepository {
    pub owner: UserInfoUserPullRequestsNodesRepositoryOwner,
    pub name: String,
}

#[derive(Debug)]
pub struct UserInfoUserPullRequestsNodesRepositoryOwner {
    pub login: String,
    pub on: UserInfoUserPullRequestsNodesRepositoryOwnerOn,
}

#[derive(Debug)]
pub enum UserInfoUserPullRequestsNodesRepositoryOwnerOn {
    Organization,
    User,
}

#[derive(Debug)]
pub struct UserInfoUserPullRequestsNodesReviews {
    pub total_count: i64,
}

#[derive(Debug)]
pub struct UserInfoUserIssues {
    pub nodes: Option<Vec<Option<UserInfoUserIssuesNodes>>>,
}

#[derive(Debug)]
pub struct UserInfoUserIssuesNodes {
    pub title: String,
    pub number: i64,
    pub database_id: Option<i64>,
    pub updated_at: String,
    pub author: Option<UserInfoUserIssuesNodesAuthor>,
    pub participants: UserInfoUserIssuesNodesParticipants,
    pub assignees: UserInfoUserIssuesNodesAssignees,
}

#[derive(Debug)]
pub struct UserInfoUserIssuesNodesAuthor {
    pub login: String,
    pub on: UserInfoUserIssuesNodesAuthorOn,
}

#[derive(Debug)]
pub enum UserInfoUserIssuesNodesAuthorOn {
    Bot,
    EnterpriseUserAccount,
    Mannequin,
    Organization,
    User,
}

#[derive(Debug)]
pub struct UserInfoUserIssuesNodesParticipants {
    pub total_count: i64,
}

#[derive(Debug)]
pub struct UserInfoUserIssuesNodesAssignees {
    pub nodes: Option<Vec<Option<UserInfoUserIssuesNodesAssigneesNodes>>>,
}

#[derive(Debug)]
pub struct UserInfoUserIssuesNodesAssigneesNodes {
    pub login: String,
}

} // verus!
