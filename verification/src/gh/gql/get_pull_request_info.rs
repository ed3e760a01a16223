use vstd::prelude::*;

verus! {

/// Wire shape of the single-pull-request detail query: repository and pull
/// request are looked up by owner, name and number; the reply carries the
/// pull request's body, milestone, labels, participants and reviews.
#[derive(Debug)]
pub struct Variables {
    pub owner: String,
    pub repo: String,
    pub prid: i64,
}

#[derive(Debug)]
pub struct UserFragment {
    pub login: String,
    pub database_id: Option<i64>,
    pub name: Option<String>,
    pub avatar_url: String,
}

#[derive(Debug)]
#[allow(non_camel_case_types)]
pub enum MilestoneState {
    CLOSED,
    OPEN,
    Other(String),
}

#[derive(Debug)]
#[allow(non_camel_case_types)]
pub enum PullRequestReviewState {
    APPROVED,
    CHANGES_REQUESTED,
    COMMENTED,
    DISMISSED,
    PENDING,
    Other(String),
}

#[derive(Debug)]
#[allow(non_camel_case_types)]
pub enum PullRequestState {
    CLOSED,
    MERGED,
    OPEN,
    Other(String),
}

#[derive(Debug)]
pub struct ResponseData {
    pub repository: Option<GetPullRequestInfoRepository>,
}

#[derive(Debug)]
pub struct GetPullRequestInfoRepository {
    pub pull_request: Option<GetPullRequestInfoRepositoryPullRequest>,
}

#[derive(Debug)]
pub struct GetPullRequestInfoRepositoryPullRequest {
    pub number: i64,
    pub title: String,
    pub body_html: String,
    pub author: Option<GetPullRequestInfoRepositoryPullRequestAuthor>,
    pub repository: GetPullRequestInfoRepositoryPullRequestRepository,
    pub url: String,
    pub state: PullRequestState,
    pub is_draft: bool,
    pub milestone: Option<GetPullRequestInfoRepositoryPullRequestMilestone>,
    pub labels: Option<GetPullRequestInfoRepositoryPullRequestLabels>,
    pub total_comments_count: Option<i64>,
    pub comments: GetPullRequestInfoRepositoryPullRequestComments,
    pub reviews: Option<GetPullRequestInfoRepositoryPullRequestReviews>,
    pub participants: GetPullRequestInfoRepositoryPullRequestParticipants,
}

#[derive(Debug)]
pub enum GetPullRequestInfoRepositoryPullRequestAuthor {
    Bot,
    EnterpriseUserAccount,
    Mannequin,
    Organization,
    User(UserFragment),
}

#[derive(Debug)]
pub struct GetPullRequestInfoRepositoryPullRequestRepository {
    pub owner: GetPullRequestInfoRepositoryPullRequestRepositoryOwner,
    pub name: String,
}

#[derive(Debug)]
pub struct GetPullRequestInfoRepositoryPullRequestRepositoryOwner {
    pub login: String,
    pub on: GetPullRequestInfoRepositoryPullRequestRepositoryOwnerOn,
}

#[derive(Debug)]
pub enum GetPullRequestInfoRepositoryPullRequestRepositoryOwnerOn {
    Organization,
    User,
}

#[derive(Debug)]
pub struct GetPullRequestInfoRepositoryPullRequestMilestone {
    pub title: String,
    pub state: MilestoneState,
    pub due_on: Option<String>,
}

#[derive(Debug)]
pub struct GetPullRequestInfoRepositoryPullRequestLabels {
    pub nodes: Option<Vec<Option<GetPullRequestInfoRepositoryPullRequestLabelsNodes>>>,
}

#[derive(Debug)]
pub struct GetPullRequestInfoRepositoryPullRequestLabelsNodes {
    pub color: String,
    pub name: String,
}

#[derive(Debug)]
pub struct GetPullRequestInfoRepositoryPullRequestComments {
    pub nodes: Option<Vec<Option<GetPullRequestInfoRepositoryPullRequestCommentsNodes>>>,
}

#[derive(Debug)]
pub struct GetPullRequestInfoRepositoryPullRequestCommentsNodes {
    pub author: Option<GetPullRequestInfoRepositoryPullRequestCommentsNodesAuthor>,
}

#[derive(Debug)]
pub enum GetPullRequestInfoRepositoryPullRequestCommentsNodesAuthor {
    Bot,
    EnterpriseUserAccount,
    Mannequin,
    Organization,
    User(UserFragment),
}

#[derive(Debug)]
pub struct GetPullRequestInfoRepositoryPullRequestReviews {
    pub nodes: Option<Vec<Option<GetPullRequestInfoRepositoryPullRequestReviewsNodes>>>,
}

#[derive(Debug)]
pub struct GetPullRequestInfoRepositoryPullRequestReviewsNodes {
    pub author: Option<GetPullRequestInfoRepositoryPullRequestReviewsNodesAuthor>,
    pub state: PullRequestReviewState,
}

#[derive(Debug)]
pub enum GetPullRequestInfoRepositoryPullRequestReviewsNodesAuthor {
    Bot,
    EnterpriseUserAccount,
    Mannequin,
    Organization,
    User(UserFragment),
}

#[derive(Debug)]
pub struct GetPullRequestInfoRepositoryPullRequestParticipants {
    pub nodes: Option<Vec<Option<GetPullRequestInfoRepositoryPullRequestParticipantsNodes>>>,
}

#[derive(Debug)]
pub struct GetPullRequestInfoRepositoryPullRequestParticipantsNodes {
    pub login: String,
    pub name: Option<String>,
    pub avatar_url: String,
    pub database_id: Option<i64>,
}

} // verus!
