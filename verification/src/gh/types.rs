use vstd::prelude::*;

verus! {

/// A tracked user, as kept in the `users` table. The numeric `id` is the
/// remote platform's own identifier and is immutable; `login` is unique.
#[derive(Debug)]
pub struct GithubUser {
    pub id: i64,
    pub login: String,
    pub name: String,
    pub avatar_url: String,
}

impl Clone for GithubUser {
    fn clone(&self) -> (r: Self)
        ensures
            r == *self,
    {
        GithubUser {
            id: self.id,
            login: self.login.clone(),
            name: self.name.clone(),
            avatar_url: self.avatar_url.clone(),
        }
    }
}

/// A row of the `issues` table: one issue or pull request as cached locally.
///
/// `last_viewed` and `archived_at` are set only by explicit user action and
/// survive reconciliation; all timestamps are epoch seconds.
#[derive(Debug)]
pub struct IssueTableEntry {
    pub id: i64,
    pub number: i64,
    pub title: String,
    pub author: String,
    pub author_id: i64,
    pub url: String,
    pub repo_owner: String,
    pub repo_name: String,
    pub state: String,
    pub created_at: i64,
    pub updated_at: i64,
    pub closed_at: Option<i64>,
    pub is_pull_request: bool,
    pub last_viewed: Option<i64>,
    pub archived_at: Option<i64>,
}

impl Clone for IssueTableEntry {
    fn clone(&self) -> (r: Self)
        ensures
            r == *self,
    {
        IssueTableEntry {
            id: self.id,
            number: self.number,
            title: self.title.clone(),
            author: self.author.clone(),
            author_id: self.author_id,
            url: self.url.clone(),
            repo_owner: self.repo_owner.clone(),
            repo_name: self.repo_name.clone(),
            state: self.state.clone(),
            created_at: self.created_at,
            updated_at: self.updated_at,
            closed_at: self.closed_at,
            is_pull_request: self.is_pull_request,
            last_viewed: self.last_viewed,
            archived_at: self.archived_at,
        }
    }
}

/// A row of the `pull_requests` table, keyed by the same identifier as the
/// `issues` row it extends.
#[derive(Debug)]
pub struct PullRequestRow {
    pub id: i64,
    pub is_draft: bool,
    pub review_decision: String,
    pub merged_at: Option<i64>,
}

impl Clone for PullRequestRow {
    fn clone(&self) -> (r: Self)
        ensures
            r == *self,
    {
        PullRequestRow {
            id: self.id,
            is_draft: self.is_draft,
            review_decision: self.review_decision.clone(),
            merged_at: self.merged_at,
        }
    }
}

/// The result of joining an `issues` row with its `pull_requests` extension:
/// all issue columns plus the pull-request-only columns.
#[derive(Debug)]
pub struct PullRequestTableEntry {
    pub id: i64,
    pub number: i64,
    pub title: String,
    pub author: String,
    pub author_id: i64,
    pub url: String,
    pub repo_owner: String,
    pub repo_name: String,
    pub state: String,
    pub created_at: i64,
    pub updated_at: i64,
    pub closed_at: Option<i64>,
    pub is_pull_request: bool,
    pub last_viewed: Option<i64>,
    pub archived_at: Option<i64>,
    pub is_draft: bool,
    pub review_decision: String,
    pub merged_at: Option<i64>,
}

impl Clone for PullRequestTableEntry {
    fn clone(&self) -> (r: Self)
        ensures
            r == *self,
    {
        PullRequestTableEntry {
            id: self.id,
            number: self.number,
            title: self.title.clone(),
            author: self.author.clone(),
            author_id: self.author_id,
            url: self.url.clone(),
            repo_owner: self.repo_owner.clone(),
            repo_name: self.repo_name.clone(),
            state: self.state.clone(),
            created_at: self.created_at,
            updated_at: self.updated_at,
            closed_at: self.closed_at,
            is_pull_request: self.is_pull_request,
            last_viewed: self.last_viewed,
            archived_at: self.archived_at,
            is_draft: self.is_draft,
            review_decision: self.review_decision.clone(),
            merged_at: self.merged_at,
        }
    }
}

/// A row of the `user_issues` association table: the issue is relevant to the
/// user's feed. Composite key `(user_id, issue_id)`.
#[derive(Debug)]
pub struct UserIssuesTableEntry {
    pub user_id: i64,
    pub issue_id: i64,
}

impl Clone for UserIssuesTableEntry {
    fn clone(&self) -> (r: Self)
        ensures
            r == *self,
    {
        UserIssuesTableEntry { user_id: self.user_id, issue_id: self.issue_id }
    }
}

/// An issue as fetched from the remote side, before it is reconciled into the
/// cache.
#[derive(Debug)]
pub struct Issue {
    pub id: i64,
    pub number: i64,
    pub title: String,
    pub author: String,
    pub author_id: i64,
    pub url: String,
    pub repo_owner: String,
    pub repo_name: String,
    pub state: String,
    pub created_at: i64,
    pub updated_at: i64,
    pub closed_at: Option<i64>,
    pub is_pull_request: bool,
    pub last_viewed: Option<i64>,
}

impl Clone for Issue {
    fn clone(&self) -> (r: Self)
        ensures
            r == *self,
    {
        Issue {
            id: self.id,
            number: self.number,
            title: self.title.clone(),
            author: self.author.clone(),
            author_id: self.author_id,
            url: self.url.clone(),
            repo_owner: self.repo_owner.clone(),
            repo_name: self.repo_name.clone(),
            state: self.state.clone(),
            created_at: self.created_at,
            updated_at: self.updated_at,
            closed_at: self.closed_at,
            is_pull_request: self.is_pull_request,
            last_viewed: self.last_viewed,
        }
    }
}

/// A pull request as fetched from the remote side: its issue projection plus
/// the pull-request-only fields.
#[derive(Debug)]
pub struct PullRequest {
    pub issue: Issue,
    pub is_draft: bool,
    pub review_decision: String,
    pub merged_at: Option<i64>,
}

impl Clone for PullRequest {
    fn clone(&self) -> (r: Self)
        ensures
            r == *self,
    {
        PullRequest {
            issue: self.issue.clone(),
            is_draft: self.is_draft,
            review_decision: self.review_decision.clone(),
            merged_at: self.merged_at,
        }
    }
}

/// One remote fetch's result for a tracked user: the changed issues and pull
/// requests, and the time the fetch completed (epoch seconds).
#[derive(Debug)]
pub struct UserUpdate {
    pub when: i64,
    pub issues: Vec<Issue>,
    pub prs: Vec<PullRequest>,
}

/// A pull request's detailed information, as shown in a detail view.
#[derive(Debug)]
pub struct PullRequestInfo {
    pub number: i64,
    pub title: String,
    pub body_html: String,
    pub author: GithubUser,
    pub repo_owner: String,
    pub repo_name: String,
    pub url: String,
    pub state: String,
    pub is_draft: bool,
    pub milestone: Option<Milestone>,
    pub labels: Vec<Label>,
    pub total_comments: i64,
    pub participants: Vec<GithubUser>,
    pub reviews: Vec<UserReview>,
}

/// A milestone attached to a pull request; `due_on_ts` is epoch seconds.
#[derive(Debug)]
pub struct Milestone {
    pub title: String,
    pub state: String,
    pub due_on_ts: Option<i64>,
}

/// A label attached to a pull request.
#[derive(Debug)]
pub struct Label {
    pub color: String,
    pub name: String,
}

/// One user's review on a pull request.
#[derive(Debug)]
pub struct UserReview {
    pub author: GithubUser,
    pub state: String,
}

} // verus!
