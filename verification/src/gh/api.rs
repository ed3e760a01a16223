use vstd::prelude::*;

verus! {

/// A user as the REST search API describes it.
#[derive(Debug)]
pub struct GithubAPIUser {
    pub id: i64,
    pub login: String,
    pub avatar_url: String,
}

/// A label as the REST search API describes it.
#[derive(Debug)]
pub struct GithubAPILabel {
    pub id: i64,
    pub node_id: String,
    pub url: String,
    pub name: String,
    pub color: String,
}

/// A milestone as the REST search API describes it.
#[derive(Debug)]
pub struct GithubAPIMilestone {
    pub id: i64,
    pub number: i64,
    pub title: String,
    pub state: String,
}

} // verus!
