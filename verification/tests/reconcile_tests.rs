use ghd::db::Store;
use ghd::gh::prs;
use ghd::gh::types::{GithubUser, Issue, PullRequest};
use ghd::gh::users;
use ghd::gh::Github;
use ghd::GHDError;

fn user(id: i64, login: &str) -> GithubUser {
    GithubUser {
        id,
        login: String::from(login),
        name: String::from(login),
        avatar_url: String::new(),
    }
}

fn issue(id: i64, author: &str, updated_at: i64, is_pr: bool) -> Issue {
    Issue {
        id,
        number: id + 1000,
        title: format!("issue {}", id),
        author: String::from(author),
        author_id: 1,
        url: format!("https://example.invalid/{}", id),
        repo_owner: String::from("acme"),
        repo_name: String::from("widgets"),
        state: String::from("open"),
        created_at: 1000,
        updated_at,
        closed_at: None,
        is_pull_request: is_pr,
        last_viewed: None,
    }
}

fn pull(id: i64, author: &str, updated_at: i64) -> PullRequest {
    PullRequest {
        issue: issue(id, author, updated_at, true),
        is_draft: false,
        review_decision: String::from("approved"),
        merged_at: None,
    }
}

/// A store tracking alice (id 1), with a batch of two pull requests and one
/// issue reconciled for her.
fn populated() -> (Store, Github) {
    let mut store = Store::new();
    let gh = Github::new();
    let alice = String::from("alice");
    gh.track_user(&mut store, &alice, Some(user(1, "alice"))).unwrap();
    let issues = vec![issue(10, "alice", 500, false)];
    let prs = vec![pull(20, "alice", 600), pull(30, "bob", 700)];
    prs::consume_issues(&mut store, 1, &issues, &prs).unwrap();
    (store, gh)
}

fn snapshot(store: &Store) -> Vec<(i64, i64, String, Option<i64>, Option<i64>)> {
    prs::get_all_prs_from_db(store)
        .unwrap()
        .into_iter()
        .map(|e| (e.id, e.updated_at, e.title, e.last_viewed, e.archived_at))
        .collect()
}

#[test]
fn reconcile_is_idempotent() {
    let (mut store, _gh) = populated();
    let once = snapshot(&store);
    let issues = vec![issue(10, "alice", 500, false)];
    let prs_batch = vec![pull(20, "alice", 600), pull(30, "bob", 700)];
    prs::consume_issues(&mut store, 1, &issues, &prs_batch).unwrap();
    assert_eq!(snapshot(&store), once);
}

#[test]
fn reconcile_upserts_and_preserves_user_fields() {
    let (mut store, _gh) = populated();
    // mark one viewed and archive another, then reconcile fresh remote data
    prs::mark_viewed(&mut store, 20, 900).unwrap();
    prs::archive_issue(&mut store, 30, 901).unwrap();
    let newer = vec![pull(20, "alice", 650), pull(30, "bob", 750)];
    prs::consume_issues(&mut store, 1, &Vec::new(), &newer).unwrap();
    let rows = prs::get_all_prs_from_db(&store).unwrap();
    let e20 = rows.iter().find(|e| e.id == 20).unwrap();
    let e30 = rows.iter().find(|e| e.id == 30).unwrap();
    // remote-sourced fields advanced, user-action fields survived
    assert_eq!(e20.updated_at, 650);
    assert_eq!(e20.last_viewed, Some(900));
    assert_eq!(e30.updated_at, 750);
    assert_eq!(e30.archived_at, Some(901));
}

#[test]
fn authored_feed_filters_and_orders() {
    let (store, gh) = populated();
    let alice = String::from("alice");
    let authored = gh.get_pulls_by_author(&store, &alice).unwrap();
    // only alice's pull request; the plain issue has no pull-request row
    assert_eq!(authored.len(), 1);
    assert_eq!(authored[0].id, 20);
    let bob = String::from("bob");
    let bobs = gh.get_pulls_by_author(&store, &bob).unwrap();
    assert_eq!(bobs.len(), 1);
    assert_eq!(bobs[0].id, 30);
}

#[test]
fn involved_feed_excludes_own_and_orders_most_recent_first() {
    let (mut store, gh) = populated();
    let alice = String::from("alice");
    let extra = vec![pull(40, "carol", 800), pull(50, "dave", 400)];
    prs::consume_issues(&mut store, 1, &Vec::new(), &extra).unwrap();
    let involved = gh.get_involved_pulls(&store, &alice).unwrap();
    let ids: Vec<i64> = involved.iter().map(|e| e.id).collect();
    // bob's, carol's and dave's pull requests, newest update first
    assert_eq!(ids, vec![40, 30, 50]);
    for w in involved.windows(2) {
        assert!(w[0].updated_at >= w[1].updated_at);
    }
    // an untracked login has an empty feed
    let eve = String::from("eve");
    assert_eq!(gh.get_involved_pulls(&store, &eve).unwrap().len(), 0);
}

#[test]
fn mark_viewed_sets_only_the_viewed_mark() {
    let (mut store, gh) = populated();
    let before = prs::get_issue_by_id(&store, 20).unwrap();
    assert_eq!(before.last_viewed, None);
    let now = 12345;
    gh.mark_pull_request_viewed(&mut store, 20, now).unwrap();
    let after = prs::get_issue_by_id(&store, 20).unwrap();
    assert_eq!(after.last_viewed, Some(now));
    assert!(after.last_viewed.unwrap() >= now);
    // every other field is untouched
    assert_eq!(after.id, before.id);
    assert_eq!(after.number, before.number);
    assert_eq!(after.title, before.title);
    assert_eq!(after.author, before.author);
    assert_eq!(after.author_id, before.author_id);
    assert_eq!(after.url, before.url);
    assert_eq!(after.repo_owner, before.repo_owner);
    assert_eq!(after.repo_name, before.repo_name);
    assert_eq!(after.state, before.state);
    assert_eq!(after.created_at, before.created_at);
    assert_eq!(after.updated_at, before.updated_at);
    assert_eq!(after.closed_at, before.closed_at);
    assert_eq!(after.is_pull_request, before.is_pull_request);
    assert_eq!(after.archived_at, before.archived_at);
}

#[test]
fn mark_viewed_unknown_issue_reports_not_found() {
    let (mut store, gh) = populated();
    assert!(matches!(
        gh.mark_pull_request_viewed(&mut store, 999, 1),
        Err(GHDError::ResourceNotFound)
    ));
}

#[test]
fn mark_viewed_many_is_all_or_nothing() {
    let (mut store, gh) = populated();
    let before = snapshot(&store);
    // a missing id in the middle of the batch must leave no partial state
    let batch = vec![20, 999, 30];
    assert!(matches!(
        gh.mark_pull_request_viewed_many(&mut store, &batch, 50),
        Err(GHDError::ResourceNotFound)
    ));
    assert_eq!(snapshot(&store), before);
    // the same batch without the bad id marks all
    let good = vec![20, 30];
    gh.mark_pull_request_viewed_many(&mut store, &good, 50).unwrap();
    assert_eq!(prs::get_issue_by_id(&store, 20).unwrap().last_viewed, Some(50));
    assert_eq!(prs::get_issue_by_id(&store, 30).unwrap().last_viewed, Some(50));
}

#[test]
fn archive_excludes_from_feeds_but_keeps_the_row() {
    let (mut store, gh) = populated();
    let alice = String::from("alice");
    assert_eq!(gh.get_pulls_by_author(&store, &alice).unwrap().len(), 1);
    gh.archive_issue(&mut store, 20, 777).unwrap();
    // gone from the authored feed...
    assert_eq!(gh.get_pulls_by_author(&store, &alice).unwrap().len(), 0);
    // ...and from every involving feed...
    let bob = String::from("bob");
    assert!(gh.get_involved_pulls(&store, &bob).unwrap().iter().all(|e| e.id != 20));
    // ...but the row itself is intact, as the unfiltered query shows
    let all = prs::get_all_prs_from_db(&store).unwrap();
    let row = all.iter().find(|e| e.id == 20).unwrap();
    assert_eq!(row.archived_at, Some(777));
    assert_eq!(row.title, "issue 20");
    assert_eq!(row.updated_at, 600);
}

#[test]
fn archive_many_is_all_or_nothing() {
    let (mut store, gh) = populated();
    let before = snapshot(&store);
    let batch = vec![20, 999];
    assert!(matches!(
        gh.archive_issue_many(&mut store, &batch, 5),
        Err(GHDError::ResourceNotFound)
    ));
    assert_eq!(snapshot(&store), before);
    let good = vec![20, 30];
    gh.archive_issue_many(&mut store, &good, 5).unwrap();
    assert_eq!(prs::get_issue_by_id(&store, 20).unwrap().archived_at, Some(5));
    assert_eq!(prs::get_issue_by_id(&store, 30).unwrap().archived_at, Some(5));
}

#[test]
fn get_issue_by_id_round_trips() {
    let (store, _gh) = populated();
    let row = prs::get_issue_by_id(&store, 10).unwrap();
    assert_eq!(row.id, 10);
    assert_eq!(row.is_pull_request, false);
    assert!(matches!(
        prs::get_issue_by_id(&store, 404),
        Err(GHDError::ResourceNotFound)
    ));
}

#[test]
fn reconcile_links_issues_to_the_user() {
    let (mut store, gh) = populated();
    // a second tracked user sees their own involvement only
    let bob = String::from("bob");
    gh.track_user(&mut store, &bob, Some(user(2, "bob"))).unwrap();
    let bobs_batch = vec![pull(60, "alice", 900)];
    prs::consume_issues(&mut store, 2, &Vec::new(), &bobs_batch).unwrap();
    let involved = gh.get_involved_pulls(&store, &bob).unwrap();
    let ids: Vec<i64> = involved.iter().map(|e| e.id).collect();
    assert_eq!(ids, vec![60]);
}
