use ghd::bg::{plan_tick, process_refresh_result, RefreshOutcome};
use ghd::common::has_expired;
use ghd::db::Store;
use ghd::gh::refresh::{get_user_refresh, should_refresh_user, stale_at, USER_REFRESH_INTERVAL};
use ghd::gh::types::{GithubUser, Issue, PullRequest, UserUpdate};
use ghd::gh::Github;
use ghd::GHDError;

fn user(id: i64, login: &str) -> GithubUser {
    GithubUser {
        id,
        login: String::from(login),
        name: String::from(login),
        avatar_url: String::new(),
    }
}

fn issue(id: i64, updated_at: i64) -> Issue {
    Issue {
        id,
        number: id,
        title: format!("issue {}", id),
        author: String::from("alice"),
        author_id: 1,
        url: String::new(),
        repo_owner: String::from("acme"),
        repo_name: String::from("widgets"),
        state: String::from("open"),
        created_at: 1,
        updated_at,
        closed_at: None,
        is_pull_request: false,
        last_viewed: None,
    }
}

fn update(when: i64, issues: Vec<Issue>, prs: Vec<PullRequest>) -> UserUpdate {
    UserUpdate { when, issues, prs }
}

#[test]
fn staleness_window_edges() {
    let window = USER_REFRESH_INTERVAL;
    // never refreshed counts as stale regardless of the window
    assert!(stale_at(-1, window, 0));
    assert!(stale_at(0, window, 1_000_000));
    // within the window: fresh
    assert!(!stale_at(100, window, 100));
    assert!(!stale_at(100, window, 100 + window));
    // one past the window: stale
    assert!(stale_at(100, window, 100 + window + 1));
    // an overflowing deadline can never lie in the past
    assert!(!stale_at(i64::MAX - 1, window, i64::MAX));
}

#[test]
fn has_expired_is_a_strict_deadline() {
    assert!(!has_expired(10, 5, 15));
    assert!(has_expired(10, 5, 16));
    assert!(!has_expired(i64::MAX, 1, 0));
}

#[test]
fn never_refreshed_user_is_always_stale() {
    let mut store = Store::new();
    let gh = Github::new();
    let alice = String::from("alice");
    gh.track_user(&mut store, &alice, Some(user(1, "alice"))).unwrap();
    assert!(matches!(
        get_user_refresh(&store, 1),
        Err(GHDError::NeverRefreshed)
    ));
    assert!(should_refresh_user(&store, &alice, USER_REFRESH_INTERVAL, 5));
    // an unknown login is never refreshed by the engine
    let bob = String::from("bob");
    assert!(!should_refresh_user(&store, &bob, USER_REFRESH_INTERVAL, 5));
    assert!(matches!(
        get_user_refresh(&store, 2),
        Err(GHDError::ResourceNotFound)
    ));
}

#[test]
fn tick_plans_nothing_without_a_valid_credential() {
    let mut store = Store::new();
    let gh = Github::new();
    let alice = String::from("alice");
    gh.track_user(&mut store, &alice, Some(user(1, "alice"))).unwrap();
    // no token at all: no work
    assert_eq!(plan_tick(&store, USER_REFRESH_INTERVAL, 100).len(), 0);
    // valid token: the stale user is planned
    let token = String::from("t");
    gh.set_token(&mut store, &token, Ok(user(1, "alice"))).unwrap();
    assert_eq!(plan_tick(&store, USER_REFRESH_INTERVAL, 100).len(), 1);
    // invalidated token: work stops until a new credential arrives
    gh.invalidate_token(&mut store);
    assert_eq!(plan_tick(&store, USER_REFRESH_INTERVAL, 100).len(), 0);
}

#[test]
fn first_refresh_populates_and_second_is_skipped() {
    // scenario: alice has never been refreshed
    let mut store = Store::new();
    let gh = Github::new();
    let alice = String::from("alice");
    let token = String::from("t");
    gh.set_token(&mut store, &token, Ok(user(1, "alice"))).unwrap();
    let now = 10_000;
    // the first tick plans alice
    let planned = plan_tick(&store, USER_REFRESH_INTERVAL, now);
    assert_eq!(planned.len(), 1);
    assert_eq!(planned[0].login, "alice");
    // the fetch returns all her open involvement; it is persisted and the
    // refresh time advances to "now"
    let fetched = update(now, vec![issue(10, 500), issue(11, 600)], vec![]);
    let outcome = process_refresh_result(&gh, &mut store, &alice, Ok(fetched));
    assert_eq!(outcome, RefreshOutcome::Updated);
    assert_eq!(ghd::gh::prs::get_all_prs_from_db(&store).unwrap().len(), 0);
    assert!(ghd::gh::prs::get_issue_by_id(&store, 10).is_ok());
    assert!(ghd::gh::prs::get_issue_by_id(&store, 11).is_ok());
    assert_eq!(get_user_refresh(&store, 1).unwrap(), now);
    // an immediate second tick, within the staleness window, plans no
    // remote call at all
    assert_eq!(plan_tick(&store, USER_REFRESH_INTERVAL, now + 1).len(), 0);
    assert!(!should_refresh_user(&store, &alice, USER_REFRESH_INTERVAL, now + 1));
    // and a forced refresh with an empty delta reports "no update"
    let empty = update(now + 2, vec![], vec![]);
    let outcome = process_refresh_result(&gh, &mut store, &alice, Ok(empty));
    assert_eq!(outcome, RefreshOutcome::NoUpdate);
}

#[test]
fn credential_rejection_invalidates_and_moves_on() {
    // scenario: the remote call for bob reports an authentication rejection
    let mut store = Store::new();
    let gh = Github::new();
    let token = String::from("t");
    gh.set_token(&mut store, &token, Ok(user(1, "alice"))).unwrap();
    let bob = String::from("bob");
    gh.track_user(&mut store, &bob, Some(user(2, "bob"))).unwrap();
    let outcome = process_refresh_result(&gh, &mut store, &bob, Err(GHDError::CredentialInvalid));
    assert_eq!(outcome, RefreshOutcome::CredentialInvalidated);
    // the credential store reports Invalid afterwards
    assert!(matches!(gh.get_token(&store), Err(GHDError::CredentialInvalid)));
    // processing the next tracked user does not raise; it is contained
    let alice = String::from("alice");
    let outcome = process_refresh_result(&gh, &mut store, &alice, Err(GHDError::TransientError));
    assert_eq!(outcome, RefreshOutcome::Skipped(GHDError::TransientError));
    // and the scheduler plans nothing further until a new credential is set
    assert_eq!(plan_tick(&store, USER_REFRESH_INTERVAL, i64::MAX - 1).len(), 0);
}

#[test]
fn transient_failure_leaves_user_stale() {
    let mut store = Store::new();
    let gh = Github::new();
    let alice = String::from("alice");
    let token = String::from("t");
    gh.set_token(&mut store, &token, Ok(user(1, "alice"))).unwrap();
    let outcome = process_refresh_result(&gh, &mut store, &alice, Err(GHDError::TransientError));
    assert_eq!(outcome, RefreshOutcome::Skipped(GHDError::TransientError));
    // still stale: a later tick retries
    assert!(should_refresh_user(&store, &alice, USER_REFRESH_INTERVAL, 50));
    // an unknown login is skipped as not found
    let eve = String::from("eve");
    let outcome = process_refresh_result(&gh, &mut store, &eve, Err(GHDError::TransientError));
    assert_eq!(outcome, RefreshOutcome::Skipped(GHDError::ResourceNotFound));
}

#[test]
fn refresh_user_advances_the_clock_even_on_empty_deltas() {
    let mut store = Store::new();
    let gh = Github::new();
    let alice = String::from("alice");
    gh.track_user(&mut store, &alice, Some(user(1, "alice"))).unwrap();
    let first = gh.refresh_user(&mut store, &alice, Ok(update(100, vec![], vec![]))).unwrap();
    assert!(!first);
    assert_eq!(get_user_refresh(&store, 1).unwrap(), 100);
    let second = gh
        .refresh_user(&mut store, &alice, Ok(update(200, vec![issue(1, 1)], vec![])))
        .unwrap();
    assert!(second);
    assert_eq!(get_user_refresh(&store, 1).unwrap(), 200);
}

#[test]
fn populate_refuses_second_population() {
    let mut store = Store::new();
    let gh = Github::new();
    let alice = String::from("alice");
    gh.track_user(&mut store, &alice, Some(user(1, "alice"))).unwrap();
    gh.populate_user(&mut store, &alice, &update(100, vec![issue(5, 5)], vec![])).unwrap();
    assert_eq!(get_user_refresh(&store, 1).unwrap(), 100);
    assert!(matches!(
        gh.populate_user(&mut store, &alice, &update(200, vec![], vec![])),
        Err(GHDError::UnknownError)
    ));
    let bob = String::from("bob");
    assert!(matches!(
        gh.populate_user(&mut store, &bob, &update(100, vec![], vec![])),
        Err(GHDError::ResourceNotFound)
    ));
}
