use ghd::db::Store;
use ghd::gh::types::GithubUser;
use ghd::gh::users;
use ghd::gh::Github;
use ghd::GHDError;

fn user(id: i64, login: &str) -> GithubUser {
    GithubUser {
        id,
        login: String::from(login),
        name: format!("{} name", login),
        avatar_url: format!("https://example.invalid/{}.png", login),
    }
}

#[test]
fn get_token_reports_missing_when_no_token_was_ever_set() {
    let store = Store::new();
    let gh = Github::new();
    assert!(matches!(gh.get_token(&store), Err(GHDError::CredentialMissing)));
    assert!(!store.has_token());
}

#[test]
fn credential_round_trips_through_set_and_get() {
    let mut store = Store::new();
    let gh = Github::new();
    let token = String::from("SECRET-REDACTED");
    let res = gh.set_token(&mut store, &token, Ok(user(7, "alice")));
    assert!(res.is_ok());
    assert_eq!(res.unwrap().login, "alice");
    assert_eq!(gh.get_token(&store).unwrap(), "SECRET-REDACTED");
    assert!(store.has_token());
}

#[test]
fn rejected_identity_persists_nothing() {
    let mut store = Store::new();
    let gh = Github::new();
    let token = String::from("bad");
    let res = gh.set_token(&mut store, &token, Err(GHDError::CredentialInvalid));
    assert!(matches!(res, Err(GHDError::CredentialInvalid)));
    assert!(matches!(gh.get_token(&store), Err(GHDError::CredentialMissing)));
    assert_eq!(users::get_tracked_users(&store).unwrap().len(), 0);
}

#[test]
fn invalidate_reports_invalid_and_is_idempotent() {
    let mut store = Store::new();
    let gh = Github::new();
    let token = String::from("t1");
    gh.set_token(&mut store, &token, Ok(user(7, "alice"))).unwrap();
    gh.invalidate_token(&mut store);
    assert!(matches!(gh.get_token(&store), Err(GHDError::CredentialInvalid)));
    gh.invalidate_token(&mut store);
    assert!(matches!(gh.get_token(&store), Err(GHDError::CredentialInvalid)));
    // invalidation on an empty store is a no-op as well
    let mut empty = Store::new();
    gh.invalidate_token(&mut empty);
    assert!(matches!(gh.get_token(&empty), Err(GHDError::CredentialMissing)));
}

#[test]
fn a_new_token_supersedes_the_old_one() {
    let mut store = Store::new();
    let gh = Github::new();
    let t1 = String::from("first");
    let t2 = String::from("second");
    gh.set_token(&mut store, &t1, Ok(user(7, "alice"))).unwrap();
    gh.set_token(&mut store, &t2, Ok(user(7, "alice"))).unwrap();
    assert_eq!(gh.get_token(&store).unwrap(), "second");
    gh.invalidate_token(&mut store);
    // the superseded first token must not become active again
    assert!(matches!(gh.get_token(&store), Err(GHDError::CredentialInvalid)));
}

#[test]
fn set_token_tracks_the_owner_once() {
    let mut store = Store::new();
    let gh = Github::new();
    let token = String::from("t");
    gh.set_token(&mut store, &token, Ok(user(7, "alice"))).unwrap();
    let known = users::get_tracked_users(&store).unwrap();
    assert_eq!(known.len(), 1);
    assert_eq!(known[0].id, 7);
    let main = users::get_main_user(&store).unwrap();
    assert_eq!(main.login, "alice");
    // a second token for the same owner does not duplicate the user
    let token2 = String::from("t2");
    gh.set_token(&mut store, &token2, Ok(user(7, "alice"))).unwrap();
    assert_eq!(users::get_tracked_users(&store).unwrap().len(), 1);
}

#[test]
fn get_main_user_without_token_reports_missing() {
    let store = Store::new();
    assert!(matches!(users::get_main_user(&store), Err(GHDError::CredentialMissing)));
}

#[test]
fn track_user_returns_existing_or_adds_fetched() {
    let mut store = Store::new();
    let gh = Github::new();
    let alice = String::from("alice");
    let bob = String::from("bob");
    let added = gh.track_user(&mut store, &alice, Some(user(1, "alice"))).unwrap();
    assert_eq!(added.id, 1);
    // tracking again returns the existing record, ignoring the fetch
    let again = gh.track_user(&mut store, &alice, None).unwrap();
    assert_eq!(again.id, 1);
    // an unreachable login is reported
    assert!(matches!(
        gh.track_user(&mut store, &bob, None),
        Err(GHDError::ResourceNotFound)
    ));
    // a fetched record whose login does not match the request is refused
    assert!(matches!(
        gh.track_user(&mut store, &bob, Some(user(2, "carol"))),
        Err(GHDError::UnknownError)
    ));
    assert_eq!(users::get_tracked_users(&store).unwrap().len(), 1);
}

#[test]
fn user_lookup_by_login() {
    let mut store = Store::new();
    let gh = Github::new();
    let alice = String::from("alice");
    gh.track_user(&mut store, &alice, Some(user(1, "alice"))).unwrap();
    assert!(users::user_exists(&store, &alice));
    assert_eq!(gh.get_user_by_login(&store, &alice).unwrap().id, 1);
    let bob = String::from("bob");
    assert!(!users::user_exists(&store, &bob));
    assert!(matches!(
        gh.get_user_by_login(&store, &bob),
        Err(GHDError::ResourceNotFound)
    ));
}

#[test]
fn user_reply_projection_keeps_fields() {
    let reply = ghd::gh::rest::GithubUserReply {
        login: String::from("alice"),
        id: 9,
        node_id: String::from("n1"),
        avatar_url: String::from("https://example.invalid/a.png"),
        name: String::from("Alice"),
    };
    let u = users::user_reply_to_user(reply);
    assert_eq!(u.id, 9);
    assert_eq!(u.login, "alice");
    assert_eq!(u.name, "Alice");
    assert_eq!(u.avatar_url, "https://example.invalid/a.png");
}
