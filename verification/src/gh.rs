use vstd::prelude::*;

pub mod api;
pub mod gql;
pub mod prs;
pub mod refresh;
pub mod rest;
pub mod types;
pub mod users;

use crate::db::{active_token_of, get_token_of, tokens_after_invalidate, tokens_after_store,
    RefreshEntry, Store};
use crate::errors::GHDError;
use crate::gh::prs::{combined_issues, reconciled_issues, reconciled_links, reconciled_prs};
use crate::gh::types::{GithubUser, PullRequestTableEntry, UserUpdate};
use crate::gh::users::{login_known, login_uid};
use crate::table::{lemma_table_view_dom, lemma_table_view_get, map_get};

verus! {

/// Facade over the verified store operations and the refresh engine.
///
/// It holds no state of its own: every operation acts on a [`Store`] handed
/// in by the caller, together with the results of any remote calls the
/// surrounding application has performed. The credential is read fresh from
/// the store at every decision point, so an invalidation takes effect on the
/// next decision.
pub struct Github {}

impl Github {
    /// Obtain a new Github instance.
    pub fn new() -> Github {
        Github {  }
    }

    /// The active credential, or which of the two failure states holds.
    pub fn get_token(&self, store: &Store) -> (r: Result<String, GHDError>)
        ensures
            r == get_token_of(store.tokens@),
    {
        store.get_token()
    }

    /// Store a new credential, given the remote identity lookup's result for
    /// it.
    ///
    /// A rejected identity stores nothing and propagates the error. An
    /// accepted identity stores the token as the single active credential
    /// and, when its owner is not yet tracked, starts tracking them — the
    /// token and the user are created together, so a reader never observes
    /// the one without the other. An identity whose id collides with a
    /// differently-named tracked user is refused as unclassified.
    pub fn set_token(
        &self,
        store: &mut Store,
        token: &String,
        identity: Result<GithubUser, GHDError>,
    ) -> (r: Result<GithubUser, GHDError>)
        requires
            old(store).wf(),
            old(store).tokens@.len() < i64::MAX,
        ensures
            final(store).wf(),
            match identity {
                Err(e) => r == Err::<GithubUser, GHDError>(e) && *final(store) == *old(store),
                Ok(u) => {
                    if login_known(*old(store), u.login@) {
                        &&& r == Ok::<GithubUser, GHDError>(u)
                        &&& final(store).tokens@ == tokens_after_store(
                            old(store).tokens@,
                            *token,
                            u.id,
                        )
                        &&& final(store).users@ == old(store).users@
                        &&& final(store).user_refresh@ == old(store).user_refresh@
                    } else if old(store).user_map().contains_key(u.id) {
                        r == Err::<GithubUser, GHDError>(GHDError::UnknownError) && *final(store)
                            == *old(store)
                    } else {
                        &&& r == Ok::<GithubUser, GHDError>(u)
                        &&& final(store).tokens@ == tokens_after_store(
                            old(store).tokens@,
                            *token,
                            u.id,
                        )
                        &&& final(store).users@ == old(store).users@.push(u)
                        &&& final(store).user_refresh@ == old(store).user_refresh@.push(
                            RefreshEntry { id: u.id, refresh_at: -1i64 },
                        )
                    }
                },
            },
            final(store).issues@ == old(store).issues@,
            final(store).pull_requests@ == old(store).pull_requests@,
            final(store).user_issues@ == old(store).user_issues@,
    {
        let user = match identity {
            Ok(u) => u,
            Err(e) => {
                return Err(e);
            },
        };
        if !users::user_exists(store, &user.login) {
            proof {
                lemma_table_view_dom(store.users@, crate::db::user_key());
            }
            match store.find_user_idx(user.id) {
                Some(_) => {
                    return Err(GHDError::UnknownError);
                },
                None => {},
            }
            users::add_user_to_db(store, &user);
        }
        store.store_token(token, user.id);
        Ok(user)
    }

    /// Invalidate the active credential, if any; idempotent.
    pub fn invalidate_token(&self, store: &mut Store)
        requires
            old(store).wf(),
        ensures
            final(store).wf(),
            final(store).tokens@ == tokens_after_invalidate(old(store).tokens@),
            active_token_of(final(store).tokens@) is None,
            final(store).users@ == old(store).users@,
            final(store).issues@ == old(store).issues@,
            final(store).pull_requests@ == old(store).pull_requests@,
            final(store).user_issues@ == old(store).user_issues@,
            final(store).user_refresh@ == old(store).user_refresh@,
    {
        store.invalidate_token()
    }

    /// The tracked user with the given login, or `ResourceNotFound`; the
    /// surrounding application may fall back to a remote lookup on a miss.
    pub fn get_user_by_login(&self, store: &Store, login: &String) -> (r: Result<
        GithubUser,
        GHDError,
    >)
        ensures
            match r {
                Ok(u) => login_known(*store, login@) && u.login@ == login@ && exists|i: int|
                    0 <= i < store.users@.len() && #[trigger] store.users@[i] == u,
                Err(e) => e == GHDError::ResourceNotFound && !login_known(*store, login@),
            },
    {
        users::get_user_by_login(store, login)
    }

    /// Start tracking the user with the given login. An already-tracked
    /// login returns the existing record and changes nothing. Otherwise
    /// `fetched` — the remote lookup's result for that login — is tracked;
    /// `None` (the user is not reachable remotely) reports
    /// `ResourceNotFound`, and a record whose login or id conflicts with the
    /// request or a tracked user is refused as unclassified.
    pub fn track_user(&self, store: &mut Store, login: &String, fetched: Option<GithubUser>) -> (r:
        Result<GithubUser, GHDError>)
        requires
            old(store).wf(),
        ensures
            final(store).wf(),
            if login_known(*old(store), login@) {
                &&& *final(store) == *old(store)
                &&& (r matches Ok(u) && u.login@ == login@ && exists|i: int|
                    0 <= i < old(store).users@.len() && #[trigger] old(store).users@[i] == u)
            } else {
                match fetched {
                    None => r == Err::<GithubUser, GHDError>(GHDError::ResourceNotFound) && *final(store) == *old(store),
                    Some(u) => {
                        if u.login@ == login@ && !old(store).user_map().contains_key(u.id) {
                            &&& r == Ok::<GithubUser, GHDError>(u)
                            &&& final(store).users@ == old(store).users@.push(u)
                            &&& final(store).user_refresh@ == old(store).user_refresh@.push(
                                RefreshEntry { id: u.id, refresh_at: -1i64 },
                            )
                            &&& final(store).tokens@ == old(store).tokens@
                        } else {
                            r == Err::<GithubUser, GHDError>(GHDError::UnknownError) && *final(store) == *old(store)
                        }
                    },
                }
            },
            final(store).issues@ == old(store).issues@,
            final(store).pull_requests@ == old(store).pull_requests@,
            final(store).user_issues@ == old(store).user_issues@,
    {
        match users::get_user_by_login(store, login) {
            Ok(u) => {
                return Ok(u);
            },
            Err(_) => {},
        }
        let user = match fetched {
            Some(u) => u,
            None => {
                return Err(GHDError::ResourceNotFound);
            },
        };
        if !(user.login == *login) {
            return Err(GHDError::UnknownError);
        }
        proof {
            lemma_table_view_dom(store.users@, crate::db::user_key());
        }
        match store.find_user_idx(user.id) {
            Some(_) => {
                return Err(GHDError::UnknownError);
            },
            None => {},
        }
        users::add_user_to_db(store, &user);
        Ok(user)
    }

    /// First-ever population of a tracked user from a full fetch of their
    /// open involvement: reconcile the batch and record the completion time.
    ///
    /// Only a tracked user that has never been refreshed can be populated:
    /// an unknown login reports `ResourceNotFound`, an already-refreshed
    /// user is refused as unclassified, and in both cases nothing changes.
    pub fn populate_user(&self, store: &mut Store, login: &String, update: &UserUpdate) -> (r:
        Result<(), GHDError>)
        requires
            old(store).wf(),
            update.when > 0,
        ensures
            final(store).wf(),
            !login_known(*old(store), login@) ==> r == Err::<(), GHDError>(
                GHDError::ResourceNotFound,
            ) && *final(store) == *old(store),
            login_known(*old(store), login@) ==> ({
                let uid = login_uid(*old(store), login@);
                if map_get(old(store).refresh_map(), uid) matches Some(e) && e.refresh_at > 0 {
                    r == Err::<(), GHDError>(GHDError::UnknownError) && *final(store) == *old(store)
                } else {
                    &&& r is Ok
                    &&& final(store).issue_map() == reconciled_issues(
                        old(store).issue_map(),
                        combined_issues(update.issues@, update.prs@),
                    )
                    &&& final(store).pr_map() == reconciled_prs(old(store).pr_map(), update.prs@)
                    &&& final(store).link_set() == reconciled_links(
                        old(store).link_set(),
                        uid,
                        combined_issues(update.issues@, update.prs@),
                    )
                    &&& final(store).refresh_map() == old(store).refresh_map().insert(
                        uid,
                        RefreshEntry { id: uid, refresh_at: update.when },
                    )
                    &&& final(store).users@ == old(store).users@
                    &&& final(store).tokens@ == old(store).tokens@
                }
            }),
    {
        self.apply_update(store, login, update, true)
    }

    /// Refresh a tracked user from one fetch's outcome.
    ///
    /// An unknown login reports `ResourceNotFound`. A failed fetch changes
    /// nothing and propagates its error — the user simply stays stale; it is
    /// the scheduler's step to invalidate the credential on
    /// `CredentialInvalid`. A successful fetch is reconciled, the refresh
    /// time advances to the fetch's completion time even when the batch is
    /// empty, and the result reports whether anything changed, so a caller
    /// can skip a redundant notification.
    pub fn refresh_user(
        &self,
        store: &mut Store,
        login: &String,
        fetch: Result<UserUpdate, GHDError>,
    ) -> (r: Result<bool, GHDError>)
        requires
            old(store).wf(),
            fetch matches Ok(u) ==> u.when > 0,
        ensures
            final(store).wf(),
            !login_known(*old(store), login@) ==> r == Err::<bool, GHDError>(
                GHDError::ResourceNotFound,
            ) && *final(store) == *old(store),
            login_known(*old(store), login@) ==> match fetch {
                Err(e) => r == Err::<bool, GHDError>(e) && *final(store) == *old(store),
                Ok(u) => {
                    let uid = login_uid(*old(store), login@);
                    &&& r == Ok::<bool, GHDError>(u.issues@.len() > 0 || u.prs@.len() > 0)
                    &&& final(store).issue_map() == reconciled_issues(
                        old(store).issue_map(),
                        combined_issues(u.issues@, u.prs@),
                    )
                    &&& final(store).pr_map() == reconciled_prs(old(store).pr_map(), u.prs@)
                    &&& final(store).link_set() == reconciled_links(
                        old(store).link_set(),
                        uid,
                        combined_issues(u.issues@, u.prs@),
                    )
                    &&& final(store).refresh_map() == old(store).refresh_map().insert(
                        uid,
                        RefreshEntry { id: uid, refresh_at: u.when },
                    )
                    &&& final(store).users@ == old(store).users@
                    &&& final(store).tokens@ == old(store).tokens@
                },
            },
    {
        if !users::user_exists(store, login) {
            return Err(GHDError::ResourceNotFound);
        }
        let update = match fetch {
            Ok(u) => u,
            Err(e) => {
                return Err(e);
            },
        };
        let nonempty = update.issues.len() > 0 || update.prs.len() > 0;
        match self.apply_update(store, login, &update, false) {
            Ok(()) => Ok(nonempty),
            Err(e) => Err(e),
        }
    }

    /// Shared application step of [`Self::populate_user`] and
    /// [`Self::refresh_user`]: reconcile the batch for the user with this
    /// login and advance their refresh time; `first_only` additionally
    /// insists the user was never refreshed before.
    fn apply_update(
        &self,
        store: &mut Store,
        login: &String,
        update: &UserUpdate,
        first_only: bool,
    ) -> (r: Result<(), GHDError>)
        requires
            old(store).wf(),
            update.when > 0,
        ensures
            final(store).wf(),
            !login_known(*old(store), login@) ==> r == Err::<(), GHDError>(
                GHDError::ResourceNotFound,
            ) && *final(store) == *old(store),
            login_known(*old(store), login@) ==> ({
                let uid = login_uid(*old(store), login@);
                if first_only && (map_get(old(store).refresh_map(), uid) matches Some(e)
                    && e.refresh_at > 0) {
                    r == Err::<(), GHDError>(GHDError::UnknownError) && *final(store) == *old(store)
                } else {
                    &&& r is Ok
                    &&& final(store).issue_map() == reconciled_issues(
                        old(store).issue_map(),
                        combined_issues(update.issues@, update.prs@),
                    )
                    &&& final(store).pr_map() == reconciled_prs(old(store).pr_map(), update.prs@)
                    &&& final(store).link_set() == reconciled_links(
                        old(store).link_set(),
                        uid,
                        combined_issues(update.issues@, update.prs@),
                    )
                    &&& final(store).refresh_map() == old(store).refresh_map().insert(
                        uid,
                        RefreshEntry { id: uid, refresh_at: update.when },
                    )
                    &&& final(store).users@ == old(store).users@
                    &&& final(store).tokens@ == old(store).tokens@
                }
            }),
    {
        let uid = match store.find_user_by_login_idx(login) {
            Some(i) => store.users[i].id,
            None => {
                return Err(GHDError::ResourceNotFound);
            },
        };
        proof {
            assert(uid == login_uid(*store, login@));
            lemma_table_view_dom(store.users@, crate::db::user_key());
            lemma_table_view_dom(store.user_refresh@, crate::db::refresh_key());
            lemma_table_view_get(store.user_refresh@, crate::db::refresh_key());
        }
        if first_only {
            match store.find_refresh_idx(uid) {
                Some(j) => {
                    if store.user_refresh[j].refresh_at > 0 {
                        return Err(GHDError::UnknownError);
                    }
                },
                None => {},
            }
        }
        match prs::consume_issues(store, uid, &update.issues, &update.prs) {
            Ok(()) => {},
            Err(e) => {
                return Err(e);
            },
        }
        proof {
            assert(store.refresh_map().contains_key(uid)) by {
                assert(old(store).user_map().contains_key(uid));
                assert(store.user_map() == old(store).user_map());
                assert(store.refresh_map() == old(store).refresh_map());
            }
        }
        users::update_user_refresh(store, uid, update.when);
        Ok(())
    }

    /// All pull requests authored by `login`, excluding archived ones, most
    /// recently updated first.
    pub fn get_pulls_by_author(&self, store: &Store, login: &String) -> (r: Result<
        Vec<PullRequestTableEntry>,
        GHDError,
    >)
        requires
            store.wf(),
        ensures
            r matches Ok(v) && v@.to_multiset() == prs::authored_pr_entries(
                *store,
                login@,
            ).to_multiset() && prs::sorted_entries(v@),
    {
        prs::get_prs_by_author(store, login)
    }

    /// All pull requests involving `login` but not authored by them,
    /// excluding archived ones, most recently updated first.
    pub fn get_involved_pulls(&self, store: &Store, login: &String) -> (r: Result<
        Vec<PullRequestTableEntry>,
        GHDError,
    >)
        requires
            store.wf(),
        ensures
            r matches Ok(v) && v@.to_multiset() == prs::involved_pr_entries(
                *store,
                login@,
            ).to_multiset() && prs::sorted_entries(v@),
    {
        prs::get_involved_prs(store, login)
    }

    /// Mark one pull request viewed at `now`.
    pub fn mark_pull_request_viewed(&self, store: &mut Store, prid: i64, now: i64) -> (r: Result<
        (),
        GHDError,
    >)
        requires
            old(store).wf(),
        ensures
            final(store).wf(),
            match map_get(old(store).issue_map(), prid) {
                Some(row) => r is Ok && final(store).issue_map() == old(store).issue_map().insert(
                    prid,
                    prs::with_last_viewed(row, Some(now)),
                ),
                None => r == Err::<(), GHDError>(GHDError::ResourceNotFound) && final(store).issues@ == old(store).issues@,
            },
            final(store).users@ == old(store).users@,
            final(store).pull_requests@ == old(store).pull_requests@,
            final(store).user_issues@ == old(store).user_issues@,
            final(store).user_refresh@ == old(store).user_refresh@,
            final(store).tokens@ == old(store).tokens@,
    {
        prs::mark_viewed(store, prid, now)
    }

    /// Mark several pull requests viewed at `now`, all or none.
    pub fn mark_pull_request_viewed_many(
        &self,
        store: &mut Store,
        prids: &Vec<i64>,
        now: i64,
    ) -> (r: Result<(), GHDError>)
        requires
            old(store).wf(),
        ensures
            final(store).wf(),
            if forall|k: int|
                0 <= k < prids@.len() ==> old(store).issue_map().contains_key(
                    #[trigger] prids@[k],
                ) {
                r is Ok && final(store).issue_map() == prs::marked_viewed_map(
                    old(store).issue_map(),
                    prids@,
                    now,
                )
            } else {
                r == Err::<(), GHDError>(GHDError::ResourceNotFound) && final(store).issues@
                    == old(store).issues@
            },
            final(store).users@ == old(store).users@,
            final(store).pull_requests@ == old(store).pull_requests@,
            final(store).user_issues@ == old(store).user_issues@,
            final(store).user_refresh@ == old(store).user_refresh@,
            final(store).tokens@ == old(store).tokens@,
    {
        prs::mark_viewed_many(store, prids, now)
    }

    /// Archive one issue at `now`.
    pub fn archive_issue(&self, store: &mut Store, issue_id: i64, now: i64) -> (r: Result<
        (),
        GHDError,
    >)
        requires
            old(store).wf(),
        ensures
            final(store).wf(),
            match map_get(old(store).issue_map(), issue_id) {
                Some(row) => r is Ok && final(store).issue_map() == old(store).issue_map().insert(
                    issue_id,
                    prs::with_archived(row, Some(now)),
                ),
                None => r == Err::<(), GHDError>(GHDError::ResourceNotFound) && final(store).issues@ == old(store).issues@,
            },
            final(store).users@ == old(store).users@,
            final(store).pull_requests@ == old(store).pull_requests@,
            final(store).user_issues@ == old(store).user_issues@,
            final(store).user_refresh@ == old(store).user_refresh@,
            final(store).tokens@ == old(store).tokens@,
    {
        prs::archive_issue(store, issue_id, now)
    }

    /// Archive several issues at `now`, all or none.
    pub fn archive_issue_many(&self, store: &mut Store, issues: &Vec<i64>, now: i64) -> (r: Result<
        (),
        GHDError,
    >)
        requires
            old(store).wf(),
        ensures
            final(store).wf(),
            if forall|k: int|
                0 <= k < issues@.len() ==> old(store).issue_map().contains_key(
                    #[trigger] issues@[k],
                ) {
                r is Ok && final(store).issue_map() == prs::archived_map(
                    old(store).issue_map(),
                    issues@,
                    now,
                )
            } else {
                r == Err::<(), GHDError>(GHDError::ResourceNotFound) && final(store).issues@
                    == old(store).issues@
            },
            final(store).users@ == old(store).users@,
            final(store).pull_requests@ == old(store).pull_requests@,
            final(store).user_issues@ == old(store).user_issues@,
            final(store).user_refresh@ == old(store).user_refresh@,
            final(store).tokens@ == old(store).tokens@,
    {
        prs::archive_issue_many(store, issues, now)
    }
}

} // verus!
