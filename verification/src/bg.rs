use vstd::prelude::*;

pub mod types;

use crate::db::{active_token_of, tokens_after_invalidate, RefreshEntry, Store};
use crate::errors::GHDError;
use crate::gh::prs::{combined_issues, reconciled_issues, reconciled_links, reconciled_prs};
use crate::gh::refresh::{get_to_refresh_users, user_is_stale};
use crate::gh::types::{GithubUser, UserUpdate};
use crate::gh::users::{login_known, login_uid};
use crate::gh::Github;

verus! {

/// The background scheduler's decision logic. The surrounding application
/// runs the timer loop: each tick it asks [`plan_tick`] which users to
/// refresh, performs one remote fetch per planned user, and applies each
/// outcome through [`process_refresh_result`] — sequentially, since all
/// fetches share the one credential and the cache's transaction scope.
pub struct BGTask {}

impl BGTask {
    pub fn new() -> BGTask {
        BGTask {  }
    }
}

/// One tick's work: nothing while no valid credential is stored — an
/// invalidated credential halts all refresh activity until a new one is
/// supplied — otherwise exactly the tracked users whose data is stale.
pub fn plan_tick(store: &Store, window: i64, now: i64) -> (r: Vec<GithubUser>)
    requires
        store.wf(),
        window >= 0,
    ensures
        active_token_of(store.tokens@) is None ==> r@.len() == 0,
        active_token_of(store.tokens@) is Some ==> r@ == store.users@.filter(
            |u: GithubUser| user_is_stale(*store, u.id, window, now),
        ),
{
    if store.has_token() {
        get_to_refresh_users(store, window, now)
    } else {
        Vec::new()
    }
}

/// What one user's refresh step ended as.
#[derive(Clone, Copy, Debug, PartialEq, Eq, Structural)]
pub enum RefreshOutcome {
    /// New data was reconciled; a notification is due.
    Updated,
    /// The fetch succeeded but carried nothing new; no notification.
    NoUpdate,
    /// The remote side rejected the credential: it has been invalidated and
    /// no further fetches will be planned until a new one is supplied.
    CredentialInvalidated,
    /// A non-fatal failure; the user stays stale and the loop continues.
    Skipped(GHDError),
}

/// Apply one user's fetch outcome, as the scheduler's per-user step: a
/// success is reconciled and the refresh time advances; a credential
/// rejection invalidates the stored credential; any other failure is
/// contained, leaving the store unchanged — one user's failure never stops
/// the tick.
pub fn process_refresh_result(
    gh: &Github,
    store: &mut Store,
    login: &String,
    fetch: Result<UserUpdate, GHDError>,
) -> (r: RefreshOutcome)
    requires
        old(store).wf(),
        fetch matches Ok(u) ==> u.when > 0,
    ensures
        final(store).wf(),
        !login_known(*old(store), login@) ==> r == RefreshOutcome::Skipped(
            GHDError::ResourceNotFound,
        ) && *final(store) == *old(store),
        login_known(*old(store), login@) ==> match fetch {
            Ok(u) => {
                let uid = login_uid(*old(store), login@);
                &&& r == (if u.issues@.len() > 0 || u.prs@.len() > 0 {
                    RefreshOutcome::Updated
                } else {
                    RefreshOutcome::NoUpdate
                })
                &&& final(store).issue_map() == reconciled_issues(
                    old(store).issue_map(),
                    combined_issues(u.issues@, u.prs@),
                )
                &&& final(store).pr_map() == reconciled_prs(old(store).pr_map(), u.prs@)
                &&& final(store).link_set() == reconciled_links(
                    old(store).link_set(),
                    uid,
                    combined_issues(u.issues@, u.prs@),
                )
                &&& final(store).refresh_map() == old(store).refresh_map().insert(
                    uid,
                    RefreshEntry { id: uid, refresh_at: u.when },
                )
                &&& final(store).users@ == old(store).users@
                &&& final(store).tokens@ == old(store).tokens@
            },
            Err(e) => {
                if e == GHDError::CredentialInvalid {
                    &&& r == RefreshOutcome::CredentialInvalidated
                    &&& final(store).tokens@ == tokens_after_invalidate(old(store).tokens@)
                    &&& active_token_of(final(store).tokens@) is None
                    &&& final(store).users@ == old(store).users@
                    &&& final(store).issues@ == old(store).issues@
                    &&& final(store).pull_requests@ == old(store).pull_requests@
                    &&& final(store).user_issues@ == old(store).user_issues@
                    &&& final(store).user_refresh@ == old(store).user_refresh@
                } else {
                    r == RefreshOutcome::Skipped(e) && *final(store) == *old(store)
                }
            },
        },
{
    match gh.refresh_user(store, login, fetch) {
        Ok(true) => RefreshOutcome::Updated,
        Ok(false) => RefreshOutcome::NoUpdate,
        Err(GHDError::CredentialInvalid) => {
            gh.invalidate_token(store);
            RefreshOutcome::CredentialInvalidated
        },
        Err(e) => RefreshOutcome::Skipped(e),
    }
}

} // verus!
