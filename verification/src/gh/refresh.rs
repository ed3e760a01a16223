use vstd::prelude::*;

use crate::common::has_expired;
use crate::db::{refresh_key, Store};
use crate::errors::GHDError;
use crate::gh::types::GithubUser;
use crate::table::{lemma_table_view_dom, lemma_table_view_get, map_get};

verus! {

/// Default staleness window, in seconds; callers may pass any other
/// non-negative window.
pub const USER_REFRESH_INTERVAL: i64 = 60;

/// The canonical staleness predicate on a recorded refresh time: stale when
/// the user was never refreshed (non-positive sentinel) or when the last
/// refresh lies further than `window` seconds before `now`.
pub open spec fn is_stale_at(refresh_at: i64, window: i64, now: i64) -> bool {
    refresh_at <= 0 || refresh_at + window < now
}

/// Staleness of a tracked user in the store: an absent refresh record counts
/// as stale.
pub open spec fn user_is_stale(s: Store, id: i64, window: i64, now: i64) -> bool {
    match map_get(s.refresh_map(), id) {
        None => true,
        Some(e) => is_stale_at(e.refresh_at, window, now),
    }
}

/// Exec mirror of [`is_stale_at`].
pub fn stale_at(refresh_at: i64, window: i64, now: i64) -> (r: bool)
    requires
        window >= 0,
    ensures
        r == is_stale_at(refresh_at, window, now),
{
    refresh_at <= 0 || has_expired(refresh_at, window, now)
}

/// The recorded last-refresh instant of `userid`: `NeverRefreshed` when the
/// record holds the sentinel, `ResourceNotFound` when the user is unknown.
pub fn get_user_refresh(store: &Store, userid: i64) -> (r: Result<i64, GHDError>)
    requires
        store.wf(),
    ensures
        match map_get(store.refresh_map(), userid) {
            None => r == Err::<i64, GHDError>(GHDError::ResourceNotFound),
            Some(e) => if e.refresh_at <= 0 {
                r == Err::<i64, GHDError>(GHDError::NeverRefreshed)
            } else {
                r == Ok::<i64, GHDError>(e.refresh_at)
            },
        },
{
    proof {
        lemma_table_view_dom(store.user_refresh@, refresh_key());
        lemma_table_view_get(store.user_refresh@, refresh_key());
    }
    match store.find_refresh_idx(userid) {
        Some(i) => {
            let e = store.user_refresh[i];
            if e.refresh_at <= 0 {
                Err(GHDError::NeverRefreshed)
            } else {
                Ok(e.refresh_at)
            }
        },
        None => Err(GHDError::ResourceNotFound),
    }
}

/// Whether some tracked user carries this login and is due for a refresh.
pub open spec fn stale_login(s: Store, login: Seq<char>, window: i64, now: i64) -> bool {
    exists|i: int|
        0 <= i < s.users@.len() && (#[trigger] s.users@[i]).login@ == login && user_is_stale(
            s,
            s.users@[i].id,
            window,
            now,
        )
}

/// Whether the tracked user with the given login should be refreshed now.
/// An unknown login is never refreshed; a known login is refreshed exactly
/// when it is stale.
pub fn should_refresh_user(store: &Store, login: &String, window: i64, now: i64) -> (r: bool)
    requires
        store.wf(),
        window >= 0,
    ensures
        r == stale_login(*store, login@, window, now),
{
    proof {
        lemma_table_view_dom(store.user_refresh@, refresh_key());
        lemma_table_view_get(store.user_refresh@, refresh_key());
    }
    match store.find_user_by_login_idx(login) {
        Some(i) => {
            let uid = store.users[i].id;
            let stale = match store.find_refresh_idx(uid) {
                Some(j) => {
                    let e = store.user_refresh[j];
                    stale_at(e.refresh_at, window, now)
                },
                None => true,
            };
            proof {
                if stale {
                    assert(store.users@[i as int].login@ == login@ && user_is_stale(
                        *store,
                        store.users@[i as int].id,
                        window,
                        now,
                    ));
                }
            }
            stale
        },
        None => false,
    }
}

/// All tracked users due for a refresh, in tracking order.
pub fn get_to_refresh_users(store: &Store, window: i64, now: i64) -> (r: Vec<GithubUser>)
    requires
        store.wf(),
        window >= 0,
    ensures
        r@ == store.users@.filter(
            |u: GithubUser| user_is_stale(*store, u.id, window, now),
        ),
{
    let ghost pred = |u: GithubUser| user_is_stale(*store, u.id, window, now);
    proof {
        lemma_table_view_dom(store.user_refresh@, refresh_key());
        lemma_table_view_get(store.user_refresh@, refresh_key());
        assert(store.users@.take(0) =~= Seq::<GithubUser>::empty());
        assert(store.users@.take(0).filter(pred) =~= Seq::<GithubUser>::empty());
    }
    let mut out: Vec<GithubUser> = Vec::new();
    let mut i: usize = 0;
    while i < store.users.len()
        invariant
            store.wf(),
            window >= 0,
            i <= store.users@.len(),
            out@ == store.users@.take(i as int).filter(pred),
            pred == (|u: GithubUser| user_is_stale(*store, u.id, window, now)),
        decreases store.users@.len() - i,
    {
        let u = &store.users[i];
        let stale = match store.find_refresh_idx(u.id) {
            Some(j) => {
                let e = store.user_refresh[j];
                stale_at(e.refresh_at, window, now)
            },
            None => true,
        };
        proof {
            lemma_table_view_dom(store.user_refresh@, refresh_key());
            lemma_table_view_get(store.user_refresh@, refresh_key());
            store.users@.take(i as int).lemma_filter_push(store.users@[i as int], pred);
            assert(store.users@.take(i as int).push(store.users@[i as int]) =~= store.users@.take(
                i + 1,
            ));
            assert(stale == pred(store.users@[i as int]));
        }
        if stale {
            out.push(u.clone());
        }
        i += 1;
    }
    proof {
        assert(store.users@.take(store.users@.len() as int) =~= store.users@);
    }
    out
}

} // verus!
