use vstd::prelude::*;

use crate::db::{refresh_key, user_key, RefreshEntry, Store};
use crate::errors::GHDError;
use crate::gh::rest::GithubUserReply;
use crate::gh::types::GithubUser;
use crate::table::{lemma_table_view_dom, lemma_table_view_push, lemma_table_view_update};

verus! {

/// Whether some tracked user carries this login.
pub open spec fn login_known(s: Store, login: Seq<char>) -> bool {
    exists|i: int| 0 <= i < s.users@.len() && (#[trigger] s.users@[i]).login@ == login
}

/// The identifier of the tracked user with this login; well-defined under
/// the store invariant, which keeps logins unique.
pub open spec fn login_uid(s: Store, login: Seq<char>) -> i64 {
    let i = choose|i: int| 0 <= i < s.users@.len() && (#[trigger] s.users@[i]).login@ == login;
    s.users@[i].id
}

/// Returns the tracked user with the given login, or `ResourceNotFound`.
pub fn get_user_by_login(store: &Store, login: &String) -> (r: Result<GithubUser, GHDError>)
    ensures
        match r {
            Ok(u) => login_known(*store, login@) && u.login@ == login@ && exists|i: int|
                0 <= i < store.users@.len() && #[trigger] store.users@[i] == u,
            Err(e) => e == GHDError::ResourceNotFound && !login_known(*store, login@),
        },
{
    match store.find_user_by_login_idx(login) {
        Some(i) => {
            let u = store.users[i].clone();
            Ok(u)
        },
        None => Err(GHDError::ResourceNotFound),
    }
}

/// Whether a user with the given login is already tracked.
pub fn user_exists(store: &Store, login: &String) -> (r: bool)
    ensures
        r == login_known(*store, login@),
{
    match store.find_user_by_login_idx(login) {
        Some(_) => true,
        None => false,
    }
}

/// Add a newly tracked user, together with its "never refreshed" refresh row,
/// in one step; the two rows are created atomically, so a reader never
/// observes a tracked user without a refresh state.
pub fn add_user_to_db(store: &mut Store, user: &GithubUser)
    requires
        old(store).wf(),
        forall|j: int| 0 <= j < old(store).users@.len() ==> (#[trigger] old(store).users@[j]).id
            != user.id,
        forall|j: int|
            0 <= j < old(store).users@.len() ==> (#[trigger] old(store).users@[j]).login@
                != user.login@,
    ensures
        final(store).wf(),
        final(store).users@ == old(store).users@.push(*user),
        final(store).user_map() == old(store).user_map().insert(user.id, *user),
        final(store).user_refresh@ == old(store).user_refresh@.push(
            RefreshEntry { id: user.id, refresh_at: -1i64 },
        ),
        final(store).refresh_map() == old(store).refresh_map().insert(
            user.id,
            RefreshEntry { id: user.id, refresh_at: -1i64 },
        ),
        final(store).issues@ == old(store).issues@,
        final(store).pull_requests@ == old(store).pull_requests@,
        final(store).user_issues@ == old(store).user_issues@,
        final(store).tokens@ == old(store).tokens@,
{
    store.users.push(user.clone());
    store.user_refresh.push(RefreshEntry { id: user.id, refresh_at: -1i64 });
    proof {
        let nu = store.users@;
        let nr = store.user_refresh@;
        let ou = old(store).users@;
        let or = old(store).user_refresh@;
        lemma_table_view_push(ou, user_key(), *user);
        lemma_table_view_push(or, refresh_key(), RefreshEntry { id: user.id, refresh_at: -1i64 });
        lemma_table_view_dom(ou, user_key());
        lemma_table_view_dom(or, refresh_key());
        assert(store.issue_map() == old(store).issue_map());
        assert(store.pr_map() == old(store).pr_map());
        assert forall|i: int, j: int|
            0 <= i < nu.len() && 0 <= j < nu.len() && user_key()(#[trigger] nu[i]) == user_key()(
                #[trigger] nu[j],
            ) implies i == j by {
            if i < ou.len() {
                assert(nu[i] == ou[i]);
            }
            if j < ou.len() {
                assert(nu[j] == ou[j]);
            }
        }
        assert forall|i: int, j: int|
            0 <= i < nu.len() && 0 <= j < nu.len() && (#[trigger] nu[i]).login@ == (
            #[trigger] nu[j]).login@ implies i == j by {
            if i < ou.len() {
                assert(nu[i] == ou[i]);
            }
            if j < ou.len() {
                assert(nu[j] == ou[j]);
            }
        }
        assert forall|i: int, j: int|
            0 <= i < nr.len() && 0 <= j < nr.len() && refresh_key()(#[trigger] nr[i])
                == refresh_key()(#[trigger] nr[j]) implies i == j by {
            if i < or.len() {
                assert(nr[i] == or[i]);
                assert(old(store).refresh_map().contains_key(or[i].id));
            }
            if j < or.len() {
                assert(nr[j] == or[j]);
                assert(old(store).refresh_map().contains_key(or[j].id));
            }
        }
        assert forall|id: i64| #[trigger]
            final(store).refresh_map().contains_key(id) <==> final(store).user_map().contains_key(
            id,
        ) by {
            assert(final(store).refresh_map() == old(store).refresh_map().insert(
                user.id,
                RefreshEntry { id: user.id, refresh_at: -1i64 },
            ));
            assert(final(store).user_map() == old(store).user_map().insert(user.id, *user));
        }
    }
}

/// Record the completion time of a successful refresh for `userid`.
pub fn update_user_refresh(store: &mut Store, userid: i64, when: i64)
    requires
        old(store).wf(),
        old(store).refresh_map().contains_key(userid),
    ensures
        final(store).wf(),
        final(store).user_refresh@.len() == old(store).user_refresh@.len(),
        final(store).refresh_map() == old(store).refresh_map().insert(
            userid,
            RefreshEntry { id: userid, refresh_at: when },
        ),
        final(store).users@ == old(store).users@,
        final(store).issues@ == old(store).issues@,
        final(store).pull_requests@ == old(store).pull_requests@,
        final(store).user_issues@ == old(store).user_issues@,
        final(store).tokens@ == old(store).tokens@,
{
    proof {
        lemma_table_view_dom(store.user_refresh@, refresh_key());
    }
    match store.find_refresh_idx(userid) {
        Some(i) => {
            store.user_refresh[i] = RefreshEntry { id: userid, refresh_at: when };
            proof {
                lemma_table_view_update(
                    old(store).user_refresh@,
                    refresh_key(),
                    i as int,
                    RefreshEntry { id: userid, refresh_at: when },
                );
                assert(store.user_map() == old(store).user_map());
                assert(store.issue_map() == old(store).issue_map());
                assert(store.pr_map() == old(store).pr_map());
                lemma_table_view_dom(old(store).user_refresh@, refresh_key());
                assert forall|id: i64| #[trigger]
                    final(store).refresh_map().contains_key(id) <==> final(
                    store).user_map().contains_key(id) by {
                    assert(final(store).refresh_map() == old(store).refresh_map().insert(
                        userid,
                        RefreshEntry { id: userid, refresh_at: when },
                    ));
                    assert(old(store).refresh_map().contains_key(userid));
                }
            }
        },
        None => {
            proof {
                assert(false);
            }
        },
    }
}

/// The primary user: the owner of the most recently stored credential,
/// whether or not that credential is still valid. `CredentialMissing` when no
/// credential was ever stored; `ResourceNotFound` when the owner is not
/// tracked.
pub fn get_main_user(store: &Store) -> (r: Result<GithubUser, GHDError>)
    requires
        store.wf(),
    ensures
        match r {
            Ok(u) => store.tokens@.len() > 0 && u.id == store.tokens@.last().user_id && exists|
                i: int,
            | 0 <= i < store.users@.len() && #[trigger] store.users@[i] == u,
            Err(e) => if store.tokens@.len() == 0 {
                e == GHDError::CredentialMissing
            } else {
                e == GHDError::ResourceNotFound && !store.user_map().contains_key(
                    store.tokens@.last().user_id,
                )
            },
        },
{
    if store.tokens.len() == 0 {
        return Err(GHDError::CredentialMissing);
    }
    let uid = store.tokens[store.tokens.len() - 1].user_id;
    proof {
        lemma_table_view_dom(store.users@, user_key());
    }
    match store.find_user_idx(uid) {
        Some(i) => Ok(store.users[i].clone()),
        None => Err(GHDError::ResourceNotFound),
    }
}

/// All tracked users, in tracking order.
pub fn get_tracked_users(store: &Store) -> (r: Result<Vec<GithubUser>, GHDError>)
    ensures
        r matches Ok(v) && v@ == store.users@,
{
    let mut out: Vec<GithubUser> = Vec::new();
    let mut i: usize = 0;
    while i < store.users.len()
        invariant
            i <= store.users@.len(),
            out@ =~= store.users@.take(i as int),
        decreases store.users@.len() - i,
    {
        out.push(store.users[i].clone());
        i += 1;
    }
    proof {
        assert(out@ =~= store.users@);
    }
    Ok(out)
}

/// Project a REST identity reply onto the tracked-user record.
pub fn user_reply_to_user(res: GithubUserReply) -> (r: GithubUser)
    ensures
        r.login == res.login,
        r.id == res.id,
        r.avatar_url == res.avatar_url,
        r.name == res.name,
{
    GithubUser { login: res.login, id: res.id, avatar_url: res.avatar_url, name: res.name }
}

} // verus!
