use vstd::prelude::*;

use crate::errors::GHDError;
use crate::gh::types::{GithubUser, IssueTableEntry, PullRequestRow, UserIssuesTableEntry};
use crate::table::{distinct_keys, table_view};

verus! {

/// Current schema version of the persistent store.
pub const GHD_DB_VERSION: u32 = 2;

/// A row of the `tokens` table. `id` is assigned by insertion order, starting
/// at 1, so the most recently inserted token is the last row.
#[derive(Debug)]
pub struct TokenEntry {
    pub id: i64,
    pub token: String,
    pub user_id: i64,
    pub invalid: bool,
}

impl Clone for TokenEntry {
    fn clone(&self) -> (r: Self)
        ensures
            r == *self,
    {
        TokenEntry {
            id: self.id,
            token: self.token.clone(),
            user_id: self.user_id,
            invalid: self.invalid,
        }
    }
}

/// A row of the `user_refresh` table: the time of the user's last successful
/// refresh, in epoch seconds, or a non-positive sentinel meaning "never
/// refreshed". One row exists per tracked user.
#[derive(Clone, Copy, Debug)]
pub struct RefreshEntry {
    pub id: i64,
    pub refresh_at: i64,
}

/// In-memory model of the persistent store: one `Vec` per table.
///
/// Every operation of the library acts on this model; the surrounding
/// application mirrors each mutation into the real database inside a single
/// transaction, so that what is proved here about the model holds of the
/// persisted state as well.
#[derive(Debug)]
pub struct Store {
    pub users: Vec<GithubUser>,
    pub issues: Vec<IssueTableEntry>,
    pub pull_requests: Vec<PullRequestRow>,
    pub user_issues: Vec<UserIssuesTableEntry>,
    pub user_refresh: Vec<RefreshEntry>,
    pub tokens: Vec<TokenEntry>,
}

pub open spec fn user_key() -> spec_fn(GithubUser) -> i64 {
    |u: GithubUser| u.id
}

pub open spec fn issue_key() -> spec_fn(IssueTableEntry) -> i64 {
    |r: IssueTableEntry| r.id
}

pub open spec fn pr_key() -> spec_fn(PullRequestRow) -> i64 {
    |r: PullRequestRow| r.id
}

pub open spec fn refresh_key() -> spec_fn(RefreshEntry) -> i64 {
    |r: RefreshEntry| r.id
}

pub open spec fn link_key() -> spec_fn(UserIssuesTableEntry) -> (i64, i64) {
    |l: UserIssuesTableEntry| (l.user_id, l.issue_id)
}

/// The well-formedness of a token sequence: identifiers follow insertion
/// order starting at 1, and every token except possibly the last has been
/// superseded or invalidated, so at most one token is valid.
pub open spec fn tokens_wf(toks: Seq<TokenEntry>) -> bool {
    &&& forall|i: int| 0 <= i < toks.len() ==> (#[trigger] toks[i]).id == i + 1
    &&& forall|i: int| 0 <= i < toks.len() - 1 ==> (#[trigger] toks[i]).invalid
}

/// The valid token, if one exists: the most recently inserted token, when it
/// has not been invalidated.
pub open spec fn active_token_of(toks: Seq<TokenEntry>) -> Option<TokenEntry> {
    if toks.len() > 0 && !toks.last().invalid {
        Some(toks.last())
    } else {
        None
    }
}

/// What a credential lookup reports for a given token sequence: the active
/// token; `CredentialInvalid` when tokens exist but none is valid; and
/// `CredentialMissing` when no token was ever stored.
pub open spec fn get_token_of(toks: Seq<TokenEntry>) -> Result<String, GHDError> {
    match active_token_of(toks) {
        Some(t) => Ok(t.token),
        None => if toks.len() == 0 {
            Err(GHDError::CredentialMissing)
        } else {
            Err(GHDError::CredentialInvalid)
        },
    }
}

/// The token sequence after a new token is stored: all previous tokens are
/// superseded (marked invalid) and the new token is appended as valid.
pub open spec fn tokens_after_store(toks: Seq<TokenEntry>, token: String, user_id: i64) -> Seq<
    TokenEntry,
> {
    toks.map_values(
        |t: TokenEntry| TokenEntry { id: t.id, token: t.token, user_id: t.user_id, invalid: true },
    ).push(
        TokenEntry { id: (toks.len() + 1) as i64, token: token, user_id: user_id, invalid: false },
    )
}

/// The token sequence after the active token, if any, is invalidated.
pub open spec fn tokens_after_invalidate(toks: Seq<TokenEntry>) -> Seq<TokenEntry> {
    if toks.len() > 0 {
        let t = toks.last();
        toks.update(
            toks.len() - 1,
            TokenEntry { id: t.id, token: t.token, user_id: t.user_id, invalid: true },
        )
    } else {
        toks
    }
}

impl Store {
    /// Table views: the logical content of each table as a map from key to
    /// row.
    pub open spec fn user_map(self) -> Map<i64, GithubUser> {
        table_view(self.users@, user_key())
    }

    pub open spec fn issue_map(self) -> Map<i64, IssueTableEntry> {
        table_view(self.issues@, issue_key())
    }

    pub open spec fn pr_map(self) -> Map<i64, PullRequestRow> {
        table_view(self.pull_requests@, pr_key())
    }

    pub open spec fn refresh_map(self) -> Map<i64, RefreshEntry> {
        table_view(self.user_refresh@, refresh_key())
    }

    /// The association table as a set of `(user_id, issue_id)` pairs.
    pub open spec fn link_set(self) -> Set<(i64, i64)> {
        self.user_issues@.map_values(|l: UserIssuesTableEntry| (l.user_id, l.issue_id)).to_set()
    }

    /// Well-formedness of the whole store:
    /// - each table's keys are distinct (logins too);
    /// - every tracked user has exactly one refresh row;
    /// - every pull-request row extends an existing issue row;
    /// - the token table is well-formed ([`tokens_wf`]).
    pub open spec fn wf(self) -> bool {
        &&& distinct_keys(self.users@, user_key())
        &&& (forall|i: int, j: int|
            0 <= i < self.users@.len() && 0 <= j < self.users@.len() && (
            #[trigger] self.users@[i]).login@ == (#[trigger] self.users@[j]).login@ ==> i == j)
        &&& distinct_keys(self.issues@, issue_key())
        &&& distinct_keys(self.pull_requests@, pr_key())
        &&& distinct_keys(self.user_issues@, link_key())
        &&& distinct_keys(self.user_refresh@, refresh_key())
        &&& (forall|id: i64|
            #[trigger] self.refresh_map().contains_key(id) <==> self.user_map().contains_key(id))
        &&& (forall|id: i64|
            #[trigger] self.pr_map().contains_key(id) ==> self.issue_map().contains_key(id))
        &&& tokens_wf(self.tokens@)
    }

    /// An empty store.
    pub fn new() -> (r: Store)
        ensures
            r.wf(),
            r.users@ == Seq::<GithubUser>::empty(),
            r.issues@ == Seq::<IssueTableEntry>::empty(),
            r.pull_requests@ == Seq::<PullRequestRow>::empty(),
            r.user_issues@ == Seq::<UserIssuesTableEntry>::empty(),
            r.user_refresh@ == Seq::<RefreshEntry>::empty(),
            r.tokens@ == Seq::<TokenEntry>::empty(),
    {
        let r = Store {
            users: Vec::new(),
            issues: Vec::new(),
            pull_requests: Vec::new(),
            user_issues: Vec::new(),
            user_refresh: Vec::new(),
            tokens: Vec::new(),
        };
        proof {
            crate::table::lemma_table_view_dom(r.users@, user_key());
            crate::table::lemma_table_view_dom(r.user_refresh@, refresh_key());
            crate::table::lemma_table_view_dom(r.issues@, issue_key());
            crate::table::lemma_table_view_dom(r.pull_requests@, pr_key());
        }
        r
    }

    /// The index of the user row with the given identifier, if any.
    pub(crate) fn find_user_idx(&self, id: i64) -> (r: Option<usize>)
        ensures
            match r {
                Some(i) => i < self.users@.len() && self.users@[i as int].id == id,
                None => forall|j: int| 0 <= j < self.users@.len() ==> self.users@[j].id != id,
            },
    {
        let mut i: usize = 0;
        while i < self.users.len()
            invariant
                i <= self.users@.len(),
                forall|j: int| 0 <= j < i ==> self.users@[j].id != id,
            decreases self.users@.len() - i,
        {
            if self.users[i].id == id {
                return Some(i);
            }
            i += 1;
        }
        None
    }

    /// The index of the user row with the given login, if any.
    pub(crate) fn find_user_by_login_idx(&self, login: &String) -> (r: Option<usize>)
        ensures
            match r {
                Some(i) => i < self.users@.len() && self.users@[i as int].login@ == login@,
                None => forall|j: int| 0 <= j < self.users@.len() ==> self.users@[j].login@
                    != login@,
            },
    {
        let mut i: usize = 0;
        while i < self.users.len()
            invariant
                i <= self.users@.len(),
                forall|j: int| 0 <= j < i ==> self.users@[j].login@ != login@,
            decreases self.users@.len() - i,
        {
            if self.users[i].login == *login {
                return Some(i);
            }
            i += 1;
        }
        None
    }

    /// The index of the issue row with the given identifier, if any.
    pub(crate) fn find_issue_idx(&self, id: i64) -> (r: Option<usize>)
        ensures
            match r {
                Some(i) => i < self.issues@.len() && self.issues@[i as int].id == id,
                None => forall|j: int| 0 <= j < self.issues@.len() ==> self.issues@[j].id != id,
            },
    {
        let mut i: usize = 0;
        while i < self.issues.len()
            invariant
                i <= self.issues@.len(),
                forall|j: int| 0 <= j < i ==> self.issues@[j].id != id,
            decreases self.issues@.len() - i,
        {
            if self.issues[i].id == id {
                return Some(i);
            }
            i += 1;
        }
        None
    }

    /// The index of the pull-request row with the given identifier, if any.
    pub(crate) fn find_pr_idx(&self, id: i64) -> (r: Option<usize>)
        ensures
            match r {
                Some(i) => i < self.pull_requests@.len() && self.pull_requests@[i as int].id == id,
                None => forall|j: int|
                    0 <= j < self.pull_requests@.len() ==> self.pull_requests@[j].id != id,
            },
    {
        let mut i: usize = 0;
        while i < self.pull_requests.len()
            invariant
                i <= self.pull_requests@.len(),
                forall|j: int| 0 <= j < i ==> self.pull_requests@[j].id != id,
            decreases self.pull_requests@.len() - i,
        {
            if self.pull_requests[i].id == id {
                return Some(i);
            }
            i += 1;
        }
        None
    }

    /// The index of the refresh row with the given user identifier, if any.
    pub(crate) fn find_refresh_idx(&self, id: i64) -> (r: Option<usize>)
        ensures
            match r {
                Some(i) => i < self.user_refresh@.len() && self.user_refresh@[i as int].id == id,
                None => forall|j: int|
                    0 <= j < self.user_refresh@.len() ==> self.user_refresh@[j].id != id,
            },
    {
        let mut i: usize = 0;
        while i < self.user_refresh.len()
            invariant
                i <= self.user_refresh@.len(),
                forall|j: int| 0 <= j < i ==> self.user_refresh@[j].id != id,
            decreases self.user_refresh@.len() - i,
        {
            if self.user_refresh[i].id == id {
                return Some(i);
            }
            i += 1;
        }
        None
    }

    /// The index of the association row for the given pair, if any.
    pub(crate) fn find_link_idx(&self, user_id: i64, issue_id: i64) -> (r: Option<usize>)
        ensures
            match r {
                Some(i) => i < self.user_issues@.len() && self.user_issues@[i as int].user_id
                    == user_id && self.user_issues@[i as int].issue_id == issue_id,
                None => forall|j: int|
                    0 <= j < self.user_issues@.len() ==> !(self.user_issues@[j].user_id == user_id
                        && self.user_issues@[j].issue_id == issue_id),
            },
    {
        let mut i: usize = 0;
        while i < self.user_issues.len()
            invariant
                i <= self.user_issues@.len(),
                forall|j: int|
                    0 <= j < i ==> !(self.user_issues@[j].user_id == user_id
                        && self.user_issues@[j].issue_id == issue_id),
            decreases self.user_issues@.len() - i,
        {
            if self.user_issues[i].user_id == user_id && self.user_issues[i].issue_id == issue_id {
                return Some(i);
            }
            i += 1;
        }
        None
    }

    /// Whether a valid credential is currently stored.
    pub fn has_token(&self) -> (r: bool)
        ensures
            r == (active_token_of(self.tokens@) is Some),
    {
        self.tokens.len() > 0 && !self.tokens[self.tokens.len() - 1].invalid
    }

    /// The active credential, or which of the two failure states holds:
    /// `CredentialMissing` when no token was ever stored, `CredentialInvalid`
    /// when tokens exist but all have been invalidated or superseded.
    pub fn get_token(&self) -> (r: Result<String, GHDError>)
        ensures
            r == get_token_of(self.tokens@),
    {
        if self.tokens.len() > 0 {
            let last = &self.tokens[self.tokens.len() - 1];
            if !last.invalid {
                Ok(last.token.clone())
            } else {
                Err(GHDError::CredentialInvalid)
            }
        } else {
            Err(GHDError::CredentialMissing)
        }
    }

    /// Store a new credential for `user_id`: every previously stored token is
    /// superseded, and the new token becomes the single active credential.
    pub fn store_token(&mut self, token: &String, user_id: i64)
        requires
            old(self).wf(),
            old(self).tokens@.len() < i64::MAX,
        ensures
            final(self).wf(),
            final(self).tokens@ == tokens_after_store(old(self).tokens@, *token, user_id),
            active_token_of(final(self).tokens@) matches Some(t) && t.token == *token
                && t.user_id == user_id,
            get_token_of(final(self).tokens@) == Ok::<String, GHDError>(*token),
            final(self).users@ == old(self).users@,
            final(self).issues@ == old(self).issues@,
            final(self).pull_requests@ == old(self).pull_requests@,
            final(self).user_issues@ == old(self).user_issues@,
            final(self).user_refresh@ == old(self).user_refresh@,
    {
        let ghost toks0 = self.tokens@;
        let n = self.tokens.len();
        let mut i: usize = 0;
        while i < n
            invariant
                n == self.tokens@.len(),
                i <= n,
                n < i64::MAX,
                forall|j: int|
                    0 <= j < i ==> #[trigger] self.tokens@[j] == (TokenEntry {
                        id: toks0[j].id,
                        token: toks0[j].token,
                        user_id: toks0[j].user_id,
                        invalid: true,
                    }),
                forall|j: int| i <= j < n ==> #[trigger] self.tokens@[j] == toks0[j],
                self.users@ == old(self).users@,
                self.issues@ == old(self).issues@,
                self.pull_requests@ == old(self).pull_requests@,
                self.user_issues@ == old(self).user_issues@,
                self.user_refresh@ == old(self).user_refresh@,
            decreases n - i,
        {
            self.tokens[i].invalid = true;
            i += 1;
        }
        let next_id: i64 = (n as i64) + 1;
        self.tokens.push(
            TokenEntry { id: next_id, token: token.clone(), user_id, invalid: false },
        );
        proof {
            assert(self.tokens@ =~= tokens_after_store(toks0, *token, user_id));
            assert(self.user_map() == old(self).user_map());
            assert(self.issue_map() == old(self).issue_map());
            assert(self.pr_map() == old(self).pr_map());
            assert(self.refresh_map() == old(self).refresh_map());
        }
    }

    /// Invalidate the active credential, if any; idempotent, and a no-op when
    /// no credential is stored. After this call no credential is valid, and a
    /// lookup reports `CredentialInvalid` (or `CredentialMissing` when no
    /// token was ever stored).
    pub fn invalidate_token(&mut self)
        requires
            old(self).wf(),
        ensures
            final(self).wf(),
            final(self).tokens@ == tokens_after_invalidate(old(self).tokens@),
            active_token_of(final(self).tokens@) is None,
            final(self).users@ == old(self).users@,
            final(self).issues@ == old(self).issues@,
            final(self).pull_requests@ == old(self).pull_requests@,
            final(self).user_issues@ == old(self).user_issues@,
            final(self).user_refresh@ == old(self).user_refresh@,
    {
        let n = self.tokens.len();
        if n > 0 {
            self.tokens[n - 1].invalid = true;
        }
        proof {
            assert(self.tokens@ =~= tokens_after_invalidate(old(self).tokens@));
            assert(self.user_map() == old(self).user_map());
            assert(self.issue_map() == old(self).issue_map());
            assert(self.pr_map() == old(self).pr_map());
            assert(self.refresh_map() == old(self).refresh_map());
        }
    }
}

/// A credential round-trips: after a token is stored, it is the active
/// credential, and a lookup returns exactly that token. (When the remote
/// identity check rejects a token, nothing is stored at all — see
/// `Github::set_token` — so this covers every way a credential gets in.)
pub proof fn lemma_credential_round_trip(toks: Seq<TokenEntry>, token: String, user_id: i64)
    ensures
        active_token_of(tokens_after_store(toks, token, user_id)) matches Some(t) && t.token
            == token && t.user_id == user_id,
        get_token_of(tokens_after_store(toks, token, user_id)) == Ok::<String, GHDError>(token),
{
}

/// After the active credential is invalidated no credential is valid, and a
/// lookup reports `CredentialInvalid` whenever any token was ever stored
/// (and still `CredentialMissing` when none was). Together with the
/// scheduler's plan — which plans no fetch while no valid credential is
/// stored — this halts all refresh activity until a new credential is
/// supplied.
pub proof fn lemma_invalidate_reports_invalid(toks: Seq<TokenEntry>)
    ensures
        active_token_of(tokens_after_invalidate(toks)) is None,
        toks.len() > 0 ==> get_token_of(tokens_after_invalidate(toks)) == Err::<String, GHDError>(
            GHDError::CredentialInvalid,
        ),
        toks.len() == 0 ==> get_token_of(tokens_after_invalidate(toks)) == Err::<String, GHDError>(
            GHDError::CredentialMissing,
        ),
{
}

/// The forward-only migration plan for a store found at `version`: the
/// single-step target versions to apply, in order, ending at
/// [`GHD_DB_VERSION`]. A store from a newer schema than this code understands
/// is a fatal configuration error, never a silent downgrade.
pub fn plan_migration(version: u32) -> (r: Result<Vec<u32>, GHDError>)
    ensures
        version > GHD_DB_VERSION ==> r == Err::<Vec<u32>, GHDError>(GHDError::SchemaFromFuture),
        version <= GHD_DB_VERSION ==> (r matches Ok(steps) && steps@.len() == GHD_DB_VERSION
            - version && forall|i: int| 0 <= i < steps@.len() ==> steps@[i] == version + i + 1),
{
    if version > GHD_DB_VERSION {
        return Err(GHDError::SchemaFromFuture);
    }
    let mut steps: Vec<u32> = Vec::new();
    let mut v: u32 = version;
    while v < GHD_DB_VERSION
        invariant
            version <= v <= GHD_DB_VERSION,
            steps@.len() == v - version,
            forall|i: int| 0 <= i < steps@.len() ==> steps@[i] == version + i + 1,
        decreases GHD_DB_VERSION - v,
    {
        v += 1;
        steps.push(v);
    }
    Ok(steps)
}

} // verus!
