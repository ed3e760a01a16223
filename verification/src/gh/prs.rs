use vstd::prelude::*;

use crate::db::{issue_key, link_key, pr_key, Store};
use crate::errors::GHDError;
use crate::gh::types::{Issue, IssueTableEntry, PullRequest, PullRequestRow,
    PullRequestTableEntry, UserIssuesTableEntry};
use crate::table::{lemma_table_view_dom, lemma_table_view_get, lemma_table_view_push,
    lemma_table_view_update, map_get};

verus! {

/// The issue row carrying the remote-sourced fields of `inc` and the given
/// user-action fields. Reconciliation never invents a view or an archive
/// mark: those fields are set only by explicit user action.
pub open spec fn issue_row(inc: Issue, last_viewed: Option<i64>, archived_at: Option<i64>)
    -> IssueTableEntry {
    IssueTableEntry {
        id: inc.id,
        number: inc.number,
        title: inc.title,
        author: inc.author,
        author_id: inc.author_id,
        url: inc.url,
        repo_owner: inc.repo_owner,
        repo_name: inc.repo_name,
        state: inc.state,
        created_at: inc.created_at,
        updated_at: inc.updated_at,
        closed_at: inc.closed_at,
        is_pull_request: inc.is_pull_request,
        last_viewed: last_viewed,
        archived_at: archived_at,
    }
}

/// The row that upserting `inc` over `prev` produces: remote-sourced fields
/// come from `inc`; the user-action fields survive from the previous row, or
/// start unset for a row seen for the first time.
pub open spec fn merge_issue(prev: Option<IssueTableEntry>, inc: Issue) -> IssueTableEntry {
    match prev {
        None => issue_row(inc, None, None),
        Some(p) => issue_row(inc, p.last_viewed, p.archived_at),
    }
}

/// The `pull_requests` row for an incoming pull request.
pub open spec fn pr_row_of(p: PullRequest) -> PullRequestRow {
    PullRequestRow {
        id: p.issue.id,
        is_draft: p.is_draft,
        review_decision: p.review_decision,
        merged_at: p.merged_at,
    }
}

/// One batch's incoming issue records, in application order: the plain
/// issues first, then the issue projections of the pull requests.
pub open spec fn combined_issues(issues: Seq<Issue>, prs: Seq<PullRequest>) -> Seq<Issue> {
    issues + prs.map_values(|p: PullRequest| p.issue)
}

/// Whether the batch carries a record for `id`.
pub open spec fn has_issue_id(c: Seq<Issue>, id: i64) -> bool {
    exists|j: int| 0 <= j < c.len() && (#[trigger] c[j]).id == id
}

/// The last record for `id` in the batch; later records win.
pub open spec fn last_with_id(c: Seq<Issue>, id: i64) -> Issue
    recommends
        has_issue_id(c, id),
    decreases c.len(),
{
    if c.len() == 0 {
        arbitrary()
    } else if c.last().id == id {
        c.last()
    } else {
        last_with_id(c.drop_last(), id)
    }
}

/// The user-action fields recorded for `id`, or unset for an unknown id.
pub open spec fn user_fields_of(m: Map<i64, IssueTableEntry>, id: i64) -> (
    Option<i64>,
    Option<i64>,
) {
    if m.contains_key(id) {
        (m[id].last_viewed, m[id].archived_at)
    } else {
        (None, None)
    }
}

/// The issue table after a batch is reconciled into it: every id the batch
/// carries maps to its last incoming record, with the user-action fields the
/// table already had for that id; every other id is untouched.
pub open spec fn reconciled_issues(m: Map<i64, IssueTableEntry>, c: Seq<Issue>) -> Map<
    i64,
    IssueTableEntry,
> {
    Map::new(
        |id: i64| m.contains_key(id) || has_issue_id(c, id),
        |id: i64|
            if has_issue_id(c, id) {
                issue_row(last_with_id(c, id), user_fields_of(m, id).0, user_fields_of(m, id).1)
            } else {
                m[id]
            },
    )
}

/// Whether the batch carries a pull-request record for `id`.
pub open spec fn has_pr_id(prs: Seq<PullRequest>, id: i64) -> bool {
    exists|j: int| 0 <= j < prs.len() && (#[trigger] prs[j]).issue.id == id
}

/// The last pull-request record for `id` in the batch.
pub open spec fn last_pr_with_id(prs: Seq<PullRequest>, id: i64) -> PullRequest
    recommends
        has_pr_id(prs, id),
    decreases prs.len(),
{
    if prs.len() == 0 {
        arbitrary()
    } else if prs.last().issue.id == id {
        prs.last()
    } else {
        last_pr_with_id(prs.drop_last(), id)
    }
}

/// The pull-request table after a batch is reconciled into it: the
/// pull-request-only columns carry no user-action fields, so the last
/// incoming record replaces the row entirely.
pub open spec fn reconciled_prs(m: Map<i64, PullRequestRow>, prs: Seq<PullRequest>) -> Map<
    i64,
    PullRequestRow,
> {
    Map::new(
        |id: i64| m.contains_key(id) || has_pr_id(prs, id),
        |id: i64|
            if has_pr_id(prs, id) {
                pr_row_of(last_pr_with_id(prs, id))
            } else {
                m[id]
            },
    )
}

/// The association table after a batch for `uid` is reconciled: every id the
/// batch carries becomes relevant to `uid`; no association is ever removed.
pub open spec fn reconciled_links(ls: Set<(i64, i64)>, uid: i64, c: Seq<Issue>) -> Set<
    (i64, i64),
> {
    Set::new(|p: (i64, i64)| ls.contains(p) || (p.0 == uid && has_issue_id(c, p.1)))
}

/// Reconciling an empty batch changes nothing.
proof fn lemma_reconciled_issues_empty(m: Map<i64, IssueTableEntry>, c: Seq<Issue>)
    requires
        c.len() == 0,
    ensures
        reconciled_issues(m, c) == m,
{
    assert(reconciled_issues(m, c) =~= m);
}

proof fn lemma_reconciled_prs_empty(m: Map<i64, PullRequestRow>, prs: Seq<PullRequest>)
    requires
        prs.len() == 0,
    ensures
        reconciled_prs(m, prs) == m,
{
    assert(reconciled_prs(m, prs) =~= m);
}

proof fn lemma_reconciled_links_empty(ls: Set<(i64, i64)>, uid: i64, c: Seq<Issue>)
    requires
        c.len() == 0,
    ensures
        reconciled_links(ls, uid, c) == ls,
{
    assert(reconciled_links(ls, uid, c) =~= ls);
}

/// Reconciling one more record is an upsert over the reconciled prefix.
proof fn lemma_reconciled_issues_push(m: Map<i64, IssueTableEntry>, s: Seq<Issue>, x: Issue)
    ensures
        reconciled_issues(m, s.push(x)) == reconciled_issues(m, s).insert(
            x.id,
            merge_issue(map_get(reconciled_issues(m, s), x.id), x),
        ),
{
    let sp = s.push(x);
    let r = reconciled_issues(m, s);
    let l = reconciled_issues(m, sp);
    let rhs = r.insert(x.id, merge_issue(map_get(r, x.id), x));
    assert(sp.drop_last() =~= s);
    assert(sp.last() == x);
    assert forall|id: i64| #[trigger] has_issue_id(sp, id) implies (has_issue_id(s, id) || id
        == x.id) by {
        let j = choose|j: int| 0 <= j < sp.len() && sp[j].id == id;
        if j < s.len() {
            assert(s[j].id == id);
        }
    }
    assert forall|id: i64| has_issue_id(s, id) implies #[trigger] has_issue_id(sp, id) by {
        let j = choose|j: int| 0 <= j < s.len() && s[j].id == id;
        assert(sp[j].id == id);
    }
    assert(has_issue_id(sp, x.id)) by {
        assert(sp[sp.len() - 1].id == x.id);
    }
    assert forall|id: i64| id != x.id && has_issue_id(s, id) implies last_with_id(sp, id)
        == last_with_id(s, id) by {
        assert(last_with_id(sp, id) == last_with_id(sp.drop_last(), id));
    }
    assert(last_with_id(sp, x.id) == x);
    assert forall|id: i64| true implies #[trigger] l.contains_key(id) == rhs.contains_key(id)
        && (l.contains_key(id) ==> l[id] == rhs[id]) by {
        if id == x.id {
            assert(l.contains_key(id) && rhs.contains_key(id));
            assert(l[id] == issue_row(x, user_fields_of(m, id).0, user_fields_of(m, id).1));
            if r.contains_key(id) {
                if has_issue_id(s, id) {
                    assert(r[id] == issue_row(
                        last_with_id(s, id),
                        user_fields_of(m, id).0,
                        user_fields_of(m, id).1,
                    ));
                } else {
                    assert(r[id] == m[id]);
                }
            }
            assert(l[id] == rhs[id]);
        } else {
            assert(has_issue_id(sp, id) == has_issue_id(s, id));
            if l.contains_key(id) {
                assert(l[id] == rhs[id]);
            }
        }
    }
    assert(l =~= rhs);
}

/// Reconciling one more pull-request record replaces its row.
proof fn lemma_reconciled_prs_push(m: Map<i64, PullRequestRow>, s: Seq<PullRequest>, x: PullRequest)
    ensures
        reconciled_prs(m, s.push(x)) == reconciled_prs(m, s).insert(x.issue.id, pr_row_of(x)),
{
    let sp = s.push(x);
    let l = reconciled_prs(m, sp);
    let rhs = reconciled_prs(m, s).insert(x.issue.id, pr_row_of(x));
    assert(sp.drop_last() =~= s);
    assert(sp.last() == x);
    assert forall|id: i64| #[trigger] has_pr_id(sp, id) implies (has_pr_id(s, id) || id
        == x.issue.id) by {
        let j = choose|j: int| 0 <= j < sp.len() && sp[j].issue.id == id;
        if j < s.len() {
            assert(s[j].issue.id == id);
        }
    }
    assert forall|id: i64| has_pr_id(s, id) implies #[trigger] has_pr_id(sp, id) by {
        let j = choose|j: int| 0 <= j < s.len() && s[j].issue.id == id;
        assert(sp[j].issue.id == id);
    }
    assert(has_pr_id(sp, x.issue.id)) by {
        assert(sp[sp.len() - 1].issue.id == x.issue.id);
    }
    assert forall|id: i64| id != x.issue.id && has_pr_id(s, id) implies last_pr_with_id(sp, id)
        == last_pr_with_id(s, id) by {
        assert(last_pr_with_id(sp, id) == last_pr_with_id(sp.drop_last(), id));
    }
    assert(last_pr_with_id(sp, x.issue.id) == x);
    assert(l =~= rhs);
}

/// Reconciling one more record associates its id with the user.
proof fn lemma_reconciled_links_push(ls: Set<(i64, i64)>, uid: i64, s: Seq<Issue>, x: Issue)
    ensures
        reconciled_links(ls, uid, s.push(x)) == reconciled_links(ls, uid, s).insert((uid, x.id)),
{
    let sp = s.push(x);
    assert forall|id: i64| #[trigger] has_issue_id(sp, id) implies (has_issue_id(s, id) || id
        == x.id) by {
        let j = choose|j: int| 0 <= j < sp.len() && sp[j].id == id;
        if j < s.len() {
            assert(s[j].id == id);
        }
    }
    assert forall|id: i64| has_issue_id(s, id) implies #[trigger] has_issue_id(sp, id) by {
        let j = choose|j: int| 0 <= j < s.len() && s[j].id == id;
        assert(sp[j].id == id);
    }
    assert(has_issue_id(sp, x.id)) by {
        assert(sp[sp.len() - 1].id == x.id);
    }
    assert(reconciled_links(ls, uid, sp) =~= reconciled_links(ls, uid, s).insert((uid, x.id)));
}

/// Upsert one incoming issue record, preserving the row's user-action
/// fields.
fn upsert_issue(store: &mut Store, inc: &Issue)
    requires
        old(store).wf(),
    ensures
        final(store).wf(),
        final(store).issue_map() == old(store).issue_map().insert(
            inc.id,
            merge_issue(map_get(old(store).issue_map(), inc.id), *inc),
        ),
        final(store).users@ == old(store).users@,
        final(store).pull_requests@ == old(store).pull_requests@,
        final(store).user_issues@ == old(store).user_issues@,
        final(store).user_refresh@ == old(store).user_refresh@,
        final(store).tokens@ == old(store).tokens@,
{
    proof {
        lemma_table_view_dom(store.issues@, issue_key());
        lemma_table_view_get(store.issues@, issue_key());
    }
    match store.find_issue_idx(inc.id) {
        Some(i) => {
            let row = IssueTableEntry {
                id: inc.id,
                number: inc.number,
                title: inc.title.clone(),
                author: inc.author.clone(),
                author_id: inc.author_id,
                url: inc.url.clone(),
                repo_owner: inc.repo_owner.clone(),
                repo_name: inc.repo_name.clone(),
                state: inc.state.clone(),
                created_at: inc.created_at,
                updated_at: inc.updated_at,
                closed_at: inc.closed_at,
                is_pull_request: inc.is_pull_request,
                last_viewed: store.issues[i].last_viewed,
                archived_at: store.issues[i].archived_at,
            };
            store.issues[i] = row;
            proof {
                lemma_table_view_update(old(store).issues@, issue_key(), i as int, row);
                assert(store.user_map() == old(store).user_map());
                assert(store.pr_map() == old(store).pr_map());
                assert(store.refresh_map() == old(store).refresh_map());
                assert forall|id: i64| #[trigger]
                    final(store).pr_map().contains_key(id) implies final(
                    store).issue_map().contains_key(id) by {
                    assert(old(store).issue_map().contains_key(id));
                }
            }
        },
        None => {
            let row = IssueTableEntry {
                id: inc.id,
                number: inc.number,
                title: inc.title.clone(),
                author: inc.author.clone(),
                author_id: inc.author_id,
                url: inc.url.clone(),
                repo_owner: inc.repo_owner.clone(),
                repo_name: inc.repo_name.clone(),
                state: inc.state.clone(),
                created_at: inc.created_at,
                updated_at: inc.updated_at,
                closed_at: inc.closed_at,
                is_pull_request: inc.is_pull_request,
                last_viewed: None,
                archived_at: None,
            };
            store.issues.push(row);
            proof {
                lemma_table_view_push(old(store).issues@, issue_key(), row);
                assert(store.user_map() == old(store).user_map());
                assert(store.pr_map() == old(store).pr_map());
                assert(store.refresh_map() == old(store).refresh_map());
                let ns = store.issues@;
                let os = old(store).issues@;
                assert forall|a: int, b: int|
                    0 <= a < ns.len() && 0 <= b < ns.len() && issue_key()(#[trigger] ns[a])
                        == issue_key()(#[trigger] ns[b]) implies a == b by {
                    if a < os.len() {
                        assert(ns[a] == os[a]);
                    }
                    if b < os.len() {
                        assert(ns[b] == os[b]);
                    }
                }
                assert forall|id: i64| #[trigger]
                    final(store).pr_map().contains_key(id) implies final(
                    store).issue_map().contains_key(id) by {
                    assert(old(store).issue_map().contains_key(id));
                }
            }
        },
    }
}

/// Upsert the pull-request row for an incoming pull request; its issue row
/// must already have been reconciled.
fn upsert_pr(store: &mut Store, p: &PullRequest)
    requires
        old(store).wf(),
        old(store).issue_map().contains_key(p.issue.id),
    ensures
        final(store).wf(),
        final(store).pr_map() == old(store).pr_map().insert(p.issue.id, pr_row_of(*p)),
        final(store).users@ == old(store).users@,
        final(store).issues@ == old(store).issues@,
        final(store).user_issues@ == old(store).user_issues@,
        final(store).user_refresh@ == old(store).user_refresh@,
        final(store).tokens@ == old(store).tokens@,
{
    let row = PullRequestRow {
        id: p.issue.id,
        is_draft: p.is_draft,
        review_decision: p.review_decision.clone(),
        merged_at: p.merged_at,
    };
    proof {
        lemma_table_view_dom(store.pull_requests@, pr_key());
        lemma_table_view_get(store.pull_requests@, pr_key());
    }
    match store.find_pr_idx(p.issue.id) {
        Some(i) => {
            store.pull_requests[i] = row;
            proof {
                lemma_table_view_update(old(store).pull_requests@, pr_key(), i as int, row);
                assert(store.user_map() == old(store).user_map());
                assert(store.issue_map() == old(store).issue_map());
                assert(store.refresh_map() == old(store).refresh_map());
                assert forall|id: i64| #[trigger]
                    final(store).pr_map().contains_key(id) implies final(
                    store).issue_map().contains_key(id) by {
                    if id != p.issue.id {
                        assert(old(store).pr_map().contains_key(id));
                    }
                }
            }
        },
        None => {
            store.pull_requests.push(row);
            proof {
                lemma_table_view_push(old(store).pull_requests@, pr_key(), row);
                assert(store.user_map() == old(store).user_map());
                assert(store.issue_map() == old(store).issue_map());
                assert(store.refresh_map() == old(store).refresh_map());
                let ns = store.pull_requests@;
                let os = old(store).pull_requests@;
                assert forall|a: int, b: int|
                    0 <= a < ns.len() && 0 <= b < ns.len() && pr_key()(#[trigger] ns[a]) == pr_key()(
                        #[trigger] ns[b],
                    ) implies a == b by {
                    if a < os.len() {
                        assert(ns[a] == os[a]);
                    }
                    if b < os.len() {
                        assert(ns[b] == os[b]);
                    }
                }
                assert forall|id: i64| #[trigger]
                    final(store).pr_map().contains_key(id) implies final(
                    store).issue_map().contains_key(id) by {
                    if id != p.issue.id {
                        assert(old(store).pr_map().contains_key(id));
                    }
                }
            }
        },
    }
}

/// Reconcile one fetched batch for `userid` into the cache: upsert every
/// issue, every pull request (its issue row and its extension row), and the
/// user associations for all of them.
///
/// The contract pins the entire post-state as a function of the pre-state
/// and the batch, so no intermediate state is observable through this
/// interface; the surrounding application applies the same mutations inside
/// one database transaction.
pub fn consume_issues(
    store: &mut Store,
    userid: i64,
    issues: &Vec<Issue>,
    prs: &Vec<PullRequest>,
) -> (r: Result<(), GHDError>)
    requires
        old(store).wf(),
        old(store).user_map().contains_key(userid),
    ensures
        r is Ok,
        final(store).wf(),
        final(store).issue_map() == reconciled_issues(
            old(store).issue_map(),
            combined_issues(issues@, prs@),
        ),
        final(store).pr_map() == reconciled_prs(old(store).pr_map(), prs@),
        final(store).link_set() == reconciled_links(
            old(store).link_set(),
            userid,
            combined_issues(issues@, prs@),
        ),
        final(store).users@ == old(store).users@,
        final(store).user_refresh@ == old(store).user_refresh@,
        final(store).tokens@ == old(store).tokens@,
{
    let ghost c = combined_issues(issues@, prs@);
    let ghost m0 = old(store).issue_map();
    let ghost p0 = old(store).pr_map();
    let ghost l0 = old(store).link_set();
    let n = issues.len();
    proof {
        lemma_reconciled_issues_empty(m0, issues@.take(0));
        assert(c.len() == issues@.len() + prs@.len());
    }
    let mut k: usize = 0;
    while k < n
        invariant
            n == issues@.len(),
            k <= n,
            store.wf(),
            m0 == old(store).issue_map(),
            store.issue_map() == reconciled_issues(m0, issues@.take(k as int)),
            store.pull_requests@ == old(store).pull_requests@,
            store.user_issues@ == old(store).user_issues@,
            store.users@ == old(store).users@,
            store.user_refresh@ == old(store).user_refresh@,
            store.tokens@ == old(store).tokens@,
        decreases n - k,
    {
        upsert_issue(store, &issues[k]);
        proof {
            lemma_reconciled_issues_push(m0, issues@.take(k as int), issues@[k as int]);
            assert(issues@.take(k as int).push(issues@[k as int]) =~= issues@.take(k + 1));
        }
        k += 1;
    }
    proof {
        assert(issues@.take(n as int) =~= issues@);
        assert(c.take(n as int) =~= issues@);
        lemma_reconciled_prs_empty(p0, prs@.take(0));
    }
    let mut k: usize = 0;
    while k < prs.len()
        invariant
            n == issues@.len(),
            k <= prs@.len(),
            store.wf(),
            m0 == old(store).issue_map(),
            p0 == old(store).pr_map(),
            c == combined_issues(issues@, prs@),
            store.issue_map() == reconciled_issues(m0, c.take(n + k as int)),
            store.pr_map() == reconciled_prs(p0, prs@.take(k as int)),
            store.user_issues@ == old(store).user_issues@,
            store.users@ == old(store).users@,
            store.user_refresh@ == old(store).user_refresh@,
            store.tokens@ == old(store).tokens@,
        decreases prs@.len() - k,
    {
        proof {
            assert(c[n + k as int] == prs@.map_values(|p: PullRequest| p.issue)[k as int]);
            assert(c[n + k as int] == prs@[k as int].issue);
        }
        upsert_issue(store, &prs[k].issue);
        proof {
            lemma_reconciled_issues_push(m0, c.take(n + k as int), c[n + k as int]);
            assert(c.take(n + k as int).push(c[n + k as int]) =~= c.take(n + k + 1));
            assert(store.issue_map().contains_key(prs@[k as int].issue.id));
        }
        upsert_pr(store, &prs[k]);
        proof {
            lemma_reconciled_prs_push(p0, prs@.take(k as int), prs@[k as int]);
            assert(prs@.take(k as int).push(prs@[k as int]) =~= prs@.take(k + 1));
        }
        k += 1;
    }
    proof {
        assert(c.take(c.len() as int) =~= c);
        assert(prs@.take(prs@.len() as int) =~= prs@);
        lemma_reconciled_links_empty(l0, userid, c.take(0));
    }
    let mut k: usize = 0;
    while k < n
        invariant
            n == issues@.len(),
            k <= n,
            store.wf(),
            l0 == old(store).link_set(),
            m0 == old(store).issue_map(),
            p0 == old(store).pr_map(),
            c == combined_issues(issues@, prs@),
            store.link_set() == reconciled_links(l0, userid, c.take(k as int)),
            store.issue_map() == reconciled_issues(m0, c),
            store.pr_map() == reconciled_prs(p0, prs@),
            store.users@ == old(store).users@,
            store.user_refresh@ == old(store).user_refresh@,
            store.tokens@ == old(store).tokens@,
        decreases n - k,
    {
        proof {
            assert(c[k as int] == issues@[k as int]);
        }
        add_link(store, userid, issues[k].id);
        proof {
            lemma_reconciled_links_push(l0, userid, c.take(k as int), c[k as int]);
            assert(c.take(k as int).push(c[k as int]) =~= c.take(k + 1));
        }
        k += 1;
    }
    let mut k: usize = 0;
    while k < prs.len()
        invariant
            n == issues@.len(),
            k <= prs@.len(),
            store.wf(),
            l0 == old(store).link_set(),
            m0 == old(store).issue_map(),
            p0 == old(store).pr_map(),
            c == combined_issues(issues@, prs@),
            store.link_set() == reconciled_links(l0, userid, c.take(n + k as int)),
            store.issue_map() == reconciled_issues(m0, c),
            store.pr_map() == reconciled_prs(p0, prs@),
            store.users@ == old(store).users@,
            store.user_refresh@ == old(store).user_refresh@,
            store.tokens@ == old(store).tokens@,
        decreases prs@.len() - k,
    {
        proof {
            assert(c[n + k as int] == prs@.map_values(|p: PullRequest| p.issue)[k as int]);
            assert(c[n + k as int] == prs@[k as int].issue);
        }
        add_link(store, userid, prs[k].issue.id);
        proof {
            lemma_reconciled_links_push(l0, userid, c.take(n + k as int), c[n + k as int]);
            assert(c.take(n + k as int).push(c[n + k as int]) =~= c.take(n + k + 1));
        }
        k += 1;
    }
    proof {
        assert(c.take(c.len() as int) =~= c);
    }
    Ok(())
}

/// The joined row an issue row and its pull-request extension present to the
/// caller.
pub open spec fn entry_of(i: IssueTableEntry, p: PullRequestRow) -> PullRequestTableEntry {
    PullRequestTableEntry {
        id: i.id,
        number: i.number,
        title: i.title,
        author: i.author,
        author_id: i.author_id,
        url: i.url,
        repo_owner: i.repo_owner,
        repo_name: i.repo_name,
        state: i.state,
        created_at: i.created_at,
        updated_at: i.updated_at,
        closed_at: i.closed_at,
        is_pull_request: i.is_pull_request,
        last_viewed: i.last_viewed,
        archived_at: i.archived_at,
        is_draft: p.is_draft,
        review_decision: p.review_decision,
        merged_at: p.merged_at,
    }
}

fn make_entry(i: &IssueTableEntry, p: &PullRequestRow) -> (r: PullRequestTableEntry)
    ensures
        r == entry_of(*i, *p),
{
    PullRequestTableEntry {
        id: i.id,
        number: i.number,
        title: i.title.clone(),
        author: i.author.clone(),
        author_id: i.author_id,
        url: i.url.clone(),
        repo_owner: i.repo_owner.clone(),
        repo_name: i.repo_name.clone(),
        state: i.state.clone(),
        created_at: i.created_at,
        updated_at: i.updated_at,
        closed_at: i.closed_at,
        is_pull_request: i.is_pull_request,
        last_viewed: i.last_viewed,
        archived_at: i.archived_at,
        is_draft: p.is_draft,
        review_decision: p.review_decision.clone(),
        merged_at: p.merged_at,
    }
}

/// Feed ordering: most recently updated first; equal update times are
/// ordered by ascending identifier, so the order is total and the sorted
/// result is unique.
pub open spec fn entry_le(a: PullRequestTableEntry, b: PullRequestTableEntry) -> bool {
    a.updated_at > b.updated_at || (a.updated_at == b.updated_at && a.id <= b.id)
}

pub open spec fn sorted_entries(s: Seq<PullRequestTableEntry>) -> bool {
    forall|i: int, j: int| 0 <= i < j < s.len() ==> entry_le(#[trigger] s[i], #[trigger] s[j])
}

fn entry_le_exec(a: &PullRequestTableEntry, b: &PullRequestTableEntry) -> (r: bool)
    ensures
        r == entry_le(*a, *b),
{
    a.updated_at > b.updated_at || (a.updated_at == b.updated_at && a.id <= b.id)
}

/// Sort a result list into feed order by insertion sort.
fn sort_entries(v: &mut Vec<PullRequestTableEntry>)
    ensures
        final(v)@.to_multiset() == old(v)@.to_multiset(),
        sorted_entries(final(v)@),
{
    let ghost ms0 = old(v)@.to_multiset();
    let n = v.len();
    if n == 0 {
        return ;
    }
    let mut i: usize = 1;
    while i < n
        invariant
            n == v@.len(),
            1 <= i <= n,
            v@.to_multiset() == ms0,
            sorted_entries(v@.take(i as int)),
        decreases n - i,
    {
        let mut j: usize = i;
        proof {
            assert forall|a: int, b: int| 0 <= a < b <= i && b != j implies entry_le(
                #[trigger] v@[a],
                #[trigger] v@[b],
            ) by {
                assert(v@.take(i as int)[a] == v@[a]);
                assert(v@.take(i as int)[b] == v@[b]);
            }
        }
        while j > 0 && !entry_le_exec(&v[j - 1], &v[j])
            invariant
                n == v@.len(),
                0 <= j <= i < n,
                v@.to_multiset() == ms0,
                forall|a: int, b: int|
                    0 <= a < b <= i && b != j ==> entry_le(#[trigger] v@[a], #[trigger] v@[b]),
            decreases j,
        {
            let ghost s0 = v@;
            let a = v[j - 1].clone();
            let b = v[j].clone();
            v[j - 1] = b;
            v[j] = a;
            proof {
                broadcast use vstd::seq_lib::to_multiset_update;

                let s1 = s0.update(j - 1, s0[j as int]);
                let s2 = s1.update(j as int, s0[j - 1]);
                assert(v@ == s2);
                assert(s1.to_multiset() == s0.to_multiset().insert(s0[j as int]).remove(
                    s0[j - 1],
                ));
                assert(s1[j as int] == s0[j as int]);
                assert(s2.to_multiset() == s1.to_multiset().insert(s0[j - 1]).remove(
                    s0[j as int],
                ));
                s0.to_multiset_ensures();
                assert(s0.contains(s0[j - 1]));
                assert(s0.to_multiset().count(s0[j - 1]) > 0);
                assert(s2.to_multiset() =~= s0.to_multiset());
                assert(!entry_le(s0[j - 1], s0[j as int]));
                assert(entry_le(s0[j as int], s0[j - 1]));
                assert forall|x: int, y: int|
                    0 <= x < y <= i && y != j - 1 implies entry_le(
                    #[trigger] v@[x],
                    #[trigger] v@[y],
                ) by {
                    if x == j - 1 && y == j {
                        assert(v@[x] == s0[j as int] && v@[y] == s0[j - 1]);
                    } else if x == j - 1 {
                        assert(v@[x] == s0[j as int] && v@[y] == s0[y]);
                        assert(entry_le(s0[j as int], s0[y]));
                    } else if x == j {
                        assert(v@[x] == s0[j - 1] && v@[y] == s0[y]);
                        assert(entry_le(s0[j - 1], s0[y]));
                    } else if y == j {
                        assert(v@[x] == s0[x] && v@[y] == s0[j - 1]);
                        assert(entry_le(s0[x], s0[j - 1]));
                    } else {
                        assert(v@[x] == s0[x] && v@[y] == s0[y]);
                    }
                }
            }
            j -= 1;
        }
        proof {
            assert forall|a: int, b: int| 0 <= a < b <= i implies entry_le(
                #[trigger] v@[a],
                #[trigger] v@[b],
            ) by {
                if b == j {
                    assert(j > 0);
                    assert(entry_le(v@[j - 1], v@[j as int]));
                    if a < j - 1 {
                        assert(entry_le(v@[a], v@[j - 1]));
                    }
                }
            }
            assert(sorted_entries(v@.take(i + 1))) by {
                assert(forall|a: int, b: int|
                    0 <= a < b < i + 1 ==> entry_le(
                        #[trigger] v@.take(i + 1)[a],
                        #[trigger] v@.take(i + 1)[b],
                    ));
            }
        }
        i += 1;
    }
    proof {
        assert(v@.take(n as int) =~= v@);
    }
}

/// Reconciliation is idempotent: applying the same batch twice, for the same
/// user, leaves the same issue table, pull-request table and association set
/// as applying it once.
pub proof fn lemma_reconcile_idempotent(
    m: Map<i64, IssueTableEntry>,
    p: Map<i64, PullRequestRow>,
    ls: Set<(i64, i64)>,
    uid: i64,
    issues: Seq<Issue>,
    prs: Seq<PullRequest>,
)
    ensures
        reconciled_issues(reconciled_issues(m, combined_issues(issues, prs)), combined_issues(
            issues,
            prs,
        )) == reconciled_issues(m, combined_issues(issues, prs)),
        reconciled_prs(reconciled_prs(p, prs), prs) == reconciled_prs(p, prs),
        reconciled_links(reconciled_links(ls, uid, combined_issues(issues, prs)), uid,
            combined_issues(issues, prs)) == reconciled_links(ls, uid, combined_issues(
            issues,
            prs,
        )),
{
    let c = combined_issues(issues, prs);
    let r1 = reconciled_issues(m, c);
    let r2 = reconciled_issues(r1, c);
    assert forall|id: i64| true implies #[trigger] r2.contains_key(id) == r1.contains_key(id) && (
    r2.contains_key(id) ==> r2[id] == r1[id]) by {
        if has_issue_id(c, id) {
            assert(r1.contains_key(id));
            assert(r1[id] == issue_row(
                last_with_id(c, id),
                user_fields_of(m, id).0,
                user_fields_of(m, id).1,
            ));
            assert(user_fields_of(r1, id) == user_fields_of(m, id));
        }
    }
    assert(r2 =~= r1);
    let q1 = reconciled_prs(p, prs);
    let q2 = reconciled_prs(q1, prs);
    assert(q2 =~= q1);
    let s1 = reconciled_links(ls, uid, c);
    let s2 = reconciled_links(s1, uid, c);
    assert(s2 =~= s1);
}

/// Whether the association table records `issue_id` as relevant to
/// `user_id`.
fn has_link(store: &Store, user_id: i64, issue_id: i64) -> (r: bool)
    ensures
        r == store.link_set().contains((user_id, issue_id)),
{
    let ghost pair_of = |l: UserIssuesTableEntry| (l.user_id, l.issue_id);
    match store.find_link_idx(user_id, issue_id) {
        Some(i) => {
            proof {
                assert(store.user_issues@.map_values(pair_of)[i as int] == (user_id, issue_id));
            }
            true
        },
        None => {
            proof {
                if store.link_set().contains((user_id, issue_id)) {
                    let i = choose|i: int|
                        0 <= i < store.user_issues@.len() && store.user_issues@.map_values(
                            pair_of,
                        )[i] == (user_id, issue_id);
                    assert(store.user_issues@[i].user_id == user_id && store.user_issues@[i].issue_id
                        == issue_id);
                }
            }
            false
        },
    }
}

/// The unfiltered diagnostic view: every pull request in the cache, joined
/// with its issue row, in storage order — archived rows included.
pub open spec fn all_pr_entries(s: Store) -> Seq<PullRequestTableEntry> {
    s.pull_requests@.map_values(|p: PullRequestRow| entry_of(s.issue_map()[p.id], p))
}

/// Every cached pull request, joined with its issue columns; archived rows
/// are included, which makes this the diagnostic query that shows archiving
/// leaves rows intact.
pub fn get_all_prs_from_db(store: &Store) -> (r: Result<Vec<PullRequestTableEntry>, GHDError>)
    requires
        store.wf(),
    ensures
        r matches Ok(v) && v@ == all_pr_entries(*store),
{
    let mut out: Vec<PullRequestTableEntry> = Vec::new();
    let mut k: usize = 0;
    proof {
        lemma_table_view_dom(store.pull_requests@, pr_key());
        lemma_table_view_get(store.issues@, issue_key());
        lemma_table_view_dom(store.issues@, issue_key());
    }
    while k < store.pull_requests.len()
        invariant
            store.wf(),
            k <= store.pull_requests@.len(),
            out@.len() == k,
            forall|j: int| 0 <= j < k ==> out@[j] == #[trigger] all_pr_entries(*store)[j],
        decreases store.pull_requests@.len() - k,
    {
        proof {
            lemma_table_view_dom(store.pull_requests@, pr_key());
            lemma_table_view_get(store.issues@, issue_key());
            lemma_table_view_dom(store.issues@, issue_key());
        }
        let p = &store.pull_requests[k];
        match store.find_issue_idx(p.id) {
            Some(i) => {
                out.push(make_entry(&store.issues[i], p));
            },
            None => {
                proof {
                    assert(store.pr_map().contains_key(store.pull_requests@[k as int].id));
                    assert(false);
                }
            },
        }
        k += 1;
    }
    proof {
        assert(out@ =~= all_pr_entries(*store));
    }
    Ok(out)
}

/// Selects the pull requests whose issue row was authored by `login` and is
/// not archived.
pub open spec fn author_sel(s: Store, login: Seq<char>) -> spec_fn(PullRequestRow) -> bool {
    |p: PullRequestRow|
        {
            &&& s.issue_map().contains_key(p.id)
            &&& s.issue_map()[p.id].author@ == login
            &&& s.issue_map()[p.id].archived_at is None
        }
}

/// The feed of pull requests authored by `login`, before ordering.
pub open spec fn authored_pr_entries(s: Store, login: Seq<char>) -> Seq<PullRequestTableEntry> {
    s.pull_requests@.filter(author_sel(s, login)).map_values(
        |p: PullRequestRow| entry_of(s.issue_map()[p.id], p),
    )
}

/// All pull requests authored by `login`, excluding archived ones, most
/// recently updated first.
pub fn get_prs_by_author(store: &Store, login: &String) -> (r: Result<
    Vec<PullRequestTableEntry>,
    GHDError,
>)
    requires
        store.wf(),
    ensures
        r matches Ok(v) && v@.to_multiset() == authored_pr_entries(*store, login@).to_multiset()
            && sorted_entries(v@),
{
    let ghost sel = author_sel(*store, login@);
    let ghost conv = |p: PullRequestRow| entry_of(store.issue_map()[p.id], p);
    let mut out: Vec<PullRequestTableEntry> = Vec::new();
    let mut k: usize = 0;
    proof {
        assert(store.pull_requests@.take(0) =~= Seq::<PullRequestRow>::empty());
        assert(out@ =~= store.pull_requests@.take(0).filter(sel).map_values(conv));
    }
    while k < store.pull_requests.len()
        invariant
            store.wf(),
            k <= store.pull_requests@.len(),
            sel == author_sel(*store, login@),
            conv == (|p: PullRequestRow| entry_of(store.issue_map()[p.id], p)),
            out@ == store.pull_requests@.take(k as int).filter(sel).map_values(conv),
        decreases store.pull_requests@.len() - k,
    {
        proof {
            lemma_table_view_dom(store.issues@, issue_key());
            lemma_table_view_get(store.issues@, issue_key());
        }
        let p = &store.pull_requests[k];
        let mut keep = false;
        match store.find_issue_idx(p.id) {
            Some(i) => {
                let issue = &store.issues[i];
                if issue.author == *login && issue.archived_at.is_none() {
                    out.push(make_entry(issue, p));
                    keep = true;
                }
            },
            None => {},
        }
        proof {
            let pk = store.pull_requests@[k as int];
            assert(keep == sel(pk));
            store.pull_requests@.take(k as int).lemma_filter_push(pk, sel);
            store.pull_requests@.take(k as int).filter(sel).lemma_push_map_commute(conv, pk);
            assert(store.pull_requests@.take(k as int).push(pk) =~= store.pull_requests@.take(
                k + 1,
            ));
            if keep {
                assert(out@ == store.pull_requests@.take(k as int).filter(sel).map_values(
                    conv,
                ).push(conv(pk)));
            }
        }
        k += 1;
    }
    proof {
        assert(store.pull_requests@.take(store.pull_requests@.len() as int)
            =~= store.pull_requests@);
    }
    sort_entries(&mut out);
    Ok(out)
}

/// Selects the pull requests relevant to `login`'s feed but not authored by
/// them, excluding archived ones.
pub open spec fn involved_sel(s: Store, login: Seq<char>) -> spec_fn(PullRequestRow) -> bool {
    |p: PullRequestRow|
        {
            &&& s.issue_map().contains_key(p.id)
            &&& s.issue_map()[p.id].author@ != login
            &&& s.issue_map()[p.id].archived_at is None
            &&& exists|i: int|
                0 <= i < s.users@.len() && (#[trigger] s.users@[i]).login@ == login
                    && s.link_set().contains((s.users@[i].id, p.id))
        }
}

/// The feed of pull requests involving `login`, before ordering.
pub open spec fn involved_pr_entries(s: Store, login: Seq<char>) -> Seq<PullRequestTableEntry> {
    s.pull_requests@.filter(involved_sel(s, login)).map_values(
        |p: PullRequestRow| entry_of(s.issue_map()[p.id], p),
    )
}

/// All pull requests involving `login` — authored, mentioned,
/// review-requested or commented — except those authored by `login`,
/// excluding archived ones, most recently updated first. An unknown login
/// has an empty feed.
pub fn get_involved_prs(store: &Store, login: &String) -> (r: Result<
    Vec<PullRequestTableEntry>,
    GHDError,
>)
    requires
        store.wf(),
    ensures
        r matches Ok(v) && v@.to_multiset() == involved_pr_entries(*store, login@).to_multiset()
            && sorted_entries(v@),
{
    let ghost sel = involved_sel(*store, login@);
    let ghost conv = |p: PullRequestRow| entry_of(store.issue_map()[p.id], p);
    let uid = match store.find_user_by_login_idx(login) {
        Some(i) => store.users[i].id,
        None => {
            proof {
                assert forall|j: int| 0 <= j < store.pull_requests@.len() implies !sel(
                    #[trigger] store.pull_requests@[j],
                ) by {}
                assert(store.pull_requests@.all(|p: PullRequestRow| !sel(p)));
                store.pull_requests@.lemma_all_neg_filter_empty(sel);
                assert(store.pull_requests@.filter(sel) =~= Seq::<PullRequestRow>::empty());
                assert(involved_pr_entries(*store, login@)
                    =~= Seq::<PullRequestTableEntry>::empty());
            }
            let out: Vec<PullRequestTableEntry> = Vec::new();
            proof {
                assert(out@.to_multiset() =~= involved_pr_entries(*store, login@).to_multiset());
            }
            return Ok(out);
        },
    };
    let ghost ui = choose|i: int|
        0 <= i < store.users@.len() && (#[trigger] store.users@[i]).login@ == login@
            && store.users@[i].id == uid;
    let mut out: Vec<PullRequestTableEntry> = Vec::new();
    let mut k: usize = 0;
    proof {
        assert(store.pull_requests@.take(0) =~= Seq::<PullRequestRow>::empty());
        assert(out@ =~= store.pull_requests@.take(0).filter(sel).map_values(conv));
    }
    while k < store.pull_requests.len()
        invariant
            store.wf(),
            k <= store.pull_requests@.len(),
            sel == involved_sel(*store, login@),
            conv == (|p: PullRequestRow| entry_of(store.issue_map()[p.id], p)),
            0 <= ui < store.users@.len() && store.users@[ui].login@ == login@
                && store.users@[ui].id == uid,
            out@ == store.pull_requests@.take(k as int).filter(sel).map_values(conv),
        decreases store.pull_requests@.len() - k,
    {
        proof {
            lemma_table_view_dom(store.issues@, issue_key());
            lemma_table_view_get(store.issues@, issue_key());
        }
        let p = &store.pull_requests[k];
        let mut keep = false;
        if has_link(store, uid, p.id) {
            match store.find_issue_idx(p.id) {
                Some(i) => {
                    let issue = &store.issues[i];
                    if !(issue.author == *login) && issue.archived_at.is_none() {
                        out.push(make_entry(issue, p));
                        keep = true;
                    }
                },
                None => {},
            }
        }
        proof {
            let pk = store.pull_requests@[k as int];
            assert(keep == sel(pk)) by {
                if keep {
                    assert(store.users@[ui].login@ == login@ && store.link_set().contains(
                        (store.users@[ui].id, pk.id),
                    ));
                }
                if sel(pk) {
                    let w = choose|i: int|
                        0 <= i < store.users@.len() && (#[trigger] store.users@[i]).login@ == login@
                            && store.link_set().contains((store.users@[i].id, pk.id));
                    assert(w == ui);
                }
            }
            store.pull_requests@.take(k as int).lemma_filter_push(pk, sel);
            store.pull_requests@.take(k as int).filter(sel).lemma_push_map_commute(conv, pk);
            assert(store.pull_requests@.take(k as int).push(pk) =~= store.pull_requests@.take(
                k + 1,
            ));
            if keep {
                assert(out@ == store.pull_requests@.take(k as int).filter(sel).map_values(
                    conv,
                ).push(conv(pk)));
            }
        }
        k += 1;
    }
    proof {
        assert(store.pull_requests@.take(store.pull_requests@.len() as int)
            =~= store.pull_requests@);
    }
    sort_entries(&mut out);
    Ok(out)
}

/// The cached issue row with the given identifier, or `ResourceNotFound`.
pub fn get_issue_by_id(store: &Store, issue_id: i64) -> (r: Result<IssueTableEntry, GHDError>)
    requires
        store.wf(),
    ensures
        match map_get(store.issue_map(), issue_id) {
            Some(row) => r == Ok::<IssueTableEntry, GHDError>(row),
            None => r == Err::<IssueTableEntry, GHDError>(GHDError::ResourceNotFound),
        },
{
    proof {
        lemma_table_view_dom(store.issues@, issue_key());
        lemma_table_view_get(store.issues@, issue_key());
    }
    match store.find_issue_idx(issue_id) {
        Some(i) => Ok(store.issues[i].clone()),
        None => Err(GHDError::ResourceNotFound),
    }
}

/// The row with its last-viewed mark replaced and every other field intact.
pub open spec fn with_last_viewed(r: IssueTableEntry, lv: Option<i64>) -> IssueTableEntry {
    IssueTableEntry {
        id: r.id,
        number: r.number,
        title: r.title,
        author: r.author,
        author_id: r.author_id,
        url: r.url,
        repo_owner: r.repo_owner,
        repo_name: r.repo_name,
        state: r.state,
        created_at: r.created_at,
        updated_at: r.updated_at,
        closed_at: r.closed_at,
        is_pull_request: r.is_pull_request,
        last_viewed: lv,
        archived_at: r.archived_at,
    }
}

/// The row with its archive mark replaced and every other field intact.
pub open spec fn with_archived(r: IssueTableEntry, ar: Option<i64>) -> IssueTableEntry {
    IssueTableEntry {
        id: r.id,
        number: r.number,
        title: r.title,
        author: r.author,
        author_id: r.author_id,
        url: r.url,
        repo_owner: r.repo_owner,
        repo_name: r.repo_name,
        state: r.state,
        created_at: r.created_at,
        updated_at: r.updated_at,
        closed_at: r.closed_at,
        is_pull_request: r.is_pull_request,
        last_viewed: r.last_viewed,
        archived_at: ar,
    }
}

/// The issue table after the listed issues are marked viewed at `now`; every
/// other row and every other field is untouched.
pub open spec fn marked_viewed_map(m: Map<i64, IssueTableEntry>, ids: Seq<i64>, now: i64) -> Map<
    i64,
    IssueTableEntry,
> {
    Map::new(
        |id: i64| m.contains_key(id),
        |id: i64|
            if ids.contains(id) {
                with_last_viewed(m[id], Some(now))
            } else {
                m[id]
            },
    )
}

/// The issue table after the listed issues are archived at `now`.
pub open spec fn archived_map(m: Map<i64, IssueTableEntry>, ids: Seq<i64>, now: i64) -> Map<
    i64,
    IssueTableEntry,
> {
    Map::new(
        |id: i64| m.contains_key(id),
        |id: i64|
            if ids.contains(id) {
                with_archived(m[id], Some(now))
            } else {
                m[id]
            },
    )
}

/// Mark one issue viewed at `now`: only its last-viewed mark changes, and
/// only when the issue exists; an unknown issue reports `ResourceNotFound`
/// and changes nothing.
pub fn mark_viewed(store: &mut Store, prid: i64, now: i64) -> (r: Result<(), GHDError>)
    requires
        old(store).wf(),
    ensures
        final(store).wf(),
        match map_get(old(store).issue_map(), prid) {
            Some(row) => r is Ok && final(store).issue_map() == old(store).issue_map().insert(
                prid,
                with_last_viewed(row, Some(now)),
            ),
            None => r == Err::<(), GHDError>(GHDError::ResourceNotFound) && final(store).issues@
                == old(store).issues@,
        },
        final(store).users@ == old(store).users@,
        final(store).pull_requests@ == old(store).pull_requests@,
        final(store).user_issues@ == old(store).user_issues@,
        final(store).user_refresh@ == old(store).user_refresh@,
        final(store).tokens@ == old(store).tokens@,
{
    proof {
        lemma_table_view_dom(store.issues@, issue_key());
        lemma_table_view_get(store.issues@, issue_key());
    }
    match store.find_issue_idx(prid) {
        Some(i) => {
            let mut row = store.issues[i].clone();
            row.last_viewed = Some(now);
            store.issues[i] = row;
            proof {
                lemma_table_view_update(
                    old(store).issues@,
                    issue_key(),
                    i as int,
                    with_last_viewed(old(store).issues@[i as int], Some(now)),
                );
                assert(store.user_map() == old(store).user_map());
                assert(store.pr_map() == old(store).pr_map());
                assert(store.refresh_map() == old(store).refresh_map());
                assert forall|id: i64| #[trigger]
                    final(store).pr_map().contains_key(id) implies final(
                    store).issue_map().contains_key(id) by {
                    assert(old(store).issue_map().contains_key(id));
                }
            }
            Ok(())
        },
        None => Err(GHDError::ResourceNotFound),
    }
}

/// Mark several issues viewed at `now`, all or none: when every listed issue
/// exists they are all marked; when any is unknown, `ResourceNotFound` is
/// reported and nothing changes.
pub fn mark_viewed_many(store: &mut Store, prs: &Vec<i64>, now: i64) -> (r: Result<(), GHDError>)
    requires
        old(store).wf(),
    ensures
        final(store).wf(),
        if forall|k: int|
            0 <= k < prs@.len() ==> old(store).issue_map().contains_key(#[trigger] prs@[k]) {
            r is Ok && final(store).issue_map() == marked_viewed_map(
                old(store).issue_map(),
                prs@,
                now,
            )
        } else {
            r == Err::<(), GHDError>(GHDError::ResourceNotFound) && final(store).issues@ == old(
                store,
            ).issues@
        },
        final(store).users@ == old(store).users@,
        final(store).pull_requests@ == old(store).pull_requests@,
        final(store).user_issues@ == old(store).user_issues@,
        final(store).user_refresh@ == old(store).user_refresh@,
        final(store).tokens@ == old(store).tokens@,
{
    proof {
        lemma_table_view_dom(store.issues@, issue_key());
        lemma_table_view_get(store.issues@, issue_key());
    }
    let mut k: usize = 0;
    while k < prs.len()
        invariant
            k <= prs@.len(),
            store == old(store),
            store.wf(),
            forall|j: int|
                0 <= j < k ==> old(store).issue_map().contains_key(#[trigger] prs@[j]),
        decreases prs@.len() - k,
    {
        proof {
            lemma_table_view_dom(store.issues@, issue_key());
        }
        match store.find_issue_idx(prs[k]) {
            Some(_) => {},
            None => {
                return Err(GHDError::ResourceNotFound);
            },
        }
        k += 1;
    }
    let ghost m0 = old(store).issue_map();
    proof {
        assert(prs@.take(0) =~= Seq::<i64>::empty());
        assert(store.issue_map() =~= marked_viewed_map(m0, prs@.take(0), now));
    }
    let mut k: usize = 0;
    while k < prs.len()
        invariant
            k <= prs@.len(),
            store.wf(),
            m0 == old(store).issue_map(),
            forall|j: int| 0 <= j < prs@.len() ==> m0.contains_key(#[trigger] prs@[j]),
            store.issue_map() == marked_viewed_map(m0, prs@.take(k as int), now),
            store.users@ == old(store).users@,
            store.pull_requests@ == old(store).pull_requests@,
            store.user_issues@ == old(store).user_issues@,
            store.user_refresh@ == old(store).user_refresh@,
            store.tokens@ == old(store).tokens@,
        decreases prs@.len() - k,
    {
        proof {
            lemma_table_view_dom(store.issues@, issue_key());
            lemma_table_view_get(store.issues@, issue_key());
            assert(store.issue_map().contains_key(prs@[k as int]));
        }
        let id = prs[k];
        let ghost st0 = *store;
        let ghost pre = store.issues@;
        match store.find_issue_idx(id) {
            Some(i) => {
                let mut row = store.issues[i].clone();
                row.last_viewed = Some(now);
                store.issues[i] = row;
                proof {
                    lemma_table_view_update(
                        pre,
                        issue_key(),
                        i as int,
                        with_last_viewed(pre[i as int], Some(now)),
                    );
                    let ns = store.issues@;
                    assert forall|a: int, b: int|
                        0 <= a < ns.len() && 0 <= b < ns.len() && issue_key()(#[trigger] ns[a])
                            == issue_key()(#[trigger] ns[b]) implies a == b by {
                        assert(issue_key()(ns[a]) == issue_key()(pre[a]));
                        assert(issue_key()(ns[b]) == issue_key()(pre[b]));
                    }
                    assert(store.user_map() == st0.user_map());
                    assert(store.pr_map() == st0.pr_map());
                    assert(store.refresh_map() == st0.refresh_map());
                    assert forall|id2: i64| #[trigger]
                        store.pr_map().contains_key(id2) implies store.issue_map().contains_key(
                        id2,
                    ) by {
                        assert(st0.pr_map().contains_key(id2));
                        assert(st0.issue_map().contains_key(id2));
                    }
                }
            },
            None => {
                proof {
                    assert(false);
                }
            },
        }
        proof {
            assert forall|y: i64| true implies #[trigger] prs@.take(k + 1).contains(y) == (
            prs@.take(k as int).contains(y) || y == prs@[k as int]) by {
                if prs@.take(k + 1).contains(y) {
                    let j = choose|j: int| 0 <= j < k + 1 && #[trigger] prs@.take(k + 1)[j] == y;
                    if j < k {
                        assert(prs@.take(k as int)[j] == y);
                    }
                } else {
                    if prs@.take(k as int).contains(y) {
                        let j = choose|j: int| 0 <= j < k && #[trigger] prs@.take(k as int)[j] == y;
                        assert(prs@.take(k + 1)[j] == y);
                    }
                    if y == prs@[k as int] {
                        assert(prs@.take(k + 1)[k as int] == y);
                    }
                }
            }
            assert(store.issue_map() =~= marked_viewed_map(m0, prs@.take(k + 1), now));
        }
        k += 1;
    }
    proof {
        assert(prs@.take(prs@.len() as int) =~= prs@);
    }
    Ok(())
}

/// Archive one issue at `now`: only its archive mark changes; the row itself
/// stays in the cache, visible to the unfiltered diagnostic query. An
/// unknown issue reports `ResourceNotFound` and changes nothing.
pub fn archive_issue(store: &mut Store, issue_id: i64, now: i64) -> (r: Result<(), GHDError>)
    requires
        old(store).wf(),
    ensures
        final(store).wf(),
        match map_get(old(store).issue_map(), issue_id) {
            Some(row) => r is Ok && final(store).issue_map() == old(store).issue_map().insert(
                issue_id,
                with_archived(row, Some(now)),
            ),
            None => r == Err::<(), GHDError>(GHDError::ResourceNotFound) && final(store).issues@
                == old(store).issues@,
        },
        final(store).users@ == old(store).users@,
        final(store).pull_requests@ == old(store).pull_requests@,
        final(store).user_issues@ == old(store).user_issues@,
        final(store).user_refresh@ == old(store).user_refresh@,
        final(store).tokens@ == old(store).tokens@,
{
    proof {
        lemma_table_view_dom(store.issues@, issue_key());
        lemma_table_view_get(store.issues@, issue_key());
    }
    match store.find_issue_idx(issue_id) {
        Some(i) => {
            let mut row = store.issues[i].clone();
            row.archived_at = Some(now);
            store.issues[i] = row;
            proof {
                lemma_table_view_update(
                    old(store).issues@,
                    issue_key(),
                    i as int,
                    with_archived(old(store).issues@[i as int], Some(now)),
                );
                assert(store.user_map() == old(store).user_map());
                assert(store.pr_map() == old(store).pr_map());
                assert(store.refresh_map() == old(store).refresh_map());
                assert forall|id: i64| #[trigger]
                    final(store).pr_map().contains_key(id) implies final(
                    store).issue_map().contains_key(id) by {
                    assert(old(store).issue_map().contains_key(id));
                }
            }
            Ok(())
        },
        None => Err(GHDError::ResourceNotFound),
    }
}

/// Archive several issues at `now`, all or none, in the manner of
/// [`mark_viewed_many`].
pub fn archive_issue_many(store: &mut Store, issues: &Vec<i64>, now: i64) -> (r: Result<
    (),
    GHDError,
>)
    requires
        old(store).wf(),
    ensures
        final(store).wf(),
        if forall|k: int|
            0 <= k < issues@.len() ==> old(store).issue_map().contains_key(#[trigger] issues@[k]) {
            r is Ok && final(store).issue_map() == archived_map(
                old(store).issue_map(),
                issues@,
                now,
            )
        } else {
            r == Err::<(), GHDError>(GHDError::ResourceNotFound) && final(store).issues@ == old(
                store,
            ).issues@
        },
        final(store).users@ == old(store).users@,
        final(store).pull_requests@ == old(store).pull_requests@,
        final(store).user_issues@ == old(store).user_issues@,
        final(store).user_refresh@ == old(store).user_refresh@,
        final(store).tokens@ == old(store).tokens@,
{
    proof {
        lemma_table_view_dom(store.issues@, issue_key());
        lemma_table_view_get(store.issues@, issue_key());
    }
    let mut k: usize = 0;
    while k < issues.len()
        invariant
            k <= issues@.len(),
            store == old(store),
            store.wf(),
            forall|j: int|
                0 <= j < k ==> old(store).issue_map().contains_key(#[trigger] issues@[j]),
        decreases issues@.len() - k,
    {
        proof {
            lemma_table_view_dom(store.issues@, issue_key());
        }
        match store.find_issue_idx(issues[k]) {
            Some(_) => {},
            None => {
                return Err(GHDError::ResourceNotFound);
            },
        }
        k += 1;
    }
    let ghost m0 = old(store).issue_map();
    proof {
        assert(issues@.take(0) =~= Seq::<i64>::empty());
        assert(store.issue_map() =~= archived_map(m0, issues@.take(0), now));
    }
    let mut k: usize = 0;
    while k < issues.len()
        invariant
            k <= issues@.len(),
            store.wf(),
            m0 == old(store).issue_map(),
            forall|j: int| 0 <= j < issues@.len() ==> m0.contains_key(#[trigger] issues@[j]),
            store.issue_map() == archived_map(m0, issues@.take(k as int), now),
            store.users@ == old(store).users@,
            store.pull_requests@ == old(store).pull_requests@,
            store.user_issues@ == old(store).user_issues@,
            store.user_refresh@ == old(store).user_refresh@,
            store.tokens@ == old(store).tokens@,
        decreases issues@.len() - k,
    {
        proof {
            lemma_table_view_dom(store.issues@, issue_key());
            lemma_table_view_get(store.issues@, issue_key());
            assert(store.issue_map().contains_key(issues@[k as int]));
        }
        let id = issues[k];
        let ghost st0 = *store;
        let ghost pre = store.issues@;
        match store.find_issue_idx(id) {
            Some(i) => {
                let mut row = store.issues[i].clone();
                row.archived_at = Some(now);
                store.issues[i] = row;
                proof {
                    lemma_table_view_update(
                        pre,
                        issue_key(),
                        i as int,
                        with_archived(pre[i as int], Some(now)),
                    );
                    let ns = store.issues@;
                    assert forall|a: int, b: int|
                        0 <= a < ns.len() && 0 <= b < ns.len() && issue_key()(#[trigger] ns[a])
                            == issue_key()(#[trigger] ns[b]) implies a == b by {
                        assert(issue_key()(ns[a]) == issue_key()(pre[a]));
                        assert(issue_key()(ns[b]) == issue_key()(pre[b]));
                    }
                    assert(store.user_map() == st0.user_map());
                    assert(store.pr_map() == st0.pr_map());
                    assert(store.refresh_map() == st0.refresh_map());
                    assert forall|id2: i64| #[trigger]
                        store.pr_map().contains_key(id2) implies store.issue_map().contains_key(
                        id2,
                    ) by {
                        assert(st0.pr_map().contains_key(id2));
                        assert(st0.issue_map().contains_key(id2));
                    }
                }
            },
            None => {
                proof {
                    assert(false);
                }
            },
        }
        proof {
            assert forall|y: i64| true implies #[trigger] issues@.take(k + 1).contains(y) == (
            issues@.take(k as int).contains(y) || y == issues@[k as int]) by {
                if issues@.take(k + 1).contains(y) {
                    let j = choose|j: int| 0 <= j < k + 1 && #[trigger] issues@.take(k + 1)[j] == y;
                    if j < k {
                        assert(issues@.take(k as int)[j] == y);
                    }
                } else {
                    if issues@.take(k as int).contains(y) {
                        let j = choose|j: int| 0 <= j < k && #[trigger] issues@.take(k as int)[j] == y;
                        assert(issues@.take(k + 1)[j] == y);
                    }
                    if y == issues@[k as int] {
                        assert(issues@.take(k + 1)[k as int] == y);
                    }
                }
            }
            assert(store.issue_map() =~= archived_map(m0, issues@.take(k + 1), now));
        }
        k += 1;
    }
    proof {
        assert(issues@.take(issues@.len() as int) =~= issues@);
    }
    Ok(())
}

/// Archiving an issue excludes it from both the authored-by feed and the
/// involving feed, for every login, while its row — with every field other
/// than the archive mark intact — remains visible to the unfiltered
/// diagnostic query.
pub proof fn lemma_archive_excludes(s: Store, s2: Store, issue_id: i64, now: i64, login: Seq<char>)
    requires
        s.wf(),
        s.issue_map().contains_key(issue_id),
        s2.pull_requests@ == s.pull_requests@,
        s2.users@ == s.users@,
        s2.user_issues@ == s.user_issues@,
        s2.issue_map() == s.issue_map().insert(
            issue_id,
            with_archived(s.issue_map()[issue_id], Some(now)),
        ),
    ensures
        forall|j: int|
            0 <= j < authored_pr_entries(s2, login).len() ==> (#[trigger] authored_pr_entries(
                s2,
                login,
            )[j]).id != issue_id,
        forall|j: int|
            0 <= j < involved_pr_entries(s2, login).len() ==> (#[trigger] involved_pr_entries(
                s2,
                login,
            )[j]).id != issue_id,
        s2.issue_map()[issue_id] == with_archived(s.issue_map()[issue_id], Some(now)),
        forall|j: int|
            0 <= j < s2.pull_requests@.len() && (#[trigger] s2.pull_requests@[j]).id == issue_id
                ==> all_pr_entries(s2)[j].id == issue_id,
{
    broadcast use vstd::seq_lib::group_filter_ensures;

    lemma_table_view_dom(s.issues@, issue_key());
    lemma_table_view_get(s.issues@, issue_key());
    assert forall|x: i64| #[trigger] s.issue_map().contains_key(x) implies s.issue_map()[x].id
        == x by {
        let i = choose|i: int| 0 <= i < s.issues@.len() && issue_key()(#[trigger] s.issues@[i])
            == x;
        assert(s.issue_map()[x] == s.issues@[i]);
    }
    let asel = author_sel(s2, login);
    let af = s2.pull_requests@.filter(asel);
    assert forall|j: int| 0 <= j < authored_pr_entries(s2, login).len() implies (
    #[trigger] authored_pr_entries(s2, login)[j]).id != issue_id by {
        assert(asel(af[j]));
        assert(af[j].id != issue_id);
        assert(authored_pr_entries(s2, login)[j] == entry_of(s2.issue_map()[af[j].id], af[j]));
        assert(s2.issue_map()[af[j].id] == s.issue_map()[af[j].id]);
    }
    let isel = involved_sel(s2, login);
    let ifl = s2.pull_requests@.filter(isel);
    assert forall|j: int| 0 <= j < involved_pr_entries(s2, login).len() implies (
    #[trigger] involved_pr_entries(s2, login)[j]).id != issue_id by {
        assert(isel(ifl[j]));
        assert(ifl[j].id != issue_id);
        assert(involved_pr_entries(s2, login)[j] == entry_of(s2.issue_map()[ifl[j].id], ifl[j]));
        assert(s2.issue_map()[ifl[j].id] == s.issue_map()[ifl[j].id]);
    }
}

/// Record that `issue_id` is relevant to `user_id`; re-insertion of an
/// existing association is a no-op.
fn add_link(store: &mut Store, user_id: i64, issue_id: i64)
    requires
        old(store).wf(),
    ensures
        final(store).wf(),
        final(store).link_set() == old(store).link_set().insert((user_id, issue_id)),
        final(store).users@ == old(store).users@,
        final(store).issues@ == old(store).issues@,
        final(store).pull_requests@ == old(store).pull_requests@,
        final(store).user_refresh@ == old(store).user_refresh@,
        final(store).tokens@ == old(store).tokens@,
{
    let ghost pair_of = |l: UserIssuesTableEntry| (l.user_id, l.issue_id);
    match store.find_link_idx(user_id, issue_id) {
        Some(_) => {
            proof {
                assert(old(store).user_issues@.map_values(pair_of).contains(
                    (user_id, issue_id),
                )) by {
                    let i = choose|i: int|
                        0 <= i < old(store).user_issues@.len() && old(
                            store,
                        ).user_issues@[i].user_id == user_id && old(store).user_issues@[i].issue_id
                            == issue_id;
                    assert(old(store).user_issues@.map_values(pair_of)[i] == (user_id, issue_id));
                }
                assert(final(store).link_set() =~= old(store).link_set().insert(
                    (user_id, issue_id),
                ));
            }
        },
        None => {
            store.user_issues.push(UserIssuesTableEntry { user_id, issue_id });
            proof {
                let ns = store.user_issues@;
                let os = old(store).user_issues@;
                assert forall|a: int, b: int|
                    0 <= a < ns.len() && 0 <= b < ns.len() && link_key()(#[trigger] ns[a])
                        == link_key()(#[trigger] ns[b]) implies a == b by {
                    if a < os.len() {
                        assert(ns[a] == os[a]);
                    }
                    if b < os.len() {
                        assert(ns[b] == os[b]);
                    }
                }
                assert(store.user_map() == old(store).user_map());
                assert(store.issue_map() == old(store).issue_map());
                assert(store.pr_map() == old(store).pr_map());
                assert(store.refresh_map() == old(store).refresh_map());
                assert forall|q: (i64, i64)| #[trigger]
                    final(store).link_set().contains(q) implies old(store).link_set().insert(
                    (user_id, issue_id),
                ).contains(q) by {
                    let i = choose|i: int| 0 <= i < ns.len() && ns.map_values(pair_of)[i] == q;
                    if i < os.len() {
                        assert(os.map_values(pair_of)[i] == q);
                    }
                }
                assert forall|q: (i64, i64)|
                    old(store).link_set().insert((user_id, issue_id)).contains(q) implies #[trigger]
                    final(store).link_set().contains(q) by {
                    if q == (user_id, issue_id) {
                        assert(ns.map_values(pair_of)[ns.len() - 1] == q);
                    } else {
                        let i = choose|i: int| 0 <= i < os.len() && os.map_values(pair_of)[i] == q;
                        assert(ns.map_values(pair_of)[i] == q);
                    }
                }
                assert(final(store).link_set() =~= old(store).link_set().insert(
                    (user_id, issue_id),
                ));
            }
        },
    }
}

} // verus!
