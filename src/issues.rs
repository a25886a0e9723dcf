//! Per-store issue cursors folded from run reports, and the unread badges
//! derived from them and the seen state.

use vstd::prelude::*;
use crate::config::{opt_view, StoreConfig};
use crate::seen::{seen_in, SeenIds, SeenState, StoreSeenState};

verus! {

/// One historical run report, reduced to what issue tracking reads: its run
/// identifier (none when the report has no textual one), the stores it
/// covered, and how many failures and warnings it lists.
#[derive(Debug, Clone)]
pub struct RunReport {
    pub run_id: Option<String>,
    pub stores: Vec<String>,
    pub failure_count: usize,
    pub warning_count: usize,
}

/// The two kinds of issue a report can carry.
#[derive(Debug, Clone, Copy, PartialEq, Eq, Structural)]
pub enum IssueKind {
    Failure,
    Warning,
}

/// Run identifiers compare as strings: lexicographically by character code,
/// which is the byte order of their UTF-8 text. Identifiers are chosen so
/// that this order is chronological.
pub open spec fn id_after(a: Seq<char>, b: Seq<char>) -> bool
    decreases a.len(),
{
    if a.len() == 0 {
        false
    } else if b.len() == 0 {
        true
    } else if a[0] != b[0] {
        (a[0] as u32) > (b[0] as u32)
    } else {
        id_after(a.drop_first(), b.drop_first())
    }
}

/// No identifier sorts after itself.
pub proof fn lemma_id_after_irreflexive(a: Seq<char>)
    ensures
        !id_after(a, a),
    decreases a.len(),
{
    if a.len() > 0 {
        lemma_id_after_irreflexive(a.drop_first());
    }
}

/// Relies on the ordering of `str` (`>`), which compares the bytes of the
/// two strings lexicographically.
#[verifier::external_body]
fn run_id_after(a: &str, b: &str) -> (r: bool)
    ensures
        r == id_after(a@, b@),
{
    a > b
}

/// Whether report `r` records an issue of `kind` for `store`.
pub open spec fn reports_issue(r: RunReport, kind: IssueKind, store: Seq<char>) -> bool {
    &&& r.run_id.is_some()
    &&& r.stores.deep_view().contains(store)
    &&& match kind {
        IssueKind::Failure => r.failure_count > 0,
        IssueKind::Warning => r.warning_count > 0,
    }
}

/// `cur` advanced by a run identifier: the identifier when there was none or
/// when it sorts after the current one.
pub open spec fn advance(cur: Option<Seq<char>>, id: Seq<char>) -> Option<Seq<char>> {
    match cur {
        None => Some(id),
        Some(p) => if id_after(id, p) {
            Some(id)
        } else {
            cur
        },
    }
}

/// The greatest run identifier among the reports that record an issue of
/// `kind` for `store`, or none.
pub open spec fn latest_issue(rs: Seq<RunReport>, kind: IssueKind, store: Seq<char>) -> Option<
    Seq<char>,
>
    decreases rs.len(),
{
    if rs.len() == 0 {
        None
    } else {
        let prev = latest_issue(rs.drop_last(), kind, store);
        if reports_issue(rs.last(), kind, store) {
            advance(prev, rs.last().run_id.unwrap()@)
        } else {
            prev
        }
    }
}

/// A store's most recent failure and warning run identifiers.
#[derive(Debug, Clone)]
pub struct IssueCursor {
    pub last_failure: Option<String>,
    pub last_warning: Option<String>,
}

pub open spec fn cursor_ids(c: IssueCursor) -> SeenIds {
    (opt_view(c.last_failure), opt_view(c.last_warning))
}

/// The issue cursor of `store` over the reports `rs`.
pub open spec fn cursor_of(rs: Seq<RunReport>, store: Seq<char>) -> SeenIds {
    (latest_issue(rs, IssueKind::Failure, store), latest_issue(rs, IssueKind::Warning, store))
}

/// Whether a report lists `store` among the stores it covered.
fn covers(report: &RunReport, store: &String) -> (r: bool)
    ensures
        r == report.stores.deep_view().contains(store@),
{
    let mut i: usize = 0;
    while i < report.stores.len()
        invariant
            i <= report.stores.len(),
            forall|j: int| 0 <= j < i ==> report.stores.deep_view()[j] != store@,
        decreases report.stores.len() - i,
    {
        if report.stores[i] == *store {
            assert(report.stores.deep_view()[i as int] == store@);
            return true;
        }
        i += 1;
    }
    false
}

/// Advances an optional run identifier by `id`.
fn advance_id(cur: Option<String>, id: &String) -> (r: Option<String>)
    ensures
        opt_view(r) == advance(opt_view(cur), id@),
{
    match cur {
        None => Some(id.clone()),
        Some(p) => if run_id_after(id.as_str(), p.as_str()) {
            Some(id.clone())
        } else {
            Some(p)
        },
    }
}

/// Folds the reports into `store`'s issue cursor: for failures and for
/// warnings, the greatest run identifier of the reports that cover the store
/// and list at least one issue of that kind.
pub fn latest_issue_runs(reports: &Vec<RunReport>, store: &String) -> (r: IssueCursor)
    ensures
        cursor_ids(r) == cursor_of(reports@, store@),
{
    let mut failure: Option<String> = None;
    let mut warning: Option<String> = None;
    let mut i: usize = 0;
    while i < reports.len()
        invariant
            i <= reports.len(),
            opt_view(failure) == latest_issue(reports@.take(i as int), IssueKind::Failure, store@),
            opt_view(warning) == latest_issue(reports@.take(i as int), IssueKind::Warning, store@),
        decreases reports.len() - i,
    {
        let report = &reports[i];
        let ghost pre = reports@.take(i + 1);
        assert(pre.drop_last() =~= reports@.take(i as int));
        assert(pre.last() == *report);
        match &report.run_id {
            None => {},
            Some(id) => {
                if covers(report, store) {
                    if report.failure_count > 0 {
                        failure = advance_id(failure, id);
                    }
                    if report.warning_count > 0 {
                        warning = advance_id(warning, id);
                    }
                }
            },
        }
        i += 1;
    }
    assert(reports@.take(reports.len() as int) =~= reports@);
    IssueCursor { last_failure: failure, last_warning: warning }
}

/// Whether an issue is unread: a latest issue identifier exists and nothing
/// was seen, or it sorts strictly after the seen one.
pub open spec fn is_unread(latest: Option<Seq<char>>, seen: Option<Seq<char>>) -> bool {
    match latest {
        None => false,
        Some(l) => match seen {
            None => true,
            Some(s) => id_after(l, s),
        },
    }
}

fn unread(latest: &Option<String>, seen: &Option<String>) -> (r: bool)
    ensures
        r == is_unread(opt_view(*latest), opt_view(*seen)),
{
    match latest {
        None => false,
        Some(l) => match seen {
            None => true,
            Some(s) => run_id_after(l.as_str(), s.as_str()),
        },
    }
}

/// A store's notification badges.
#[derive(Debug, Clone)]
pub struct UnreadBadge {
    pub store_id: String,
    pub warnings_unread: bool,
    pub failures_unread: bool,
    pub last_warning_run_id: Option<String>,
    pub last_failure_run_id: Option<String>,
}

/// The badge of `store` given the reports and the seen state.
pub open spec fn badge_matches(
    b: UnreadBadge,
    rs: Seq<RunReport>,
    state: SeenState,
    store: Seq<char>,
) -> bool {
    let cur = cursor_of(rs, store);
    let seen = state.seen_of(store);
    &&& b.store_id@ == store
    &&& opt_view(b.last_failure_run_id) == cur.0
    &&& opt_view(b.last_warning_run_id) == cur.1
    &&& b.failures_unread == is_unread(cur.0, seen.0)
    &&& b.warnings_unread == is_unread(cur.1, seen.1)
}

/// The badge of one store.
pub fn store_badge(reports: &Vec<RunReport>, state: &SeenState, store: &String) -> (b: UnreadBadge)
    ensures
        badge_matches(b, reports@, *state, store@),
{
    let cursor = latest_issue_runs(reports, store);
    let seen = state.get(store);
    let failures_unread = unread(&cursor.last_failure, &seen.last_seen_failure_run_id);
    let warnings_unread = unread(&cursor.last_warning, &seen.last_seen_warning_run_id);
    UnreadBadge {
        store_id: store.clone(),
        warnings_unread,
        failures_unread,
        last_warning_run_id: cursor.last_warning,
        last_failure_run_id: cursor.last_failure,
    }
}

/// The badges of every configured store, in configuration order. The seen
/// state is only read.
pub fn get_unread_badges(stores: &Vec<StoreConfig>, reports: &Vec<RunReport>, state: &SeenState) -> (r:
    Vec<UnreadBadge>)
    ensures
        r@.len() == stores@.len(),
        forall|i: int|
            0 <= i < stores@.len() ==> badge_matches(#[trigger] r@[i], reports@, *state, stores@[i].id@),
{
    let mut badges: Vec<UnreadBadge> = Vec::new();
    let mut i: usize = 0;
    while i < stores.len()
        invariant
            i <= stores.len(),
            badges@.len() == i,
            forall|j: int|
                0 <= j < i ==> badge_matches(#[trigger] badges@[j], reports@, *state, stores@[j].id@),
        decreases stores.len() - i,
    {
        let b = store_badge(reports, state, &stores[i].id);
        badges.push(b);
        i += 1;
    }
    badges
}

/// The seen mapping `m` after acknowledging `store` over the reports `rs`.
pub open spec fn marked(m: Map<Seq<char>, SeenIds>, rs: Seq<RunReport>, store: Seq<char>) -> Map<
    Seq<char>,
    SeenIds,
> {
    m.insert(store, cursor_of(rs, store))
}

/// Acknowledges every current issue of `store_id`: its seen identifiers
/// become exactly its current issue cursor, each possibly absent; other
/// stores are untouched.
pub fn mark_store_badges_seen(state: &mut SeenState, reports: &Vec<RunReport>, store_id: String)
    ensures
        old(state).wf() ==> final(state).wf(),
        final(state).view() == marked(old(state).view(), reports@, store_id@),
{
    let cursor = latest_issue_runs(reports, &store_id);
    let seen = StoreSeenState {
        last_seen_failure_run_id: cursor.last_failure,
        last_seen_warning_run_id: cursor.last_warning,
    };
    state.set(store_id, seen);
}

/// The latest issue identifier over old reports followed by new ones is the
/// latest over the old ones, or the identifier of a new report that records
/// such an issue.
proof fn lemma_latest_issue_extended(
    old_rs: Seq<RunReport>,
    new_rs: Seq<RunReport>,
    kind: IssueKind,
    store: Seq<char>,
)
    ensures
        latest_issue(old_rs + new_rs, kind, store) == latest_issue(old_rs, kind, store) || exists|
            i: int,
        |
            0 <= i < new_rs.len() && reports_issue(#[trigger] new_rs[i], kind, store) && latest_issue(
                old_rs + new_rs,
                kind,
                store,
            ) == Some(new_rs[i].run_id.unwrap()@),
    decreases new_rs.len(),
{
    if new_rs.len() == 0 {
        assert(old_rs + new_rs =~= old_rs);
    } else {
        let init = new_rs.drop_last();
        lemma_latest_issue_extended(old_rs, init, kind, store);
        assert((old_rs + new_rs).drop_last() =~= old_rs + init);
        assert((old_rs + new_rs).last() == new_rs.last());
        if latest_issue(old_rs + init, kind, store) != latest_issue(old_rs, kind, store) {
            let i = choose|i: int|
                0 <= i < init.len() && reports_issue(#[trigger] init[i], kind, store) && latest_issue(
                    old_rs + init,
                    kind,
                    store,
                ) == Some(init[i].run_id.unwrap()@);
            assert(new_rs[i] == init[i]);
        }
        assert(new_rs[new_rs.len() - 1] == new_rs.last());
    }
}

/// Acknowledging a store twice in a row, with no new report in between,
/// leaves the same seen state as acknowledging it once, and afterwards
/// neither of the store's badges is unread.
pub proof fn lemma_mark_seen_idempotent(
    before: SeenState,
    once: SeenState,
    twice: SeenState,
    rs: Seq<RunReport>,
    store: Seq<char>,
    b: UnreadBadge,
)
    requires
        once.view() == marked(before.view(), rs, store),
        twice.view() == marked(once.view(), rs, store),
        badge_matches(b, rs, twice, store),
    ensures
        twice.view() == once.view(),
        !b.failures_unread,
        !b.warnings_unread,
{
    assert(twice.view() =~= once.view());
    let cur = cursor_of(rs, store);
    if let Some(f) = cur.0 {
        lemma_id_after_irreflexive(f);
    }
    if let Some(w) = cur.1 {
        lemma_id_after_irreflexive(w);
    }
}

/// After a store is acknowledged, an issue of either kind shows as unread
/// again only once a new report records such an issue for the store with a
/// run identifier that sorts strictly after the acknowledged one (any
/// identifier, when none was acknowledged).
pub proof fn lemma_unread_again_needs_newer_issue(
    before: SeenState,
    after: SeenState,
    old_rs: Seq<RunReport>,
    new_rs: Seq<RunReport>,
    store: Seq<char>,
    b: UnreadBadge,
)
    requires
        after.view() == marked(before.view(), old_rs, store),
        badge_matches(b, old_rs + new_rs, after, store),
    ensures
        b.failures_unread ==> exists|i: int|
            0 <= i < new_rs.len() && reports_issue(#[trigger] new_rs[i], IssueKind::Failure, store)
                && is_unread(
                Some(new_rs[i].run_id.unwrap()@),
                latest_issue(old_rs, IssueKind::Failure, store),
            ),
        b.warnings_unread ==> exists|i: int|
            0 <= i < new_rs.len() && reports_issue(#[trigger] new_rs[i], IssueKind::Warning, store)
                && is_unread(
                Some(new_rs[i].run_id.unwrap()@),
                latest_issue(old_rs, IssueKind::Warning, store),
            ),
{
    assert(after.seen_of(store) == cursor_of(old_rs, store));
    lemma_latest_issue_extended(old_rs, new_rs, IssueKind::Failure, store);
    lemma_latest_issue_extended(old_rs, new_rs, IssueKind::Warning, store);
    if let Some(f) = latest_issue(old_rs, IssueKind::Failure, store) {
        lemma_id_after_irreflexive(f);
    }
    if let Some(w) = latest_issue(old_rs, IssueKind::Warning, store) {
        lemma_id_after_irreflexive(w);
    }
}

} // verus!
