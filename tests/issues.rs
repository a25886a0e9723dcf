use receipts_desktop::config::{default_stores, StoreConfig};
use receipts_desktop::issues::{
    get_unread_badges, latest_issue_runs, mark_store_badges_seen, store_badge, RunReport, UnreadBadge,
};
use receipts_desktop::seen::SeenState;

fn report(id: Option<&str>, stores: &[&str], failures: usize, warnings: usize) -> RunReport {
    RunReport {
        run_id: id.map(|s| s.to_string()),
        stores: stores.iter().map(|s| s.to_string()).collect(),
        failure_count: failures,
        warning_count: warnings,
    }
}

fn flags(b: &UnreadBadge) -> (bool, bool, Option<String>, Option<String>) {
    (
        b.failures_unread,
        b.warnings_unread,
        b.last_failure_run_id.clone(),
        b.last_warning_run_id.clone(),
    )
}

fn some(s: &str) -> Option<String> {
    Some(s.to_string())
}

#[test]
fn warning_then_failure_scenario() {
    let reports = vec![
        report(Some("20240101T0000Z"), &["lidl"], 0, 1),
        report(Some("20240102T0000Z"), &["lidl"], 1, 0),
    ];
    let mut state = SeenState::new();
    let stores = default_stores();
    let badges = get_unread_badges(&stores, &reports, &state);
    assert_eq!(badges.len(), 3);
    assert_eq!(badges[0].store_id, "lidl");
    assert_eq!(
        flags(&badges[0]),
        (true, true, some("20240102T0000Z"), some("20240101T0000Z"))
    );
    assert_eq!(flags(&badges[1]), (false, false, None, None));
    mark_store_badges_seen(&mut state, &reports, "lidl".to_string());
    let badges = get_unread_badges(&stores, &reports, &state);
    assert_eq!(
        flags(&badges[0]),
        (false, false, some("20240102T0000Z"), some("20240101T0000Z"))
    );
}

#[test]
fn no_reports_means_no_badges() {
    let badges = get_unread_badges(&default_stores(), &vec![], &SeenState::new());
    assert_eq!(badges.len(), 3);
    for b in &badges {
        assert_eq!(flags(b), (false, false, None, None));
    }
}

#[test]
fn marking_twice_changes_nothing() {
    let reports = vec![report(Some("20240301T0000Z"), &["kaufland"], 2, 3)];
    let mut state = SeenState::new();
    let key = "kaufland".to_string();
    mark_store_badges_seen(&mut state, &reports, key.clone());
    let once = state.get(&key);
    mark_store_badges_seen(&mut state, &reports, key.clone());
    let twice = state.get(&key);
    assert_eq!(once.last_seen_failure_run_id, twice.last_seen_failure_run_id);
    assert_eq!(once.last_seen_warning_run_id, twice.last_seen_warning_run_id);
    assert_eq!(twice.last_seen_failure_run_id, some("20240301T0000Z"));
    assert_eq!(state.to_entries().len(), 1);
    let b = store_badge(&reports, &state, &key);
    assert!(!b.failures_unread && !b.warnings_unread);
}

#[test]
fn only_a_newer_failure_makes_failures_unread_again() {
    let key = "lidl".to_string();
    let mut reports = vec![report(Some("20240105T0000Z"), &["lidl"], 1, 0)];
    let mut state = SeenState::new();
    mark_store_badges_seen(&mut state, &reports, key.clone());
    reports.push(report(Some("20240104T0000Z"), &["lidl"], 1, 0));
    reports.push(report(Some("20240106T0000Z"), &["lidl"], 0, 0));
    reports.push(report(Some("20240107T0000Z"), &["kaufland"], 1, 0));
    assert!(!store_badge(&reports, &state, &key).failures_unread);
    reports.push(report(Some("20240108T0000Z"), &["lidl", "kaufland"], 1, 0));
    let b = store_badge(&reports, &state, &key);
    assert!(b.failures_unread);
    assert_eq!(b.last_failure_run_id, some("20240108T0000Z"));
}

#[test]
fn marking_without_issues_clears_seen_ids() {
    let key = "lidl".to_string();
    let mut state = SeenState::new();
    mark_store_badges_seen(&mut state, &vec![report(Some("2"), &["lidl"], 1, 1)], key.clone());
    mark_store_badges_seen(&mut state, &vec![], key.clone());
    let seen = state.get(&key);
    assert_eq!(seen.last_seen_failure_run_id, None);
    assert_eq!(seen.last_seen_warning_run_id, None);
    assert_eq!(state.to_entries().len(), 1);
}

#[test]
fn cursor_keeps_greatest_identifier_in_any_order() {
    let reports = vec![
        report(Some("20240103"), &["lidl"], 1, 0),
        report(Some("20240109"), &["lidl"], 1, 1),
        report(Some("20240102"), &["lidl"], 1, 1),
        report(None, &["lidl"], 1, 1),
        report(Some("20240120"), &["carrefour"], 1, 1),
    ];
    let c = latest_issue_runs(&reports, &"lidl".to_string());
    assert_eq!(c.last_failure, some("20240109"));
    assert_eq!(c.last_warning, some("20240109"));
    let c = latest_issue_runs(&reports, &"kaufland".to_string());
    assert_eq!(c.last_failure, None);
    assert_eq!(c.last_warning, None);
}

#[test]
fn seen_identifier_compares_as_string() {
    let key = "x".to_string();
    let mut state = SeenState::new();
    mark_store_badges_seen(&mut state, &vec![report(Some("b"), &["x"], 1, 0)], key.clone());
    let reports = vec![report(Some("ab"), &["x"], 1, 0), report(Some("b"), &["x"], 1, 0)];
    assert!(!store_badge(&reports, &state, &key).failures_unread);
    let reports = vec![report(Some("ba"), &["x"], 1, 0)];
    assert!(store_badge(&reports, &state, &key).failures_unread);
}

#[test]
fn badges_follow_configured_stores() {
    let stores = vec![StoreConfig { id: "carrefour".to_string(), name: "C".to_string(), enabled: true }];
    let reports = vec![report(Some("1"), &["carrefour"], 0, 4)];
    let badges = get_unread_badges(&stores, &reports, &SeenState::new());
    assert_eq!(badges.len(), 1);
    assert_eq!(flags(&badges[0]), (false, true, None, some("1")));
}
