use receipts_desktop::seen::{SeenEntry, SeenState, StoreSeenState};
use serde_json::Value;

fn seen(f: Option<&str>, w: Option<&str>) -> StoreSeenState {
    StoreSeenState {
        last_seen_failure_run_id: f.map(|s| s.to_string()),
        last_seen_warning_run_id: w.map(|s| s.to_string()),
    }
}

fn ids(s: &StoreSeenState) -> (Option<String>, Option<String>) {
    (s.last_seen_failure_run_id.clone(), s.last_seen_warning_run_id.clone())
}

fn opt_json(o: &Option<String>) -> Value {
    match o {
        Some(s) => Value::String(s.clone()),
        None => Value::Null,
    }
}

#[test]
fn absent_store_has_seen_nothing() {
    let state = SeenState::new();
    assert_eq!(ids(&state.get(&"lidl".to_string())), (None, None));
}

#[test]
fn set_replaces_earlier_entry() {
    let mut state = SeenState::new();
    state.set("lidl".to_string(), seen(Some("1"), None));
    state.set("kaufland".to_string(), seen(None, Some("2")));
    state.set("lidl".to_string(), seen(Some("3"), Some("4")));
    assert_eq!(ids(&state.get(&"lidl".to_string())), (Some("3".to_string()), Some("4".to_string())));
    assert_eq!(ids(&state.get(&"kaufland".to_string())), (None, Some("2".to_string())));
    assert_eq!(state.to_entries().len(), 2);
}

#[test]
fn later_entry_wins_when_loading() {
    let entries = vec![
        SeenEntry { store_id: "a".to_string(), seen: seen(Some("1"), None) },
        SeenEntry { store_id: "a".to_string(), seen: seen(Some("2"), None) },
    ];
    let state = SeenState::from_entries(entries);
    assert_eq!(ids(&state.get(&"a".to_string())), (Some("2".to_string()), None));
    assert_eq!(state.to_entries().len(), 1);
}

#[test]
fn seen_state_survives_json_round_trip() {
    let mut state = SeenState::new();
    state.set("lidl".to_string(), seen(Some("20240102T0000Z"), None));
    state.set("kaufland".to_string(), seen(None, None));
    state.set("carrefour".to_string(), seen(Some("x"), Some("y")));

    let mut stores = serde_json::Map::new();
    for e in state.to_entries() {
        let mut obj = serde_json::Map::new();
        obj.insert("last_seen_failure_run_id".to_string(), opt_json(&e.seen.last_seen_failure_run_id));
        obj.insert("last_seen_warning_run_id".to_string(), opt_json(&e.seen.last_seen_warning_run_id));
        stores.insert(e.store_id.clone(), Value::Object(obj));
    }
    let mut doc = serde_json::Map::new();
    doc.insert("stores".to_string(), Value::Object(stores));
    let text = serde_json::to_string_pretty(&Value::Object(doc)).unwrap();

    let parsed: Value = serde_json::from_str(&text).unwrap();
    let mut entries = Vec::new();
    for (k, v) in parsed["stores"].as_object().unwrap() {
        let field = |name: &str| v[name].as_str().map(|s| s.to_string());
        entries.push(SeenEntry {
            store_id: k.clone(),
            seen: StoreSeenState {
                last_seen_failure_run_id: field("last_seen_failure_run_id"),
                last_seen_warning_run_id: field("last_seen_warning_run_id"),
            },
        });
    }
    let reloaded = SeenState::from_entries(entries);
    for key in ["lidl", "kaufland", "carrefour", "absent"] {
        let k = key.to_string();
        assert_eq!(ids(&reloaded.get(&k)), ids(&state.get(&k)));
    }
    assert_eq!(reloaded.to_entries().len(), 3);
}
