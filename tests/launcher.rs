use receipts_desktop::config::{default_stores, resolve_source_dir, AppConfig};
use receipts_desktop::launcher::{build_invocation, join_store_ids, store_selection_args};

fn ids(v: &[&str]) -> Vec<String> {
    v.iter().map(|s| s.to_string()).collect()
}

fn config(dir: Option<&str>, cmd: Option<&str>) -> AppConfig {
    AppConfig {
        receipts_root: "/tmp/receipts".to_string(),
        worker_dir: dir.map(|d| d.to_string()),
        worker_run_cmd: cmd.map(|c| c.to_string()),
        stores: default_stores(),
    }
}

#[test]
fn empty_selection_passes_all_flag() {
    assert_eq!(store_selection_args(&ids(&[])), ids(&["--all"]));
}

#[test]
fn single_store_passes_store_flag() {
    assert_eq!(store_selection_args(&ids(&["lidl"])), ids(&["--store", "lidl"]));
}

#[test]
fn several_stores_are_comma_joined_in_order() {
    assert_eq!(
        store_selection_args(&ids(&["lidl", "carrefour", "kaufland"])),
        ids(&["--stores", "lidl,carrefour,kaufland"])
    );
    assert_eq!(join_store_ids(&ids(&["b", "a"])), "b,a");
    assert_eq!(join_store_ids(&ids(&[])), "");
}

#[test]
fn run_command_is_used_as_is() {
    let inv = build_invocation(&config(Some("/w"), Some("/bin/worker")), &ids(&["lidl"]), None).unwrap();
    assert_eq!(inv.program, "/bin/worker");
    assert_eq!(inv.args, ids(&["--store", "lidl"]));
    assert_eq!(inv.working_dir, Some("/w".to_string()));
    let inv = build_invocation(&config(None, Some("run")), &ids(&[]), None).unwrap();
    assert_eq!(inv.args, ids(&["--all"]));
    assert_eq!(inv.working_dir, None);
}

#[test]
fn python_worker_runs_as_module() {
    let inv = build_invocation(
        &config(Some("/w"), None),
        &ids(&["lidl", "kaufland"]),
        Some("/w/.venv/bin/python".to_string()),
    )
    .unwrap();
    assert_eq!(inv.program, "/w/.venv/bin/python");
    assert_eq!(inv.args, ids(&["-m", "src.runner", "--stores", "lidl,kaufland"]));
    assert_eq!(inv.working_dir, Some("/w".to_string()));
    let inv = build_invocation(&config(Some("/w"), None), &ids(&[]), None).unwrap();
    assert_eq!(inv.program, "python3");
    assert_eq!(inv.args, ids(&["-m", "src.runner", "--all"]));
}

#[test]
fn missing_worker_dir_is_a_configuration_error() {
    let r = build_invocation(&config(None, None), &ids(&["lidl"]), None);
    assert_eq!(r.unwrap_err(), "WORKER_DIR is not set");
}

#[test]
fn default_store_list() {
    let stores = default_stores();
    let got: Vec<(String, String, bool)> =
        stores.into_iter().map(|s| (s.id, s.name, s.enabled)).collect();
    assert_eq!(
        got,
        vec![
            ("lidl".to_string(), "Lidl".to_string(), true),
            ("kaufland".to_string(), "Kaufland".to_string(), false),
            ("carrefour".to_string(), "Carrefour".to_string(), false),
        ]
    );
}

#[test]
fn source_dir_prefers_existing_custom_path() {
    let c = Some("/custom".to_string());
    let f = Some("/fallback".to_string());
    assert_eq!(resolve_source_dir(c.clone(), true, f.clone(), true), c);
    assert_eq!(resolve_source_dir(c.clone(), false, f.clone(), true), f);
    assert_eq!(resolve_source_dir(c.clone(), false, f.clone(), false), None);
    assert_eq!(resolve_source_dir(None, false, None, false), None);
}
