use receipts_desktop::config::update_state;
use receipts_desktop::inbox::{is_lowercase_receipt_extension, is_receipt_file_extension};
use receipts_desktop::reports::{is_run_report_name, most_recent_runs};

#[test]
fn report_file_names() {
    assert!(is_run_report_name("20240101T0000Z.summary.json"));
    assert!(is_run_report_name(".summary.json"));
    assert!(!is_run_report_name("20240101T0000Z.json"));
    assert!(!is_run_report_name("summary.json"));
    assert!(!is_run_report_name("x.summary.json.bak"));
}

#[test]
fn recent_runs_newest_first_with_default_limit() {
    let m = vec![Some(10), Some(30), None, Some(20), Some(50), Some(40), Some(5)];
    assert_eq!(most_recent_runs(&m, None), vec![4, 5, 1, 3, 0]);
    assert_eq!(most_recent_runs(&m, Some(2)), vec![4, 5]);
    assert_eq!(most_recent_runs(&m, Some(0)), Vec::<usize>::new());
}

#[test]
fn recent_runs_missing_times_last_ties_in_listing_order() {
    let m = vec![None, Some(7), Some(7), None, Some(9)];
    assert_eq!(most_recent_runs(&m, Some(10)), vec![4, 1, 2, 0, 3]);
    assert_eq!(most_recent_runs(&vec![], Some(3)), Vec::<usize>::new());
}

#[test]
fn receipt_extensions_in_any_case() {
    assert!(is_receipt_file_extension("PNG"));
    assert!(is_receipt_file_extension("Jpeg"));
    assert!(is_receipt_file_extension("pdf"));
    assert!(!is_receipt_file_extension("txt"));
    assert!(!is_receipt_file_extension(""));
    assert!(!is_lowercase_receipt_extension(&"PNG".to_string()));
    assert!(is_lowercase_receipt_extension(&"jpg".to_string()));
}

#[test]
fn update_state_compares_versions() {
    assert_eq!(update_state(&"1.2.0".to_string(), &"1.2.0".to_string()), "up_to_date");
    assert_eq!(update_state(&"1.2.0".to_string(), &"1.3.0".to_string()), "update_available");
}
