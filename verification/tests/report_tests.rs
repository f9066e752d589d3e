//! Behavior of the save/send decision logic: query planning, file names,
//! URL and size checks, and route lookup.

use tock_ui::report::{
    find_api_route, report_filename, response_size_ok, save_report_args, sent_report_msg,
    validate_api_url, MAX_RESPONSE_BYTES,
};
use tock_ui::types::ApiRoute;

fn strings(parts: &[&str]) -> Vec<String> {
    parts.iter().map(|p| p.to_string()).collect()
}

#[test]
fn save_plan_for_relative_types() {
    let today = save_report_args(&"today".to_string(), &None, &None, &None).unwrap();
    assert_eq!(today, strings(&["report", "--today"]));
    let yesterday = save_report_args(&"yesterday".to_string(), &None, &None, &None).unwrap();
    assert_eq!(yesterday, strings(&["report", "--yesterday"]));
}

#[test]
fn save_plan_for_date_type_requires_a_date() {
    let with_date = save_report_args(
        &"date".to_string(),
        &Some("2024-03-01".to_string()),
        &None,
        &None,
    )
    .unwrap();
    assert_eq!(with_date, strings(&["report", "--date", "2024-03-01"]));
    let missing = save_report_args(&"date".to_string(), &None, &None, &None).unwrap_err();
    assert!(!missing.success);
    assert_eq!(missing.error, Some("Date is required for date type report".to_string()));
}

#[test]
fn save_plan_for_range_type_requires_both_bounds() {
    let both = save_report_args(
        &"range".to_string(),
        &None,
        &Some("2024-03-01".to_string()),
        &Some("2024-03-15".to_string()),
    )
    .unwrap();
    assert_eq!(both, strings(&["report", "--date", "2024-03-01"]));
    let missing = save_report_args(
        &"range".to_string(),
        &None,
        &Some("2024-03-01".to_string()),
        &None,
    )
    .unwrap_err();
    assert_eq!(
        missing.error,
        Some("Start and end dates are required for range report".to_string())
    );
}

#[test]
fn save_plan_rejects_unknown_type() {
    let bad = save_report_args(&"weekly".to_string(), &None, &None, &None).unwrap_err();
    assert!(!bad.success);
    assert_eq!(bad.error, Some("Invalid date type".to_string()));
}

#[test]
fn filenames_follow_the_request_type() {
    let local = "2024-03-02".to_string();
    assert_eq!(
        report_filename(&"today".to_string(), &None, &None, &None, &local),
        "2024-03-02_tock.txt"
    );
    assert_eq!(
        report_filename(&"yesterday".to_string(), &None, &None, &None, &local),
        "2024-03-02_tock.txt"
    );
    assert_eq!(
        report_filename(
            &"date".to_string(),
            &Some("2024-01-15".to_string()),
            &None,
            &None,
            &local
        ),
        "2024-01-15_tock.txt"
    );
    assert_eq!(
        report_filename(&"date".to_string(), &None, &None, &None, &local),
        "report_tock.txt"
    );
    assert_eq!(
        report_filename(
            &"range".to_string(),
            &None,
            &Some("2024-01-01".to_string()),
            &Some("2024-01-31".to_string()),
            &local
        ),
        "2024-01-01_2024-01-31_tock.txt"
    );
    assert_eq!(
        report_filename(
            &"range".to_string(),
            &None,
            &Some("2024-01-01".to_string()),
            &None,
            &local
        ),
        "range_tock.txt"
    );
    assert_eq!(
        report_filename(&"weekly".to_string(), &None, &None, &None, &local),
        "report_tock.txt"
    );
}

#[test]
fn url_validation_accepts_http_and_https_only() {
    assert!(validate_api_url(&"https://example.test/projects".to_string()).is_none());
    assert!(validate_api_url(&"http://localhost:8080".to_string()).is_none());
    let rejected = validate_api_url(&"ftp://example.test".to_string()).unwrap();
    assert!(!rejected.success);
    assert_eq!(
        rejected.error,
        Some("Invalid URL: must start with http:// or https://".to_string())
    );
    assert!(validate_api_url(&"example.test".to_string()).is_some());
}

#[test]
fn response_size_limit_is_ten_megabytes() {
    assert!(response_size_ok(0));
    assert!(response_size_ok(MAX_RESPONSE_BYTES));
    assert!(!response_size_ok(MAX_RESPONSE_BYTES + 1));
}

#[test]
fn route_lookup_finds_the_first_match_by_id() {
    let routes = vec![
        ApiRoute {
            id: Some(1),
            name: "one".to_string(),
            url: "https://one.test".to_string(),
            enabled: true,
            created_at: String::new(),
        },
        ApiRoute {
            id: None,
            name: "unsaved".to_string(),
            url: "https://nowhere.test".to_string(),
            enabled: false,
            created_at: String::new(),
        },
        ApiRoute {
            id: Some(7),
            name: "seven".to_string(),
            url: "https://seven.test".to_string(),
            enabled: true,
            created_at: String::new(),
        },
    ];
    assert_eq!(find_api_route(&routes, 7), Some(2));
    assert_eq!(find_api_route(&routes, 1), Some(0));
    assert_eq!(find_api_route(&routes, 99), None);
}

#[test]
fn sent_message_names_the_route() {
    assert_eq!(
        sent_report_msg(&"monthly sink".to_string()),
        "Monthly report sent successfully to monthly sink"
    );
}
