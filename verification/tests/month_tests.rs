//! Behavior of the month aggregator: validation, day iteration across
//! leap years and the December rollover, merging, and month-level caching.

use tock_ui::cache::CommandCache;
use tock_ui::facade::Executor;
use tock_ui::month::get_activities_for_month;
use tock_ui::types::CommandResult;

/// Answers every day-report query from a fixed list of (date, output)
/// pairs; a date that is not listed gets an empty success. Dates listed
/// under `failures` answer with a failure instead.
struct DayExecutor {
    outputs: Vec<(String, String)>,
    failures: Vec<String>,
    calls: Vec<Vec<String>>,
}

impl DayExecutor {
    fn new(outputs: Vec<(String, String)>, failures: Vec<String>) -> DayExecutor {
        DayExecutor { outputs, failures, calls: Vec::new() }
    }

    fn queried_dates(&self) -> Vec<String> {
        self.calls.iter().map(|c| c[2].clone()).collect()
    }
}

impl Executor for DayExecutor {
    fn execute(&mut self, args: &Vec<String>) -> CommandResult {
        self.calls.push(args.clone());
        assert_eq!(args[0], "report");
        assert_eq!(args[1], "--date");
        let date = &args[2];
        if self.failures.iter().any(|f| f == date) {
            return CommandResult {
                success: false,
                output: String::new(),
                error: Some("tool failed".to_string()),
            };
        }
        for (d, out) in &self.outputs {
            if d == date {
                return CommandResult { success: true, output: out.clone(), error: None };
            }
        }
        CommandResult { success: true, output: String::new(), error: None }
    }
}

#[test]
fn invalid_year_fails_naming_the_year() {
    let mut executor = DayExecutor::new(Vec::new(), Vec::new());
    let mut cache = CommandCache::new(60);
    let r = get_activities_for_month(&mut executor, &mut cache, 1899, 5, 0);
    assert!(!r.success);
    assert_eq!(r.output, "");
    assert_eq!(
        r.error,
        Some("Invalid year: 1899. Year must be between 1900 and 3000.".to_string())
    );
    assert!(executor.calls.is_empty());
}

#[test]
fn invalid_month_fails_naming_the_month() {
    let mut executor = DayExecutor::new(Vec::new(), Vec::new());
    let mut cache = CommandCache::new(60);
    let r = get_activities_for_month(&mut executor, &mut cache, 2024, 13, 0);
    assert!(!r.success);
    assert_eq!(r.output, "");
    assert_eq!(r.error, Some("Invalid month: 13. Month must be between 1 and 12.".to_string()));
    assert!(executor.calls.is_empty());
}

#[test]
fn leap_year_february_iterates_29_days() {
    let mut executor = DayExecutor::new(Vec::new(), Vec::new());
    let mut cache = CommandCache::new(60);
    let r = get_activities_for_month(&mut executor, &mut cache, 2024, 2, 0);
    assert!(r.success);
    assert_eq!(executor.calls.len(), 29);
    let dates = executor.queried_dates();
    assert_eq!(dates[0], "2024-02-01");
    assert_eq!(dates[28], "2024-02-29");
}

#[test]
fn common_year_february_iterates_28_days() {
    let mut executor = DayExecutor::new(Vec::new(), Vec::new());
    let mut cache = CommandCache::new(60);
    let r = get_activities_for_month(&mut executor, &mut cache, 2023, 2, 0);
    assert!(r.success);
    assert_eq!(executor.calls.len(), 28);
    assert_eq!(executor.queried_dates()[27], "2023-02-28");
}

#[test]
fn december_runs_to_the_31st_rolling_into_the_next_year() {
    let mut executor = DayExecutor::new(Vec::new(), Vec::new());
    let mut cache = CommandCache::new(60);
    let r = get_activities_for_month(&mut executor, &mut cache, 2024, 12, 0);
    assert!(r.success);
    assert_eq!(executor.calls.len(), 31);
    let dates = executor.queried_dates();
    assert_eq!(dates[0], "2024-12-01");
    assert_eq!(dates[30], "2024-12-31");
}

#[test]
fn empty_month_is_a_success_with_empty_output() {
    let mut executor = DayExecutor::new(Vec::new(), Vec::new());
    let mut cache = CommandCache::new(60);
    let r = get_activities_for_month(&mut executor, &mut cache, 2024, 4, 0);
    assert!(r.success);
    assert_eq!(r.output, "");
    assert_eq!(r.error, None);
}

#[test]
fn contributing_days_are_merged_with_headers_and_blank_lines() {
    let mut executor = DayExecutor::new(
        vec![
            ("2024-03-05".to_string(), "five\n".to_string()),
            ("2024-03-10".to_string(), "ten\n".to_string()),
        ],
        Vec::new(),
    );
    let mut cache = CommandCache::new(60);
    let r = get_activities_for_month(&mut executor, &mut cache, 2024, 3, 0);
    assert!(r.success);
    assert_eq!(
        r.output,
        "=== 2024-03-05 ===\nfive\n\n\n=== 2024-03-10 ===\nten\n"
    );
}

#[test]
fn whitespace_only_output_contributes_nothing() {
    let mut executor = DayExecutor::new(
        vec![
            ("2024-03-05".to_string(), " \t\n  ".to_string()),
            ("2024-03-10".to_string(), "real work".to_string()),
        ],
        Vec::new(),
    );
    let mut cache = CommandCache::new(60);
    let r = get_activities_for_month(&mut executor, &mut cache, 2024, 3, 0);
    assert!(r.success);
    assert_eq!(r.output, "=== 2024-03-10 ===\nreal work");
}

#[test]
fn failed_day_does_not_abort_later_days_still_contribute() {
    let mut executor = DayExecutor::new(
        vec![
            ("2023-02-03".to_string(), "early".to_string()),
            ("2023-02-20".to_string(), "late".to_string()),
        ],
        vec!["2023-02-10".to_string()],
    );
    let mut cache = CommandCache::new(60);
    let r = get_activities_for_month(&mut executor, &mut cache, 2023, 2, 0);
    assert!(r.success);
    assert_eq!(executor.calls.len(), 28);
    assert_eq!(r.output, "=== 2023-02-03 ===\nearly\n\n=== 2023-02-20 ===\nlate");
}

#[test]
fn month_result_is_cached_under_its_own_key() {
    let mut executor = DayExecutor::new(
        vec![("2024-03-05".to_string(), "work".to_string())],
        Vec::new(),
    );
    let mut cache = CommandCache::new(60);
    let first = get_activities_for_month(&mut executor, &mut cache, 2024, 3, 0);
    let calls_after_first = executor.calls.len();
    let second = get_activities_for_month(&mut executor, &mut cache, 2024, 3, 30_000);
    assert_eq!(executor.calls.len(), calls_after_first);
    assert_eq!(first.output, second.output);
}

#[test]
fn month_cache_expires_like_any_entry() {
    let mut executor = DayExecutor::new(Vec::new(), Vec::new());
    let mut cache = CommandCache::new(60);
    get_activities_for_month(&mut executor, &mut cache, 2024, 4, 0);
    let calls_after_first = executor.calls.len();
    get_activities_for_month(&mut executor, &mut cache, 2024, 4, 60_000);
    assert_eq!(executor.calls.len(), 2 * calls_after_first);
}

#[test]
fn aggregation_leaves_unrelated_cache_entries_alone() {
    let mut executor = DayExecutor::new(Vec::new(), Vec::new());
    let mut cache = CommandCache::new(60);
    cache.set(
        "current".to_string(),
        CommandResult { success: true, output: "tracking".to_string(), error: None },
        0,
    );
    get_activities_for_month(&mut executor, &mut cache, 2024, 4, 1);
    let kept = cache.get("current", 2).expect("unrelated entry must survive");
    assert_eq!(kept.output, "tracking");
}

#[test]
fn day_queries_inside_a_month_share_the_day_cache() {
    let mut executor = DayExecutor::new(
        vec![("2024-03-05".to_string(), "work".to_string())],
        Vec::new(),
    );
    let mut cache = CommandCache::new(60);
    get_activities_for_month(&mut executor, &mut cache, 2024, 3, 0);
    assert_eq!(executor.calls.len(), 31);
    let day = tock_ui::facade::get_activities_for_date(
        &mut executor,
        &mut cache,
        &"2024-03-05".to_string(),
        1,
    );
    assert_eq!(day.output, "work");
    assert_eq!(executor.calls.len(), 31);
}
