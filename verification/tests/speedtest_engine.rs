use acemcp_core::speedtest::PingSummary;
use acemcp_core::speedtest::SpeedTestMetric;
use acemcp_core::speedtest::append_error;
use acemcp_core::speedtest::apply_ping_summary;
use acemcp_core::speedtest::apply_timed_outcome;
use acemcp_core::speedtest::build_speed_test_result;
use acemcp_core::speedtest::generate_recommendation;
use acemcp_core::speedtest::is_success_status;
use acemcp_core::speedtest::mark_failed;
use acemcp_core::speedtest::mode_flags;
use acemcp_core::speedtest::parse_queries;
use acemcp_core::speedtest::pick_random_file_index;
use acemcp_core::speedtest::summarize_rounds;

fn metric(name: &str, kind: &str) -> SpeedTestMetric {
    SpeedTestMetric::new(name.to_string(), kind.to_string())
}

#[test]
fn faster_proxy_is_recommended_with_its_percentage() {
    let mut m = metric("network latency", "ping");
    m.proxy_time_ms = Some(50);
    m.direct_time_ms = Some(200);
    let rec = generate_recommendation(&vec![m], "compare");
    assert_eq!(rec, "proxy recommended: about 75% faster");
}

#[test]
fn slower_proxy_recommends_direct() {
    let mut m = metric("network latency", "ping");
    m.proxy_time_ms = Some(200);
    m.direct_time_ms = Some(100);
    let rec = generate_recommendation(&vec![m], "compare");
    assert_eq!(rec, "direct recommended: proxy is about 50% slower");
}

#[test]
fn equal_times_report_no_difference() {
    let mut m = metric("network latency", "ping");
    m.proxy_time_ms = Some(80);
    m.direct_time_ms = Some(80);
    let rec = generate_recommendation(&vec![m], "compare");
    assert_eq!(rec, "proxy and direct perform the same");
}

#[test]
fn a_side_without_measurements_cannot_be_compared() {
    let mut m = metric("network latency", "ping");
    m.direct_time_ms = Some(80);
    let rec = generate_recommendation(&vec![m], "compare");
    assert_eq!(rec, "cannot compare: a side produced no measurements");
}

#[test]
fn single_mode_runs_are_not_compared() {
    let rec = generate_recommendation(&Vec::new(), "direct");
    assert_eq!(rec, "single-mode test completed");
}

#[test]
fn averages_span_all_metrics() {
    let mut a = metric("ping", "ping");
    a.proxy_time_ms = Some(100);
    a.direct_time_ms = Some(100);
    let mut b = metric("search", "search");
    b.proxy_time_ms = Some(100);
    b.direct_time_ms = Some(300);
    // proxy average 100, direct average 200: fifty percent faster
    let rec = generate_recommendation(&vec![a, b], "compare");
    assert_eq!(rec, "proxy recommended: about 50% faster");
}

#[test]
fn ping_rounds_average_over_successes_only() {
    let outcomes: Vec<Result<u64, String>> =
        vec![Ok(10), Err("timeout".to_string()), Ok(20)];
    let s = summarize_rounds(&outcomes);
    assert_eq!(s.ok_rounds, 2);
    assert_eq!(s.average_ms, Some(15));
    assert_eq!(s.last_error.as_deref(), Some("timeout"));
}

#[test]
fn all_failed_rounds_leave_no_average() {
    let outcomes: Vec<Result<u64, String>> = vec![Err("a".to_string()), Err("b".to_string())];
    let s = summarize_rounds(&outcomes);
    assert_eq!(s.ok_rounds, 0);
    assert_eq!(s.average_ms, None);
    assert_eq!(s.last_error.as_deref(), Some("b"));
}

#[test]
fn a_partly_failed_ping_keeps_its_average_but_fails_the_metric() {
    let mut m = metric("network latency", "ping");
    let s = PingSummary {
        average_ms: Some(42),
        ok_rounds: 2,
        last_error: Some("socket closed".to_string()),
    };
    apply_ping_summary(&mut m, true, 3, &s);
    assert_eq!(m.proxy_time_ms, Some(42));
    assert!(!m.success);
    assert_eq!(
        m.error.as_deref(),
        Some("proxy ping partly failed: 2/3 rounds; last error: socket closed")
    );
}

#[test]
fn a_fully_failed_ping_reports_the_last_error() {
    let mut m = metric("network latency", "ping");
    let s = PingSummary { average_ms: None, ok_rounds: 0, last_error: None };
    apply_ping_summary(&mut m, false, 3, &s);
    assert_eq!(m.direct_time_ms, None);
    assert!(!m.success);
    assert_eq!(m.error.as_deref(), Some("direct ping failed: unknown error"));
}

#[test]
fn timed_outcomes_land_on_their_side() {
    let mut m = metric("semantic search q", "search");
    apply_timed_outcome(&mut m, true, Ok(120), "proxy search");
    apply_timed_outcome(&mut m, false, Err("HTTP 500".to_string()), "direct search");
    assert_eq!(m.proxy_time_ms, Some(120));
    assert_eq!(m.direct_time_ms, None);
    assert!(!m.success);
    assert_eq!(m.error.as_deref(), Some("direct search: HTTP 500"));
}

#[test]
fn errors_accumulate_line_by_line() {
    let mut slot: Option<String> = None;
    append_error(&mut slot, "first".to_string());
    append_error(&mut slot, "second".to_string());
    assert_eq!(slot.as_deref(), Some("first\nsecond"));
}

#[test]
fn queries_split_on_newlines_and_semicolons() {
    let qs = parse_queries("alpha;beta\n  gamma  \n;\n");
    assert_eq!(qs, vec!["alpha", "beta", "gamma"]);
}

#[test]
fn queries_are_capped_at_five() {
    let qs = parse_queries("a;b;c;d;e;f;g");
    assert_eq!(qs, vec!["a", "b", "c", "d", "e"]);
}

#[test]
fn blank_input_gets_the_stock_query() {
    let qs = parse_queries("  \n ; ");
    assert_eq!(qs, vec!["code search probe"]);
}

#[test]
fn mode_flags_cover_both_paths_in_compare() {
    assert_eq!(mode_flags("proxy"), (true, false));
    assert_eq!(mode_flags("direct"), (false, true));
    assert_eq!(mode_flags("compare"), (true, true));
    assert_eq!(mode_flags("other"), (false, false));
}

#[test]
fn the_result_carries_ratios_and_a_failure_sample() {
    let mut ok_metric = metric("network latency", "ping");
    ok_metric.proxy_time_ms = Some(50);
    ok_metric.direct_time_ms = Some(200);
    let mut bad = metric("project upload", "upload_project");
    mark_failed(&mut bad, "line one\nline two".to_string());
    let r = build_speed_test_result("compare", None, vec![ok_metric, bad]);
    assert_eq!(r.mode, "compare");
    assert!(!r.success);
    assert_eq!(r.metrics.len(), 2);
    assert_eq!(
        r.recommendation,
        "proxy recommended: about 75% faster | overall success: 1/2 | proxy ok: 1/2 \
         | direct ok: 1/2 | first failure: project upload - line one/line two"
    );
    assert!(r.timestamp.len() >= 19);
}

#[test]
fn long_failure_samples_are_cut_with_an_ellipsis() {
    let mut bad = metric("project upload", "upload_project");
    mark_failed(&mut bad, "x".repeat(200));
    let r = build_speed_test_result("direct", None, vec![bad]);
    let expected_tail = format!(
        " | first failure: project upload - {}...",
        "x".repeat(120)
    );
    assert!(r.recommendation.ends_with(&expected_tail));
}

#[test]
fn successful_runs_have_no_failure_sample() {
    let mut m = metric("network latency", "ping");
    m.direct_time_ms = Some(10);
    let r = build_speed_test_result("direct", None, vec![m]);
    assert!(r.success);
    assert_eq!(
        r.recommendation,
        "single-mode test completed | overall success: 1/1 | direct ok: 1/1"
    );
}

#[test]
fn reachability_classification() {
    assert!(is_success_status(200));
    assert!(is_success_status(299));
    assert!(!is_success_status(300));
    assert!(!is_success_status(404));
    assert!(!is_success_status(500));
}

#[test]
fn random_file_choice_respects_the_snapshot_size() {
    assert_eq!(pick_random_file_index(0), None);
    for _ in 0..50 {
        let i = pick_random_file_index(7).unwrap();
        assert!(i < 7);
    }
}
