use prest_host::admin::{
    cleanup_count, cleanup_old_stats_sql, cleanup_sql, column_input_type, edit_cell, edit_url, next_info_offset, page_params,
    period_minutes, remote_label, requested_period, row_key_value, row_selector, ColumnSchema,
    DeploymentState, JobOutcome, RemoteState, ScheduledJobRecord,
};
use prest_host::analytics::{
    analytics_summary, internal_request, is_asset_path, is_boring_status, record_response,
    span_uri, AnalyticsLayer, RouteStats,
};
use std::collections::HashMap;

fn col(glue: &str, key: bool) -> ColumnSchema {
    ColumnSchema { name: "c".into(), rust_type: "T".into(), glue_type: glue.into(), key }
}

#[test]
fn input_types() {
    assert_eq!(column_input_type(&col("BOOLEAN", false)), "checkbox");
    assert_eq!(column_input_type(&col("INT64", false)), "number");
    assert_eq!(column_input_type(&col("UINT8", false)), "number");
    assert_eq!(column_input_type(&col("FLOAT", false)), "number");
    assert_eq!(column_input_type(&col("U64", false)), "number");
    assert_eq!(column_input_type(&col("TEXT", false)), "text");
    assert_eq!(column_input_type(&col("UUID", false)), "text");
}

#[test]
fn edit_cells() {
    let c = edit_cell(&col("BOOLEAN", true), &"true".to_string());
    assert_eq!(c.input_type, "checkbox");
    assert!(c.checked && c.readonly);
    assert_eq!(c.onchange, Some("this.value = this.checked ? 'true' : 'false'"));
    let t = edit_cell(&col("TEXT", false), &"true ".to_string());
    assert!(!t.checked && !t.readonly && t.onchange.is_none());
    assert_eq!(t.value, "true ");
}

#[test]
fn explorer_helpers() {
    assert_eq!(page_params(None, None), (0, 20));
    assert_eq!(page_params(Some(40), Some(5)), (40, 5));
    let cols = vec![col("TEXT", false), col("UUID", true)];
    let vals = vec!["x".to_string(), "id7".to_string()];
    assert_eq!(row_key_value(&cols, &vals).as_deref(), Some("id7"));
    assert_eq!(row_key_value(&vec![col("TEXT", false)], &vals), None);
    assert_eq!(row_selector("a", &vals), "ax");
    assert_eq!(row_selector("key", &vals), "keyx");
    assert_eq!(edit_url("/admin/db/todo", "id7"), "/admin/db/todo/id7");
}

#[test]
fn deployment_state_machine() {
    assert_eq!(DeploymentState::initial(true), DeploymentState::Already);
    assert_eq!(DeploymentState::initial(false), DeploymentState::Idle);
    assert!(DeploymentState::Already.button().is_none());
    let b = DeploymentState::Building.button().unwrap();
    assert_eq!((b.label, b.running, b.trigger), ("Building", true, "load delay:1s"));
    let b = DeploymentState::Failure.button().unwrap();
    assert_eq!((b.label, b.running, b.trigger), ("Failed. Retry?", false, "click"));
    assert_eq!(DeploymentState::Idle.on_deploy_request(), (DeploymentState::Building, true));
    assert_eq!(DeploymentState::Uploading.on_deploy_request(), (DeploymentState::Uploading, false));
    assert_eq!(DeploymentState::Already.on_deploy_request(), (DeploymentState::Already, false));
    assert!(DeploymentState::Success.ready() && !DeploymentState::Already.ready());
    assert!(!DeploymentState::Connecting.ready());
    assert_eq!(DeploymentState::Building.on_build_finished(false), DeploymentState::Failure);
    assert_eq!(DeploymentState::Building.on_build_finished(true), DeploymentState::Connecting);
    assert_eq!(DeploymentState::Uploading.on_upload_finished(true), DeploymentState::Success);
    assert!(DeploymentState::Already.already());
}

#[test]
fn remote_labels() {
    assert_eq!(remote_label(RemoteState::Idle, true), ("Update", false));
    assert_eq!(remote_label(RemoteState::Idle, false), ("Deploy", false));
    assert_eq!(remote_label(RemoteState::Uploading, false), ("Uploading...", true));
    assert_eq!(remote_label(RemoteState::Failure, false), ("Failed. Retry?", false));
}

#[test]
fn monitoring_periods() {
    assert_eq!(period_minutes("5m"), 5);
    assert_eq!(period_minutes("24h"), 1440);
    assert_eq!(period_minutes("1y"), 15);
    assert_eq!(requested_period("period=6h"), "6h");
    assert_eq!(requested_period("x=1"), "15m");
    assert_eq!(cleanup_sql("2024-01-01 00:00:00"), "DELETE FROM SystemStat WHERE timestamp < '2024-01-01 00:00:00'");
    assert_eq!(next_info_offset(40, 3), Some(60));
    assert_eq!(next_info_offset(40, 0), None);
}

#[test]
fn job_outcomes() {
    let mut r = ScheduledJobRecord { id: 1, name: "j".into(), start: 1000, end: None, error: None };
    assert_eq!(r.outcome(), JobOutcome::InProgress);
    r.end = Some(1500);
    assert_eq!(r.outcome(), JobOutcome::Succeeded { duration_ms: 500 });
    r.end = Some(400);
    assert_eq!(r.outcome(), JobOutcome::Succeeded { duration_ms: 600 });
    r.error = Some("e".into());
    assert_eq!(r.outcome(), JobOutcome::Failed);
}

#[test]
fn record_response_counts() {
    let s = record_response(None, "/a".into(), 200, false).unwrap();
    assert_eq!((s.path.as_str(), s.hits, s.statuses.get(&200)), ("/a", 1, Some(&1)));
    assert!(record_response(None, "/a".into(), 200, true).is_none());
    let s = record_response(Some(s), "/ignored".into(), 404, true).unwrap();
    let s = record_response(Some(s), "/ignored".into(), 200, false).unwrap();
    assert_eq!(s.path, "/a");
    assert_eq!(s.hits, 3);
    assert_eq!(s.statuses.get(&200), Some(&2));
    assert_eq!(s.statuses.get(&404), Some(&1));
    // hits always equal the sum of the status counts
    assert_eq!(s.hits as u64, s.statuses.values().sum::<u64>());
}

#[test]
fn assets_and_summary() {
    assert!(is_asset_path("/style.css"));
    assert!(is_asset_path("/site.webmanifest"));
    assert!(!is_asset_path("/admin"));
    let mk = |p: &str, hits: i64, st: &[(u16, u64)]| RouteStats {
        path: p.into(),
        hits,
        statuses: st.iter().copied().collect::<HashMap<_, _>>(),
    };
    let sum = analytics_summary(vec![
        mk("/", 3, &[(200, 2), (404, 1)]),
        mk("/app.js", 5, &[(200, 4), (304, 1)]),
        mk("/about", 2, &[(500, 2)]),
    ]);
    assert_eq!(sum.total_path_hits, 5);
    assert_eq!(sum.paths.len(), 2);
    assert_eq!(sum.paths[0].path, "/");
    assert_eq!(sum.paths[0].statuses.get(&200), None);
    assert_eq!(sum.paths[0].statuses.get(&404), Some(&1));
    assert_eq!(sum.paths[1].path, "/about");
    assert_eq!(sum.assets.len(), 1);
    assert!(sum.assets[0].statuses.is_empty());
}

#[test]
fn request_filters() {
    assert!(internal_request("/tower-livereload/x"));
    assert!(internal_request("/sw/health"));
    assert!(!internal_request("/"));
    assert!(is_boring_status(404) && is_boring_status(304) && is_boring_status(405));
    assert!(!is_boring_status(200));
    assert_eq!(span_uri("/auth/login", true, "/auth/login?pw=1"), "/auth/login?[redacted]");
    assert_eq!(span_uri("/auth/login", false, "/auth/login"), "/auth/login");
    assert_eq!(span_uri("/x", true, "/x?y=1"), "/x?y=1");
    let layer = AnalyticsLayer::init();
    assert_eq!(layer.layer(5u8).inner, 5);
}

#[test]
fn cleanup_statement_cuts_off_a_day_before_now_to_the_second() {
    let now = 86_400_000 + 1_500;
    assert_eq!(
        cleanup_old_stats_sql(now).as_deref(),
        Some("DELETE FROM SystemStat WHERE timestamp < '1970-01-01 00:00:01'")
    );
    let later = 1_700_000_000_000 + 86_400_000;
    assert_eq!(
        cleanup_old_stats_sql(later).as_deref(),
        Some("DELETE FROM SystemStat WHERE timestamp < '2023-11-14 22:13:20'")
    );
    assert_eq!(cleanup_old_stats_sql(i64::MIN), None);
}

#[test]
fn cleanup_count_reads_the_affected_rows() {
    assert_eq!(cleanup_count(Some(7)), 7);
    assert_eq!(cleanup_count(None), 0);
}
