use prest_host::admin::{JobCounts, ScheduledJobRecord};
use prest_host::assets::{asset_path, asset_response, bytes_eq, AssetResponse};
use prest_host::config::{crate_name, crate_version, persistent_setting};
use prest_host::deploy::{release_binary_path, target_path, workspace_path, Ancestor};
use prest_host::logs::{latest_entries, log_writer_entry, Log, LogWriteError, Logs};
use prest_host::runtime::{ProceedStep, RuntimeFlags, ScheduledJobFuture, Shutdown};
use prest_host::system::{disk_usage, div_ceil, memory_usage, samples_per_bar};

#[test]
fn etags() {
    assert!(matches!(asset_response("/a.css", None, None), AssetResponse::NotFound));
    let hash = [1u8, 2, 3, 15, 16];
    match asset_response("/a.css", Some(&hash), None) {
        AssetResponse::Found { etag, content_type } => {
            assert_eq!(etag, "0102030f10");
            assert_eq!(content_type.as_deref(), Some("text/css"));
        }
        _ => panic!("expected asset"),
    }
    assert!(matches!(asset_response("/a.css", Some(&hash), Some(b"0102030f10")), AssetResponse::NotModified));
    assert!(matches!(asset_response("/a.css", Some(&hash), Some(b"0102030F10")), AssetResponse::Found { .. }));
    assert!(bytes_eq(b"ab", b"ab") && !bytes_eq(b"ab", b"a"));
}

#[test]
fn config_fields() {
    assert_eq!(crate_name("my-cool-app"), "my_cool_app");
    assert_eq!(crate_name("plain"), "plain");
    assert_eq!(crate_version(None).unwrap().to_string(), "0.0.0");
    assert_eq!(crate_version(Some("1.2.3")).unwrap().major, 1);
    assert!(crate_version(Some("one")).is_none());
    assert!(persistent_setting(None));
    assert!(persistent_setting(Some(None)));
    assert!(persistent_setting(Some(Some(None))));
    assert!(!persistent_setting(Some(Some(Some(false)))));
}

#[test]
fn workspace_choice() {
    let ws = |p: Option<&str>, m: Option<&str>| Ancestor { path: p.map(Into::into), manifest: m.map(Into::into) };
    let ancestors = vec![
        ws(Some("/w/apps"), Some("[package]")),
        ws(Some("/w"), Some("[workspace]\nmembers = [\"apps/blog\"]")),
        ws(Some("/"), None),
    ];
    assert_eq!(workspace_path("/w/apps/blog", &ancestors, "blog"), "/w");
    assert_eq!(workspace_path("/w/apps/blog", &ancestors, "shop"), "/w/apps/blog");
    let stop = vec![ws(None, Some("[workspace] blog")), ws(Some("/w"), Some("[workspace] blog"))];
    assert_eq!(workspace_path("/d", &stop, "blog"), "/d");
    assert_eq!(target_path("/w"), "/w/target");
    assert_eq!(release_binary_path("/w/target", "blog"), "/w/target/blog/x86_64-unknown-linux-gnu/release/blog");
}

#[test]
fn log_files() {
    let logs = Logs { info: Log("/d/info".into()), traces: Log("/d/traces".into()) };
    assert_eq!(logs.target(true).0, "/d/traces");
    assert_eq!(logs.target(false).0, "/d/info");
    assert_eq!(Logs::entry("{}", true), "{},");
    assert_eq!(Logs::entry("x", false), "x");
    assert_eq!(Logs::traces_document("{},{},"), "[{},{},]");
    let lines: Vec<String> = ["a", "b", "c"].iter().map(|s| s.to_string()).collect();
    assert_eq!(latest_entries(&lines, 2), vec!["c".to_string(), "b".to_string()]);
    assert_eq!(latest_entries(&lines, 9).len(), 3);
}

#[test]
fn log_writer_entries() {
    assert!(matches!(log_writer_entry(&[0xff, 0xfe], true), Err(LogWriteError::NotUtf8)));
    assert_eq!(log_writer_entry(b"{\"a\":1}", true).ok().unwrap(), "{\"a\":1},");
    let html = log_writer_entry(b"\x1b[1mbold\x1b[0m <x>", false).ok().unwrap();
    assert!(html.contains("<b>bold</b>"));
    assert!(html.contains("&lt;x&gt;"));
}

#[test]
fn runtime_flags() {
    let mut f = RuntimeFlags::new();
    assert_eq!(f.next_step(Some(10)), ProceedStep::WaitReady);
    f.set_ready();
    assert_eq!(f.next_step(Some(10)), ProceedStep::Sleep(10));
    assert_eq!(f.next_step(None), ProceedStep::Stop);
    let job = ScheduledJobFuture::from(7u8, &mut f);
    assert_eq!(f.running_scheduled_tasks, 1);
    assert!(!f.jobs_drained());
    assert_eq!(job.complete(&mut f), 7);
    assert!(f.jobs_drained());
    assert!(f.shutdown());
    assert!(!f.shutdown());
    assert_eq!(f.next_step(Some(10)), ProceedStep::Stop);
    assert!(!f.run_after_sleep());
    f.job_finished();
    assert_eq!(f.running_scheduled_tasks, usize::MAX);
    f.job_started();
    assert_eq!(f.running_scheduled_tasks, 0);
    let mut s = Shutdown { initiated: false, scheduled_task_running: false };
    assert!(s.initiate() && s.in_progress() && !s.initiate());
}

#[test]
fn system_arithmetic() {
    assert_eq!(div_ceil(10, 3), 4);
    assert_eq!(div_ceil(9, 3), 3);
    assert_eq!(div_ceil(0, 3), 0);
    assert_eq!(div_ceil(u64::MAX, 2), u64::MAX / 2 + 1);
    assert_eq!(disk_usage(5_000_000, 1_500_001), (5, 3));
    assert_eq!(memory_usage(1_048_577, 3 * 1_048_576), (2, 1));
    assert_eq!(samples_per_bar(250, 100), Some(3));
    assert_eq!(samples_per_bar(100, 100), None);
}

#[test]
fn asset_names_and_content_types() {
    assert_eq!(asset_path("//img/logo.png"), "img/logo.png");
    assert_eq!(asset_path("logo.png"), "logo.png");
    assert_eq!(asset_path("///"), "");
    match asset_response("///index.html", Some(&[0u8]), None) {
        AssetResponse::Found { content_type, .. } => assert_eq!(content_type.as_deref(), Some("text/html")),
        _ => panic!("expected asset"),
    }
    match asset_response("/noext", Some(&[0u8]), None) {
        AssetResponse::Found { content_type, .. } => assert_eq!(content_type, None),
        _ => panic!("expected asset"),
    }
}

fn run(start: i64, end: Option<i64>, error: Option<&str>) -> ScheduledJobRecord {
    ScheduledJobRecord { id: 1, name: "job".into(), start, end, error: error.map(|e| e.to_string()) }
}

#[test]
fn job_counts() {
    let mut c = JobCounts::new();
    assert_eq!(c.add_run(run(10, None, None)), None);
    assert_eq!(c.add_run(run(10, Some(40), None)), Some(30));
    assert_eq!(c.add_run(run(10, Some(50), Some("boom"))), None);
    assert_eq!(c.in_progress, 1);
    assert_eq!(c.finished_successfully, 1);
    assert_eq!(c.errors, vec![(50, "boom".to_string())]);
}
