use session_core::ui::UI;
use session_core::dispatch::{DispatchError, LaunchPlan, RemoteKind};
use session_core::jobs::{AsyncJobTracker, JobStatus};
use session_core::session::SessionRegistry;

fn remote_plan(peer: &str) -> LaunchPlan {
    LaunchPlan::Remote {
        kind: RemoteKind::Connect,
        peer_id: peer.to_string(),
        password: "".to_string(),
        extra_args: Vec::new(),
    }
}

#[test]
fn poll_before_start_is_pending() {
    let tracker = AsyncJobTracker::new();
    assert!(matches!(tracker.poll(&"x".to_string()), JobStatus::Pending));
}

#[test]
fn start_then_complete_then_restart() {
    let mut tracker = AsyncJobTracker::new();
    tracker.start("x".to_string());
    assert!(matches!(tracker.poll(&"x".to_string()), JobStatus::Pending));
    tracker.complete("x".to_string(), Ok("done".to_string()));
    match tracker.poll(&"x".to_string()) {
        JobStatus::Succeeded(d) => assert_eq!(d, "done"),
        other => panic!("expected success, got {:?}", other),
    }
    // A second start resets the same name to Pending at once.
    tracker.start("x".to_string());
    assert!(matches!(tracker.poll(&"x".to_string()), JobStatus::Pending));
    tracker.complete("x".to_string(), Err("bad".to_string()));
    match tracker.poll(&"x".to_string()) {
        JobStatus::Failed(r) => assert_eq!(r, "bad"),
        other => panic!("expected failure, got {:?}", other),
    }
}

#[test]
fn jobs_are_independent_by_name() {
    let mut tracker = AsyncJobTracker::new();
    tracker.start("a".to_string());
    tracker.start("b".to_string());
    tracker.complete("a".to_string(), Ok("ra".to_string()));
    assert!(matches!(tracker.poll(&"b".to_string()), JobStatus::Pending));
    assert!(matches!(tracker.poll(&"a".to_string()), JobStatus::Succeeded(_)));
}

#[test]
fn change_id_job_flows_through_coordinator() {
    let mut core = UI::new();
    assert!(matches!(core.get_async_job_status(), JobStatus::Pending));
    core.change_id("new-id".to_string());
    assert!(matches!(core.get_async_job_status(), JobStatus::Pending));
    core.complete_async_job("change_id".to_string(), Ok("".to_string()));
    assert!(matches!(core.get_async_job_status(), JobStatus::Succeeded(_)));
    core.change_id("second-id".to_string());
    assert!(matches!(core.get_async_job_status(), JobStatus::Pending));
}

#[test]
fn http_probe_is_keyed_by_url() {
    let mut core = UI::new();
    let url = "http://example.com".to_string();
    assert!(matches!(core.get_http_status(url.clone()), JobStatus::Pending));
    core.http_request(url.clone());
    core.complete_async_job(format!("http:{}", url), Err("timeout".to_string()));
    match core.get_http_status(url) {
        JobStatus::Failed(r) => assert_eq!(r, "timeout"),
        other => panic!("expected failure, got {:?}", other),
    }
    assert!(matches!(
        core.get_http_status("http://other.example".to_string()),
        JobStatus::Pending
    ));
}

#[test]
fn check_hwcodec_starts_its_probe_job() {
    let mut core = UI::new();
    core.check_hwcodec();
    assert!(matches!(core.jobs.poll(&"check_hwcodec".to_string()), JobStatus::Pending));
    core.complete_async_job("check_hwcodec".to_string(), Ok("h264".to_string()));
    match core.jobs.poll(&"check_hwcodec".to_string()) {
        JobStatus::Succeeded(d) => assert_eq!(d, "h264"),
        other => panic!("expected success, got {:?}", other),
    }
}

#[test]
fn registry_cycles_empty_active_empty() {
    let mut reg = SessionRegistry::new();
    assert!(!reg.is_active());
    assert!(reg.active_peer_id().is_none());
    assert!(reg.launch(remote_plan("alice")).is_ok());
    assert!(reg.is_active());
    assert_eq!(reg.active_peer_id().unwrap(), "alice");
    reg.close();
    assert!(!reg.is_active());
    assert!(reg.active_peer_id().is_none());
}

#[test]
fn second_launch_is_refused_and_changes_nothing() {
    let mut reg = SessionRegistry::new();
    assert!(reg.launch(remote_plan("alice")).is_ok());
    match reg.launch(remote_plan("mallory")) {
        Err(DispatchError::SessionAlreadyActive) => {}
        other => panic!("expected SessionAlreadyActive, got {:?}", other),
    }
    assert_eq!(reg.active_peer_id().unwrap(), "alice");
}

#[test]
fn coordinator_realizes_remote_plans_only() {
    let mut core = UI::new();
    assert!(core.realize_plan(LaunchPlan::MainWindow).is_ok());
    assert!(core.active_session_peer_id().is_none());
    let plan = LaunchPlan::Remote {
        kind: RemoteKind::Rdp,
        peer_id: "peer9".to_string(),
        password: "pw".to_string(),
        extra_args: vec!["--fullscreen".to_string()],
    };
    assert!(core.realize_plan(plan).is_ok());
    assert_eq!(core.active_session_peer_id().unwrap(), "peer9");
    assert_eq!(core.active_session_password().unwrap(), "pw");
    match core.realize_plan(remote_plan("other")) {
        Err(DispatchError::SessionAlreadyActive) => {}
        other => panic!("expected SessionAlreadyActive, got {:?}", other),
    }
    assert_eq!(core.active_session_peer_id().unwrap(), "peer9");
    core.close_session();
    assert!(core.active_session_peer_id().is_none());
}
