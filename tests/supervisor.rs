use leviathan::services::{
    ProcessObservation, ServiceConfig, ServiceError, ServiceManager, StartPlan, StopPlan,
    START_STAGGER_MS,
};
use leviathan::state::ServiceState;

fn config(name: &str, auto_start: bool) -> ServiceConfig {
    ServiceConfig {
        name: name.to_string(),
        command: vec!["node".to_string(), "src/index.js".to_string(), "--port".to_string()],
        working_dir: Some("../agent".to_string()),
        env_vars: vec![("PORT".to_string(), "3333".to_string())],
        health_check_url: None,
        auto_start,
        restart_delay_ms: 2000,
        max_restarts: 5,
    }
}

fn manager(names: &[&str]) -> ServiceManager {
    let mut m = ServiceManager::new();
    for n in names {
        assert!(m.register(config(n, true)).is_ok());
    }
    m
}

fn run(m: &mut ServiceManager, name: &str, pid: u32, now_ms: u64) {
    assert!(matches!(m.start_service(name), Ok(StartPlan::Launch(_))));
    assert!(m.complete_start(name, Ok(pid), now_ms).is_ok());
}

fn state(m: &ServiceManager, name: &str) -> ServiceState {
    m.get(name).unwrap().state
}

#[test]
fn start_builds_launch_request() {
    let mut m = manager(&["agent"]);
    match m.start_service("agent") {
        Ok(StartPlan::Launch(l)) => {
            assert_eq!(l.program, "node");
            assert_eq!(l.args, vec!["src/index.js".to_string(), "--port".to_string()]);
            assert_eq!(l.working_dir, Some("../agent".to_string()));
            assert_eq!(l.env_vars, vec![("PORT".to_string(), "3333".to_string())]);
        }
        _ => panic!("expected a launch"),
    }
    assert_eq!(state(&m, "agent"), ServiceState::Starting);
    assert!(m.complete_start("agent", Ok(4242), 10_000).is_ok());
    let h = m.get("agent").unwrap();
    assert_eq!(h.state, ServiceState::Running);
    assert_eq!(h.pid, Some(4242));
    assert_eq!(h.start_time, Some(10_000));
}

#[test]
fn start_then_stop_clears_process() {
    let mut m = manager(&["agent"]);
    run(&mut m, "agent", 7, 1000);
    match m.stop_service("agent") {
        Ok(StopPlan::Terminate { pid }) => assert_eq!(pid, Some(7)),
        _ => panic!("expected a termination"),
    }
    let h = m.get("agent").unwrap();
    assert_eq!(h.state, ServiceState::Stopped);
    assert_eq!(h.pid, None);
    assert_eq!(h.start_time, None);
    let st = m.snapshot(5000, "t");
    assert_eq!(st.services[0].pid, None);
    assert_eq!(st.services[0].uptime, None);
}

#[test]
fn stop_after_process_exited() {
    let mut m = manager(&["agent"]);
    run(&mut m, "agent", 7, 1000);
    assert_eq!(m.check_service_health("agent", ProcessObservation::Exited, 2000).unwrap(), false);
    assert_eq!(state(&m, "agent"), ServiceState::Failed);
    assert!(matches!(m.stop_service("agent"), Ok(StopPlan::Terminate { pid: None })));
    let h = m.get("agent").unwrap();
    assert_eq!(h.state, ServiceState::Stopped);
    assert_eq!(h.pid, None);
    assert_eq!(h.start_time, None);
}

#[test]
fn start_when_running_is_noop() {
    let mut m = manager(&["agent"]);
    run(&mut m, "agent", 7, 1000);
    assert!(matches!(m.start_service("agent"), Ok(StartPlan::AlreadyRunning)));
    let h = m.get("agent").unwrap();
    assert_eq!(h.state, ServiceState::Running);
    assert_eq!(h.pid, Some(7));
    assert_eq!(h.start_time, Some(1000));
}

#[test]
fn stop_when_stopped_is_noop() {
    let mut m = manager(&["agent"]);
    assert!(matches!(m.stop_service("agent"), Ok(StopPlan::AlreadyStopped)));
    assert_eq!(state(&m, "agent"), ServiceState::Stopped);
}

#[test]
fn unknown_service_is_reported() {
    let mut m = manager(&["agent"]);
    match m.start_service("nope") {
        Err(e) => assert_eq!(e.message(), "Service not found: nope"),
        _ => panic!("expected an error"),
    }
    assert!(matches!(m.stop_service("nope"), Err(ServiceError::NotFound { .. })));
    assert!(matches!(m.restart_service("nope"), Err(ServiceError::NotFound { .. })));
    assert!(matches!(
        m.check_service_health("nope", ProcessObservation::StillRunning, 0),
        Err(ServiceError::NotFound { .. })
    ));
}

#[test]
fn duplicate_registration_is_refused() {
    let mut m = manager(&["agent"]);
    match m.register(config("agent", false)) {
        Err(e) => assert_eq!(e.message(), "Service already registered: agent"),
        _ => panic!("expected an error"),
    }
    assert_eq!(m.len(), 1);
}

#[test]
fn spawn_failure_marks_failed() {
    let mut m = manager(&["agent"]);
    assert!(m.start_service("agent").is_ok());
    match m.complete_start("agent", Err("No such file".to_string()), 5) {
        Err(e) => assert_eq!(e.message(), "Failed to start service agent: No such file"),
        _ => panic!("expected an error"),
    }
    assert_eq!(state(&m, "agent"), ServiceState::Failed);
}

#[test]
fn empty_command_cannot_start() {
    let mut m = ServiceManager::new();
    let mut c = config("x", false);
    c.command = Vec::new();
    m.register(c).unwrap();
    match m.start_service("x") {
        Err(ServiceError::SpawnFailed { service, reason }) => {
            assert_eq!(service, "x");
            assert_eq!(reason, "empty command");
        }
        _ => panic!("expected a spawn failure"),
    }
    assert_eq!(state(&m, "x"), ServiceState::Failed);
}

#[test]
fn restart_stops_then_starts() {
    let mut m = manager(&["agent"]);
    run(&mut m, "agent", 9, 0);
    let p = m.restart_service("agent").unwrap();
    assert!(matches!(p.stop, StopPlan::Terminate { pid: Some(9) }));
    assert!(matches!(p.start, Ok(StartPlan::Launch(_))));
    let h = m.get("agent").unwrap();
    assert_eq!(h.state, ServiceState::Starting);
    assert_eq!(h.pid, None);
}

#[test]
fn initialize_starts_only_auto_start_services() {
    let mut m = ServiceManager::new();
    m.register(config("A", true)).unwrap();
    m.register(config("B", false)).unwrap();
    let plans = m.initialize_services(100);
    assert_eq!(plans.len(), 2);
    let a = plans[0].as_ref().unwrap();
    assert_eq!(a.name, "A");
    assert!(matches!(a.plan, Ok(StartPlan::Launch(_))));
    assert!(plans[1].is_none());
    m.complete_start("A", Ok(11), 100).unwrap();
    assert_eq!(state(&m, "A"), ServiceState::Running);
    assert_eq!(state(&m, "B"), ServiceState::Stopped);
}

#[test]
fn start_all_is_staggered_in_registration_order() {
    let mut m = manager(&["neo4j", "graphiti", "agent"]);
    let starts = m.start_all_services(1000);
    let names: Vec<&str> = starts.iter().map(|s| s.name.as_str()).collect();
    assert_eq!(names, vec!["neo4j", "graphiti", "agent"]);
    assert_eq!(starts[0].at_ms, 1000);
    assert_eq!(starts[1].at_ms, 1500);
    assert_eq!(starts[2].at_ms, 2000);
    for w in starts.windows(2) {
        assert!(w[1].at_ms >= w[0].at_ms + START_STAGGER_MS);
    }
    for s in &starts {
        assert_eq!(state(&m, &s.name), ServiceState::Starting);
    }
}

#[test]
fn stop_all_and_restart_all() {
    let mut m = manager(&["a", "b"]);
    run(&mut m, "a", 1, 0);
    let stops = m.stop_all_services();
    assert!(matches!(stops[0], StopPlan::Terminate { pid: Some(1) }));
    assert!(matches!(stops[1], StopPlan::AlreadyStopped));
    run(&mut m, "b", 2, 0);
    let p = m.restart_all_services(10_000);
    assert!(matches!(p.stops[1], StopPlan::Terminate { pid: Some(2) }));
    assert_eq!(p.starts[0].at_ms, 12_000);
    assert_eq!(p.starts[1].at_ms, 12_500);
    assert_eq!(state(&m, "a"), ServiceState::Starting);
    assert_eq!(state(&m, "b"), ServiceState::Starting);
}

#[test]
fn liveness_reconciliation() {
    let mut m = manager(&["a"]);
    assert_eq!(m.check_service_health("a", ProcessObservation::StillRunning, 5).unwrap(), false);
    assert_eq!(state(&m, "a"), ServiceState::Stopped);
    run(&mut m, "a", 3, 0);
    assert_eq!(m.check_service_health("a", ProcessObservation::QueryFailed, 5).unwrap(), false);
    assert_eq!(state(&m, "a"), ServiceState::Running);
    assert_eq!(m.check_service_health("a", ProcessObservation::StillRunning, 7).unwrap(), true);
    assert_eq!(m.get("a").unwrap().last_health_check, Some(7));
    assert_eq!(m.check_service_health("a", ProcessObservation::Exited, 9).unwrap(), false);
    let h = m.get("a").unwrap();
    assert_eq!(h.state, ServiceState::Failed);
    assert_eq!(h.pid, None);
}

#[test]
fn probe_results_move_between_running_and_unhealthy() {
    let mut m = manager(&["a"]);
    run(&mut m, "a", 3, 0);
    m.record_health("a", false).unwrap();
    assert_eq!(state(&m, "a"), ServiceState::Unhealthy);
    m.record_health("a", false).unwrap();
    assert_eq!(state(&m, "a"), ServiceState::Unhealthy);
    m.record_health("a", true).unwrap();
    assert_eq!(state(&m, "a"), ServiceState::Running);
}

#[test]
fn overall_health_classification() {
    let mut m = manager(&["a", "b", "c"]);
    assert_eq!(m.snapshot(0, "t").overall_health, "Unhealthy");
    run(&mut m, "a", 1, 0);
    assert_eq!(m.snapshot(0, "t").overall_health, "Degraded");
    run(&mut m, "b", 2, 0);
    run(&mut m, "c", 3, 0);
    assert_eq!(m.snapshot(0, "t").overall_health, "Healthy");
    assert_eq!(ServiceManager::new().snapshot(0, "t").overall_health, "Healthy");
}

#[test]
fn snapshot_lines() {
    let mut m = manager(&["a", "b"]);
    run(&mut m, "a", 41, 1_000);
    let st = m.snapshot(3_662_000, "2024-01-01T00:00:00+00:00");
    assert_eq!(st.services.len(), 2);
    assert_eq!(st.services[0].name, "a");
    assert_eq!(st.services[0].status, "Running");
    assert_eq!(st.services[0].pid, Some(41));
    assert_eq!(st.services[0].uptime, Some(3661));
    assert_eq!(st.services[0].last_check, "2024-01-01T00:00:00+00:00");
    assert_eq!(st.services[1].status, "Stopped");
    assert_eq!(st.services[1].uptime, None);
    assert_eq!(st.timestamp, "2024-01-01T00:00:00+00:00");
    assert_eq!(m.snapshot(0, "t").services[0].uptime, Some(0));
}

#[test]
fn system_status_is_stamped_in_utc() {
    let m = manager(&["a"]);
    let st = m.get_system_status(0, 0);
    assert_eq!(st.timestamp, "1970-01-01T00:00:00+00:00");
    let st = m.get_system_status(0, 1_700_000_000);
    assert_eq!(st.timestamp, "2023-11-14T22:13:20+00:00");
    assert_eq!(st.services[0].last_check, "2023-11-14T22:13:20+00:00");
}

#[test]
fn state_labels() {
    assert_eq!(ServiceState::Stopped.as_str(), "Stopped");
    assert_eq!(ServiceState::Starting.as_str(), "Starting");
    assert_eq!(ServiceState::Running.as_str(), "Running");
    assert_eq!(ServiceState::Unhealthy.as_str(), "Unhealthy");
    assert_eq!(ServiceState::Failed.as_str(), "Failed");
    assert_eq!(ServiceState::Restarting.as_str(), "Restarting");
}
