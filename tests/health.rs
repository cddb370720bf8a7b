use leviathan::health::{
    health_status, interpret_outcome, plan_probe, HealthCheck, HealthCheckType, HealthMonitor,
    ProbeOutcome, ProbeRequest, ProbeVerdict,
};

fn check(name: &str, max_failures: u32) -> HealthCheck {
    HealthCheck {
        service_name: name.to_string(),
        check_type: HealthCheckType::Http {
            url: "http://localhost:3333/health".to_string(),
            expected_status: 200,
        },
        interval_ms: 30_000,
        timeout_ms: 5_000,
        last_check: None,
        consecutive_failures: 0,
        max_failures,
    }
}

#[test]
fn unexpected_status_is_told_apart() {
    let r = interpret_outcome(&ProbeOutcome::HttpResponse { status: 503, expected: 200 });
    let e = r.clone().unwrap_err();
    assert_eq!(e, "Unexpected status code: 503 (expected 200)");
    let s = health_status(r, 12, 99);
    assert!(!s.is_healthy);
    assert_eq!(s.response_time_ms, Some(12));
    assert_eq!(s.timestamp, 99);
    assert!(s.error_message.unwrap().starts_with("Unexpected status code"));
    let t = interpret_outcome(&ProbeOutcome::HttpFailed { error: "connection refused".to_string() });
    assert_eq!(t.unwrap_err(), "HTTP request failed: connection refused");
    assert!(interpret_outcome(&ProbeOutcome::HttpResponse { status: 200, expected: 200 }).is_ok());
}

#[test]
fn empty_custom_command_fails_without_spawn() {
    let r = plan_probe(&HealthCheckType::Custom { command: Vec::new() });
    assert_eq!(r.unwrap_err(), "Empty command");
    let r = plan_probe(&HealthCheckType::Custom {
        command: vec!["curl".to_string(), "-f".to_string(), "x".to_string()],
    });
    match r {
        Ok(ProbeRequest::RunCommand { program, args }) => {
            assert_eq!(program, "curl");
            assert_eq!(args, vec!["-f".to_string(), "x".to_string()]);
        }
        _ => panic!("expected a command"),
    }
}

#[test]
fn probe_plans() {
    assert!(matches!(plan_probe(&HealthCheckType::Process { pid: 5 }), Ok(ProbeRequest::ProcessAlive { pid: 5 })));
    match plan_probe(&HealthCheckType::Grpc { endpoint: "127.0.0.1:50051".to_string(), service: "memory".to_string() }) {
        Ok(ProbeRequest::TcpConnect { endpoint }) => assert_eq!(endpoint, "127.0.0.1:50051"),
        _ => panic!("expected a connection"),
    }
    match plan_probe(&check("a", 3).check_type) {
        Ok(ProbeRequest::HttpGet { url, expected_status }) => {
            assert_eq!(url, "http://localhost:3333/health");
            assert_eq!(expected_status, 200);
        }
        _ => panic!("expected a request"),
    }
}

#[test]
fn outcome_messages() {
    assert!(interpret_outcome(&ProbeOutcome::Connected).is_ok());
    assert_eq!(
        interpret_outcome(&ProbeOutcome::ConnectFailed { error: "refused".to_string() }).unwrap_err(),
        "gRPC connection failed: refused"
    );
    assert!(interpret_outcome(&ProbeOutcome::ProcessFound).is_ok());
    assert_eq!(interpret_outcome(&ProbeOutcome::ProcessMissing).unwrap_err(), "Process not found");
    assert_eq!(
        interpret_outcome(&ProbeOutcome::ProcessQueryFailed { error: "e".to_string() }).unwrap_err(),
        "Failed to check process: e"
    );
    assert!(interpret_outcome(&ProbeOutcome::CommandExited { success: true, stderr: String::new() }).is_ok());
    assert_eq!(
        interpret_outcome(&ProbeOutcome::CommandExited { success: false, stderr: "boom".to_string() }).unwrap_err(),
        "Command failed: boom"
    );
    assert_eq!(
        interpret_outcome(&ProbeOutcome::CommandNotRun { error: "missing".to_string() }).unwrap_err(),
        "Failed to execute command: missing"
    );
    let ok = health_status(Ok(()), 3, 4);
    assert!(ok.is_healthy);
    assert!(ok.error_message.is_none());
}

#[test]
fn threshold_escalates_once() {
    let mut m = HealthMonitor::new();
    m.add_health_check(check("a", 3));
    let verdicts: Vec<ProbeVerdict> = (0..6).map(|t| m.record_probe(0, false, t)).collect();
    assert_eq!(
        verdicts,
        vec![
            ProbeVerdict::Failed,
            ProbeVerdict::Failed,
            ProbeVerdict::RemediationRequired,
            ProbeVerdict::Failed,
            ProbeVerdict::Failed,
            ProbeVerdict::Failed,
        ]
    );
    assert_eq!(m.check_at(0).consecutive_failures, 6);
}

#[test]
fn success_resets_failures() {
    let mut m = HealthMonitor::new();
    m.add_health_check(check("a", 2));
    for t in 0..5 {
        m.record_probe(0, false, t);
    }
    assert_eq!(m.record_probe(0, true, 10), ProbeVerdict::Passed);
    assert_eq!(m.check_at(0).consecutive_failures, 0);
    assert_eq!(m.check_at(0).last_check, Some(10));
    assert_eq!(m.record_probe(0, false, 11), ProbeVerdict::Failed);
    assert_eq!(m.record_probe(0, false, 12), ProbeVerdict::RemediationRequired);
}

#[test]
fn due_checks() {
    let mut m = HealthMonitor::new();
    m.add_health_check(check("a", 3));
    assert!(m.is_due(0, 0));
    m.record_probe(0, true, 1_000);
    assert!(!m.is_due(0, 30_999));
    assert!(m.is_due(0, 31_000));
    assert!(!m.is_due(0, 500));
}

#[test]
fn lookup_by_service() {
    let mut m = HealthMonitor::new();
    assert_eq!(m.len(), 0);
    m.add_health_check(check("a", 3));
    let mut b = check("b", 3);
    b.check_type = HealthCheckType::Process { pid: 77 };
    m.add_health_check(b);
    assert!(m.check_service_health("c").is_none());
    assert!(matches!(m.check_service_health("b"), Some(Ok(ProbeRequest::ProcessAlive { pid: 77 }))));
    assert!(matches!(m.check_service_health("a"), Some(Ok(ProbeRequest::HttpGet { .. }))));
}
