use vstd::prelude::*;
use vstd::string::*;
use crate::text::{decimal, decimal_text, text_eq};
use crate::services::{clone_words, after_probe, ServiceHandle};
use crate::state::ServiceState;

verus! {

/// How a service is probed.
#[derive(Debug, Clone)]
pub enum HealthCheckType {
    /// GET the URL; healthy iff the response has the expected status code.
    Http { url: String, expected_status: u16 },
    /// Stand-in for an RPC health protocol: healthy iff a TCP connection to the
    /// endpoint can be opened. Reachability is all it shows.
    Grpc { endpoint: String, service: String },
    /// Healthy iff a process with this id exists.
    Process { pid: u32 },
    /// Run the command; healthy iff it exits with status zero.
    Custom { command: Vec<String> },
}

/// A monitored service with its probe and failure bookkeeping. Times are
/// milliseconds on the caller's monotonic clock.
#[derive(Debug, Clone)]
pub struct HealthCheck {
    pub service_name: String,
    pub check_type: HealthCheckType,
    pub interval_ms: u64,
    pub timeout_ms: u64,
    pub last_check: Option<u64>,
    pub consecutive_failures: u32,
    pub max_failures: u32,
}

/// Result of one probe.
#[derive(Debug, Clone)]
pub struct HealthStatus {
    pub is_healthy: bool,
    pub response_time_ms: Option<u64>,
    pub error_message: Option<String>,
    pub timestamp: u64,
}

/// The outside work one probe needs.
#[derive(Debug, Clone)]
pub enum ProbeRequest {
    HttpGet { url: String, expected_status: u16 },
    TcpConnect { endpoint: String },
    ProcessAlive { pid: u32 },
    RunCommand { program: String, args: Vec<String> },
}

/// What the outside work of a probe observed.
#[derive(Debug, Clone)]
pub enum ProbeOutcome {
    HttpResponse { status: u16, expected: u16 },
    HttpFailed { error: String },
    Connected,
    ConnectFailed { error: String },
    ProcessFound,
    ProcessMissing,
    ProcessQueryFailed { error: String },
    CommandExited { success: bool, stderr: String },
    CommandNotRun { error: String },
}

/// What one recorded probe means for the service.
#[derive(Debug, Clone, Copy, PartialEq, Eq, Structural)]
pub enum ProbeVerdict {
    Passed,
    Failed,
    /// The failure that brought the run of failures to the threshold.
    RemediationRequired,
}

pub open spec fn empty_command_text() -> Seq<char> {
    "Empty command"@
}

/// The request for a check type, or the failure that needs no outside work.
pub open spec fn plan_of(t: HealthCheckType, r: Result<ProbeRequest, String>) -> bool {
    match t {
        HealthCheckType::Http { url, expected_status } => r matches Ok(
            ProbeRequest::HttpGet { url: u, expected_status: e },
        ) && u@ == url@ && e == expected_status,
        HealthCheckType::Grpc { endpoint, service } => r matches Ok(
            ProbeRequest::TcpConnect { endpoint: e },
        ) && e@ == endpoint@,
        HealthCheckType::Process { pid } => r == Ok::<ProbeRequest, String>(
            ProbeRequest::ProcessAlive { pid },
        ),
        HealthCheckType::Custom { command } => if command@.len() == 0 {
            r matches Err(m) && m@ == empty_command_text()
        } else {
            r matches Ok(ProbeRequest::RunCommand { program, args }) && program@ == command@[0]@
                && args.deep_view() == command.deep_view().drop_first()
        },
    }
}

/// Verdict on an observation: `None` when healthy, else the message.
pub open spec fn outcome_error(o: ProbeOutcome) -> Option<Seq<char>> {
    match o {
        ProbeOutcome::HttpResponse { status, expected } => if status == expected {
            None
        } else {
            Some(
                "Unexpected status code: "@ + decimal(status as nat) + " (expected "@ + decimal(
                    expected as nat,
                ) + ")"@,
            )
        },
        ProbeOutcome::HttpFailed { error } => Some("HTTP request failed: "@ + error@),
        ProbeOutcome::Connected => None,
        ProbeOutcome::ConnectFailed { error } => Some("gRPC connection failed: "@ + error@),
        ProbeOutcome::ProcessFound => None,
        ProbeOutcome::ProcessMissing => Some("Process not found"@),
        ProbeOutcome::ProcessQueryFailed { error } => Some("Failed to check process: "@ + error@),
        ProbeOutcome::CommandExited { success, stderr } => if success {
            None
        } else {
            Some("Command failed: "@ + stderr@)
        },
        ProbeOutcome::CommandNotRun { error } => Some("Failed to execute command: "@ + error@),
    }
}

/// Failure count after one more failure, held at the largest `u32`.
pub open spec fn next_failures(n: u32) -> u32 {
    if n < u32::MAX { (n + 1) as u32 } else { n }
}

/// Whether a failure at count `n` brings the run to the threshold. A
/// threshold of zero never escalates.
pub open spec fn escalates(n: u32, max_failures: u32) -> bool {
    n < max_failures && n + 1 == max_failures
}

pub open spec fn verdict_of(c: HealthCheck, healthy: bool) -> ProbeVerdict {
    if healthy {
        ProbeVerdict::Passed
    } else if escalates(c.consecutive_failures, c.max_failures) {
        ProbeVerdict::RemediationRequired
    } else {
        ProbeVerdict::Failed
    }
}

pub open spec fn after_record(c: HealthCheck, healthy: bool, now_ms: u64) -> HealthCheck {
    HealthCheck {
        last_check: Some(now_ms),
        consecutive_failures: if healthy { 0 } else { next_failures(c.consecutive_failures) },
        ..c
    }
}

/// A check is due when it was never probed or its interval has elapsed.
pub open spec fn due(c: HealthCheck, now_ms: u64) -> bool {
    match c.last_check {
        None => true,
        Some(t) => now_ms >= t && now_ms - t >= c.interval_ms,
    }
}

/// Number of escalations in a run of `k` failures starting at count `n`.
pub open spec fn escalations(n: u32, max_failures: u32, k: nat) -> nat
    decreases k,
{
    if k == 0 {
        0
    } else {
        (if escalates(n, max_failures) { 1nat } else { 0nat }) + escalations(
            next_failures(n),
            max_failures,
            (k - 1) as nat,
        )
    }
}

/// Escalation is idempotent: a run of `k` consecutive failures from count `n`
/// escalates exactly once if it crosses the threshold, and never otherwise.
pub proof fn lemma_escalation_once(n: u32, max_failures: u32, k: nat)
    ensures
        escalations(n, max_failures, k) == if n < max_failures && n + k >= max_failures {
            1nat
        } else {
            0nat
        },
    decreases k,
{
    if k > 0 {
        lemma_escalation_once(next_failures(n), max_failures, (k - 1) as nat);
    }
}

/// A run of failures from a fresh counter escalates exactly once when it is
/// at least as long as the threshold, and not at all when shorter.
pub proof fn lemma_threshold_failures_escalate_once(max_failures: u32, k: nat)
    requires
        max_failures >= 1,
    ensures
        k >= max_failures ==> escalations(0, max_failures, k) == 1,
        k < max_failures ==> escalations(0, max_failures, k) == 0,
{
    lemma_escalation_once(0, max_failures, k);
}

/// A successful probe clears the failure count, whatever it was, asks for no
/// remediation, and brings an `Unhealthy` service back to `Running`.
pub proof fn lemma_success_resets(c: HealthCheck, h: ServiceHandle, now_ms: u64)
    ensures
        after_record(c, true, now_ms).consecutive_failures == 0,
        verdict_of(c, true) == ProbeVerdict::Passed,
        h.state == ServiceState::Unhealthy ==> after_probe(h, true).state == ServiceState::Running,
{
}

pub fn plan_probe(check_type: &HealthCheckType) -> (r: Result<ProbeRequest, String>)
    ensures
        plan_of(*check_type, r),
{
    match check_type {
        HealthCheckType::Http { url, expected_status } => Ok(
            ProbeRequest::HttpGet { url: url.clone(), expected_status: *expected_status },
        ),
        HealthCheckType::Grpc { endpoint, service } => Ok(
            ProbeRequest::TcpConnect { endpoint: endpoint.clone() },
        ),
        HealthCheckType::Process { pid } => Ok(ProbeRequest::ProcessAlive { pid: *pid }),
        HealthCheckType::Custom { command } => {
            if command.len() == 0 {
                return Err(String::from_str("Empty command"));
            }
            let args = clone_words(command, 1);
            proof {
                assert(command.deep_view().drop_first() =~= command.deep_view().subrange(
                    1,
                    command@.len() as int,
                ));
            }
            Ok(ProbeRequest::RunCommand { program: command[0].clone(), args })
        },
    }
}

fn prefixed(prefix: &str, tail: &String) -> (r: String)
    ensures
        r@ == prefix@ + tail@,
{
    let mut r = String::from_str(prefix);
    r.append(tail.as_str());
    r
}

/// Reads an observation: `Ok` when healthy, otherwise the failure message,
/// which tells an unexpected status apart from a failed request.
pub fn interpret_outcome(outcome: &ProbeOutcome) -> (r: Result<(), String>)
    ensures
        match outcome_error(*outcome) {
            None => r is Ok,
            Some(m) => r matches Err(e) && e@ == m,
        },
{
    match outcome {
        ProbeOutcome::HttpResponse { status, expected } => {
            if *status == *expected {
                Ok(())
            } else {
                let mut m = String::from_str("Unexpected status code: ");
                let got = decimal_text(*status as u64);
                m.append(got.as_str());
                m.append(" (expected ");
                let want = decimal_text(*expected as u64);
                m.append(want.as_str());
                m.append(")");
                Err(m)
            }
        },
        ProbeOutcome::HttpFailed { error } => Err(prefixed("HTTP request failed: ", error)),
        ProbeOutcome::Connected => Ok(()),
        ProbeOutcome::ConnectFailed { error } => Err(prefixed("gRPC connection failed: ", error)),
        ProbeOutcome::ProcessFound => Ok(()),
        ProbeOutcome::ProcessMissing => Err(String::from_str("Process not found")),
        ProbeOutcome::ProcessQueryFailed { error } => Err(
            prefixed("Failed to check process: ", error),
        ),
        ProbeOutcome::CommandExited { success, stderr } => {
            if *success {
                Ok(())
            } else {
                Err(prefixed("Command failed: ", stderr))
            }
        },
        ProbeOutcome::CommandNotRun { error } => Err(prefixed("Failed to execute command: ", error)),
    }
}

/// Probe result with its timing.
pub fn health_status(result: Result<(), String>, elapsed_ms: u64, now_ms: u64) -> (r: HealthStatus)
    ensures
        r.is_healthy == result is Ok,
        r.response_time_ms == Some(elapsed_ms),
        r.timestamp == now_ms,
        match result {
            Ok(_) => r.error_message is None,
            Err(e) => r.error_message matches Some(m) && m@ == e@,
        },
{
    let is_healthy = result.is_ok();
    let error_message = match result {
        Ok(_) => None,
        Err(e) => Some(e),
    };
    HealthStatus { is_healthy, response_time_ms: Some(elapsed_ms), error_message, timestamp: now_ms }
}

/// The set of health checks, polled by the caller's loop.
pub struct HealthMonitor {
    checks: Vec<HealthCheck>,
}

impl HealthMonitor {
    pub closed spec fn checks(&self) -> Seq<HealthCheck> {
        self.checks@
    }

    pub fn new() -> (r: Self)
        ensures
            r.checks().len() == 0,
    {
        HealthMonitor { checks: Vec::new() }
    }

    pub fn add_health_check(&mut self, check: HealthCheck)
        ensures
            final(self).checks() == old(self).checks().push(check),
    {
        self.checks.push(check);
    }

    pub fn len(&self) -> (r: usize)
        ensures
            r == self.checks().len(),
    {
        self.checks.len()
    }

    pub fn check_at(&self, i: usize) -> (r: &HealthCheck)
        requires
            i < self.checks().len(),
        ensures
            *r == self.checks()[i as int],
    {
        &self.checks[i]
    }

    /// The probe for the first check of a service, or `None` if it has none.
    pub fn check_service_health(&self, service_name: &str) -> (r: Option<Result<ProbeRequest, String>>)
        ensures
            r is None <==> forall|i: int| 0 <= i < self.checks().len()
                ==> #[trigger] self.checks()[i].service_name@ != service_name@,
            r matches Some(p) ==> exists|i: int| {
                &&& 0 <= i < self.checks().len()
                &&& #[trigger] self.checks()[i].service_name@ == service_name@
                &&& forall|j: int| 0 <= j < i ==> self.checks()[j].service_name@ != service_name@
                &&& plan_of(self.checks()[i].check_type, p)
            },
    {
        let mut i: usize = 0;
        while i < self.checks.len()
            invariant
                i <= self.checks@.len(),
                forall|k: int| 0 <= k < i ==> self.checks@[k].service_name@ != service_name@,
            decreases self.checks@.len() - i,
        {
            if text_eq(self.checks[i].service_name.as_str(), service_name) {
                let p = plan_probe(&self.checks[i].check_type);
                return Some(p);
            }
            i = i + 1;
        }
        None
    }

    /// Whether check `i` is due at `now_ms`.
    pub fn is_due(&self, i: usize, now_ms: u64) -> (r: bool)
        requires
            i < self.checks().len(),
        ensures
            r == due(self.checks()[i as int], now_ms),
    {
        match self.checks[i].last_check {
            None => true,
            Some(t) => now_ms >= t && now_ms - t >= self.checks[i].interval_ms,
        }
    }

    /// Records the outcome of a probe of check `i` made at `now_ms`. Success
    /// clears the failure count; failure raises it, and the failure that brings
    /// it to the threshold, and only that one, asks for remediation.
    pub fn record_probe(&mut self, i: usize, healthy: bool, now_ms: u64) -> (r: ProbeVerdict)
        requires
            i < old(self).checks().len(),
        ensures
            final(self).checks() == old(self).checks().update(
                i as int,
                after_record(old(self).checks()[i as int], healthy, now_ms),
            ),
            r == verdict_of(old(self).checks()[i as int], healthy),
    {
        let n = self.checks[i].consecutive_failures;
        let max = self.checks[i].max_failures;
        self.checks[i].last_check = Some(now_ms);
        if healthy {
            self.checks[i].consecutive_failures = 0;
            proof {
                assert(self.checks@ =~= old(self).checks@.update(i as int, after_record(old(self).checks@[i as int], healthy, now_ms)));
            }
            ProbeVerdict::Passed
        } else {
            let next = if n < u32::MAX { n + 1 } else { n };
            self.checks[i].consecutive_failures = next;
            proof {
                assert(self.checks@ =~= old(self).checks@.update(i as int, after_record(old(self).checks@[i as int], healthy, now_ms)));
            }
            if n < max && n + 1 == max {
                ProbeVerdict::RemediationRequired
            } else {
                ProbeVerdict::Failed
            }
        }
    }
}

} // verus!
