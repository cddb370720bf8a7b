use vstd::prelude::*;
use vstd::string::*;
use crate::state::{ServiceState, state_label};
use crate::status::{ServiceStatus, SystemStatus, rfc3339_of, rfc3339_utc, MAX_TIMESTAMP_SECS};
use crate::text::text_eq;

verus! {

/// Static description of a service, fixed when it is registered.
#[derive(Debug, Clone)]
pub struct ServiceConfig {
    pub name: String,
    /// Executable followed by its arguments.
    pub command: Vec<String>,
    pub working_dir: Option<String>,
    /// Environment overrides, as name and value.
    pub env_vars: Vec<(String, String)>,
    pub health_check_url: Option<String>,
    pub auto_start: bool,
    pub restart_delay_ms: u64,
    pub max_restarts: u32,
}

/// Runtime record of one registered service. Times are milliseconds on the
/// caller's monotonic clock; the process is known by its id.
#[derive(Debug, Clone)]
pub struct ServiceHandle {
    pub config: ServiceConfig,
    pub pid: Option<u32>,
    pub state: ServiceState,
    pub start_time: Option<u64>,
    pub restart_count: u32,
    pub last_health_check: Option<u64>,
}

/// Failure of a command on the service registry.
#[derive(Debug, Clone)]
pub enum ServiceError {
    NotFound { service: String },
    AlreadyRegistered { service: String },
    SpawnFailed { service: String, reason: String },
}

/// What the caller has to launch for a start command.
#[derive(Debug, Clone)]
pub struct LaunchSpec {
    pub program: String,
    pub args: Vec<String>,
    pub working_dir: Option<String>,
    pub env_vars: Vec<(String, String)>,
}

/// Outcome of a start command.
#[derive(Debug, Clone)]
pub enum StartPlan {
    /// The service is already running: nothing is to be spawned.
    AlreadyRunning,
    /// The service is now `Starting`; the caller spawns this and reports back.
    Launch(LaunchSpec),
}

/// Outcome of a stop command.
#[derive(Debug, Clone, Copy)]
pub enum StopPlan {
    /// The service was already stopped.
    AlreadyStopped,
    /// The service is now `Stopped`; the caller terminates and reaps the
    /// process it was tracking, if any, best effort.
    Terminate { pid: Option<u32> },
}

/// What a non-blocking poll of a tracked process found.
#[derive(Debug, Clone, Copy, PartialEq, Eq, Structural)]
pub enum ProcessObservation {
    StillRunning,
    Exited,
    QueryFailed,
}

/// Delay between successive launches of a batch start, in milliseconds.
pub const START_STAGGER_MS: u64 = 500;

/// Pause between the stop and the start halves of a restart of all services.
pub const RESTART_PAUSE_MS: u64 = 2000;

/// One start of a batch: the service, when to launch it, and the plan.
#[derive(Debug)]
pub struct ScheduledStart {
    pub name: String,
    pub at_ms: u64,
    pub plan: Result<StartPlan, ServiceError>,
}

/// Stop followed by start of one service.
#[derive(Debug)]
pub struct RestartPlan {
    pub stop: StopPlan,
    pub start: Result<StartPlan, ServiceError>,
}

/// Stop of every service followed by a staggered start of every service.
#[derive(Debug)]
pub struct RestartAllPlan {
    pub stops: Vec<StopPlan>,
    pub starts: Vec<ScheduledStart>,
}

/// Number of handles in state `Running`.
pub open spec fn count_running(s: Seq<ServiceHandle>) -> nat
    decreases s.len(),
{
    if s.len() == 0 {
        0
    } else {
        count_running(s.drop_last()) + if s.last().state == ServiceState::Running { 1nat } else { 0nat }
    }
}

/// Overall classification: every service running, some running, none running.
pub open spec fn overall_label(running: nat, total: nat) -> Seq<char> {
    if running == total {
        "Healthy"@
    } else if running > 0 {
        "Degraded"@
    } else {
        "Unhealthy"@
    }
}

/// Whole seconds since the recorded start; zero if the clock reads earlier.
pub open spec fn uptime_of(h: ServiceHandle, now_ms: u64) -> Option<u64> {
    match h.start_time {
        Some(t) => Some(if now_ms >= t { ((now_ms - t) / 1000) as u64 } else { 0u64 }),
        None => None,
    }
}

/// A report line describes a handle.
pub open spec fn describes(st: ServiceStatus, h: ServiceHandle, now_ms: u64, ts: Seq<char>) -> bool {
    &&& st.name@ == h.config.name@
    &&& st.status@ == state_label(h.state)
    &&& st.pid == h.pid
    &&& st.uptime == uptime_of(h, now_ms)
    &&& st.last_check@ == ts
}

/// A report describes the handles, in order, at the given time.
pub open spec fn reports(r: SystemStatus, s: Seq<ServiceHandle>, now_ms: u64, ts: Seq<char>) -> bool {
    &&& r.services@.len() == s.len()
    &&& forall|i: int| 0 <= i < s.len() ==> describes(#[trigger] r.services@[i], s[i], now_ms, ts)
    &&& r.overall_health@ == overall_label(count_running(s), s.len())
    &&& r.timestamp@ == ts
}

/// Message carried by an error.
pub open spec fn error_text(e: ServiceError) -> Seq<char> {
    match e {
        ServiceError::NotFound { service } => "Service not found: "@ + service@,
        ServiceError::AlreadyRegistered { service } => "Service already registered: "@ + service@,
        ServiceError::SpawnFailed { service, reason } => "Failed to start service "@ + service@ + ": "@
            + reason@,
    }
}

impl ServiceError {
    pub fn message(&self) -> (r: String)
        ensures
            r@ == error_text(*self),
    {
        match self {
            ServiceError::NotFound { service } => {
                let mut r = String::from_str("Service not found: ");
                r.append(service.as_str());
                r
            },
            ServiceError::AlreadyRegistered { service } => {
                let mut r = String::from_str("Service already registered: ");
                r.append(service.as_str());
                r
            },
            ServiceError::SpawnFailed { service, reason } => {
                let mut r = String::from_str("Failed to start service ");
                r.append(service.as_str());
                r.append(": ");
                r.append(reason.as_str());
                r
            },
        }
    }
}

pub open spec fn reason_empty_command() -> Seq<char> {
    "empty command"@
}

/// Effect of a start command on a handle.
pub open spec fn after_start(h: ServiceHandle) -> ServiceHandle {
    if h.state == ServiceState::Running {
        h
    } else if h.config.command@.len() == 0 {
        ServiceHandle { state: ServiceState::Failed, ..h }
    } else {
        ServiceHandle { state: ServiceState::Starting, ..h }
    }
}

/// The launch request matches the configuration: first word is the program.
pub open spec fn launch_matches(l: LaunchSpec, c: ServiceConfig) -> bool {
    &&& c.command@.len() > 0
    &&& l.program@ == c.command@[0]@
    &&& l.args.deep_view() == c.command.deep_view().drop_first()
    &&& l.working_dir.deep_view() == c.working_dir.deep_view()
    &&& l.env_vars.deep_view() == c.env_vars.deep_view()
}

/// What a start command on a handle returns.
pub open spec fn start_result(h: ServiceHandle, r: Result<StartPlan, ServiceError>) -> bool {
    if h.state == ServiceState::Running {
        r matches Ok(StartPlan::AlreadyRunning)
    } else if h.config.command@.len() == 0 {
        r matches Err(ServiceError::SpawnFailed { service, reason })
            && service@ == h.config.name@ && reason@ == reason_empty_command()
    } else {
        r matches Ok(StartPlan::Launch(l)) && launch_matches(l, h.config)
    }
}

/// Effect of reporting the spawn outcome for a start.
pub open spec fn after_spawn(h: ServiceHandle, outcome: Result<u32, String>, now_ms: u64) -> ServiceHandle {
    match outcome {
        Ok(pid) => ServiceHandle {
            pid: Some(pid),
            start_time: Some(now_ms),
            state: ServiceState::Running,
            ..h
        },
        Err(_) => ServiceHandle { state: ServiceState::Failed, ..h },
    }
}

/// Effect of a stop command on a handle: best effort, always ends `Stopped`.
pub open spec fn after_stop(h: ServiceHandle) -> ServiceHandle {
    if h.state == ServiceState::Stopped {
        h
    } else {
        ServiceHandle { pid: None, start_time: None, state: ServiceState::Stopped, ..h }
    }
}

/// What a stop command on a handle returns.
pub open spec fn stop_result(h: ServiceHandle, p: StopPlan) -> bool {
    if h.state == ServiceState::Stopped {
        p matches StopPlan::AlreadyStopped
    } else {
        p == (StopPlan::Terminate { pid: h.pid })
    }
}

/// Effect of a liveness poll on a handle.
pub open spec fn after_liveness(h: ServiceHandle, o: ProcessObservation, now_ms: u64) -> ServiceHandle {
    if h.pid is None {
        ServiceHandle { state: ServiceState::Stopped, start_time: None, ..h }
    } else if o == ProcessObservation::Exited {
        ServiceHandle { state: ServiceState::Failed, pid: None, ..h }
    } else if o == ProcessObservation::StillRunning {
        ServiceHandle { last_health_check: Some(now_ms), ..h }
    } else {
        h
    }
}

/// Whether a liveness poll reports the service alive.
pub open spec fn liveness_result(h: ServiceHandle, o: ProcessObservation) -> bool {
    h.pid is Some && o == ProcessObservation::StillRunning
}

/// Effect of a probe outcome on the service state.
pub open spec fn after_probe(h: ServiceHandle, healthy: bool) -> ServiceHandle {
    if healthy && h.state == ServiceState::Unhealthy {
        ServiceHandle { state: ServiceState::Running, ..h }
    } else if !healthy && h.state == ServiceState::Running {
        ServiceHandle { state: ServiceState::Unhealthy, ..h }
    } else {
        h
    }
}

pub open spec fn names_unique(s: Seq<ServiceHandle>) -> bool {
    forall|i: int, j: int|
        0 <= i < s.len() && 0 <= j < s.len() && i != j ==> s[i].config.name@ != s[j].config.name@
}

/// A stopped service tracks no process and no start time.
pub open spec fn handle_ok(h: ServiceHandle) -> bool {
    h.state == ServiceState::Stopped ==> h.pid is None && h.start_time is None
}

pub open spec fn registry_ok(s: Seq<ServiceHandle>) -> bool {
    &&& names_unique(s)
    &&& forall|i: int| 0 <= i < s.len() ==> handle_ok(#[trigger] s[i])
}

pub open spec fn holds_name(s: Seq<ServiceHandle>, name: Seq<char>) -> bool {
    exists|i: int| 0 <= i < s.len() && s[i].config.name@ == name
}

pub open spec fn position_of(s: Seq<ServiceHandle>, name: Seq<char>) -> int {
    choose|i: int| 0 <= i < s.len() && s[i].config.name@ == name
}

pub proof fn lemma_position_unique(s: Seq<ServiceHandle>, name: Seq<char>, i: int)
    requires
        names_unique(s),
        0 <= i < s.len(),
        s[i].config.name@ == name,
    ensures
        holds_name(s, name),
        position_of(s, name) == i,
{
}

pub(crate) fn clone_words(v: &Vec<String>, from: usize) -> (r: Vec<String>)
    requires
        from <= v@.len(),
    ensures
        r.deep_view() == v.deep_view().subrange(from as int, v@.len() as int),
{
    let mut r: Vec<String> = Vec::new();
    let mut i: usize = from;
    while i < v.len()
        invariant
            from <= i <= v@.len(),
            r@.len() == i - from,
            forall|k: int| 0 <= k < r@.len() ==> r@[k]@ == v@[from + k]@,
        decreases v@.len() - i,
    {
        r.push(v[i].clone());
        i = i + 1;
    }
    proof {
        let a = r.deep_view();
        let b = v.deep_view().subrange(from as int, v@.len() as int);
        assert forall|k: int| 0 <= k < a.len() implies a[k] == b[k] by {
            assert(a[k] == r@[k]@);
            assert(b[k] == v@[from + k]@);
        }
        assert(a =~= b);
    }
    r
}

fn clone_pairs(v: &Vec<(String, String)>) -> (r: Vec<(String, String)>)
    ensures
        r.deep_view() == v.deep_view(),
{
    let mut r: Vec<(String, String)> = Vec::new();
    let mut i: usize = 0;
    while i < v.len()
        invariant
            i <= v@.len(),
            r@.len() == i,
            forall|k: int| 0 <= k < i ==> r@[k].0@ == v@[k].0@ && r@[k].1@ == v@[k].1@,
        decreases v@.len() - i,
    {
        let pair = (v[i].0.clone(), v[i].1.clone());
        r.push(pair);
        i = i + 1;
    }
    proof {
        let a = r.deep_view();
        let b = v.deep_view();
        assert forall|k: int| 0 <= k < a.len() implies a[k] == b[k] by {
            assert(a[k] == r@[k].deep_view());
            assert(b[k] == v@[k].deep_view());
        }
        assert(a =~= b);
    }
    r
}

fn clone_opt_text(o: &Option<String>) -> (r: Option<String>)
    ensures
        r.deep_view() == o.deep_view(),
{
    match o {
        Some(s) => Some(s.clone()),
        None => None,
    }
}

/// The launch request for a configuration with a non-empty command.
fn launch_spec(c: &ServiceConfig) -> (l: LaunchSpec)
    requires
        c.command@.len() > 0,
    ensures
        launch_matches(l, *c),
{
    let l = LaunchSpec {
        program: c.command[0].clone(),
        args: clone_words(&c.command, 1),
        working_dir: clone_opt_text(&c.working_dir),
        env_vars: clone_pairs(&c.env_vars),
    };
    proof {
        assert(c.command.deep_view().drop_first() =~= c.command.deep_view().subrange(
            1,
            c.command@.len() as int,
        ));
    }
    l
}

pub proof fn lemma_update_keeps_unique(s: Seq<ServiceHandle>, i: int, h: ServiceHandle)
    requires
        registry_ok(s),
        0 <= i < s.len(),
        h.config.name@ == s[i].config.name@,
        handle_ok(h),
    ensures
        registry_ok(s.update(i, h)),
{
    let t = s.update(i, h);
    assert forall|a: int, b: int|
        0 <= a < t.len() && 0 <= b < t.len() && a != b implies t[a].config.name@
        != t[b].config.name@ by {
        assert(s[a].config.name@ == t[a].config.name@);
        assert(s[b].config.name@ == t[b].config.name@);
    }
}

/// The registry of services, in registration order, with unique names.
pub struct ServiceManager {
    services: Vec<ServiceHandle>,
}

impl ServiceManager {
    pub closed spec fn handles(&self) -> Seq<ServiceHandle> {
        self.services@
    }

    pub open spec fn wf(&self) -> bool {
        registry_ok(self.handles())
    }

    pub open spec fn has_service(&self, name: Seq<char>) -> bool {
        holds_name(self.handles(), name)
    }

    pub open spec fn index_of(&self, name: Seq<char>) -> int {
        position_of(self.handles(), name)
    }

    pub fn new() -> (r: Self)
        ensures
            r.wf(),
            r.handles().len() == 0,
    {
        ServiceManager { services: Vec::new() }
    }

    pub fn len(&self) -> (r: usize)
        ensures
            r == self.handles().len(),
    {
        self.services.len()
    }

    pub fn handle_at(&self, i: usize) -> (r: &ServiceHandle)
        requires
            i < self.handles().len(),
        ensures
            *r == self.handles()[i as int],
    {
        &self.services[i]
    }

    fn find(&self, name: &str) -> (r: Option<usize>)
        requires
            self.wf(),
        ensures
            r is None <==> !self.has_service(name@),
            r matches Some(i) ==> i == self.index_of(name@) && i < self.handles().len(),
    {
        let mut i: usize = 0;
        while i < self.services.len()
            invariant
                registry_ok(self.services@),
                i <= self.services@.len(),
                forall|k: int| 0 <= k < i ==> self.services@[k].config.name@ != name@,
            decreases self.services@.len() - i,
        {
            if text_eq(self.services[i].config.name.as_str(), name) {
                proof {
                    lemma_position_unique(self.services@, name@, i as int);
                }
                return Some(i);
            }
            i = i + 1;
        }
        None
    }

    /// Looks up the handle of a service by name.
    pub fn get(&self, name: &str) -> (r: Option<&ServiceHandle>)
        requires
            self.wf(),
        ensures
            r is None <==> !self.has_service(name@),
            r matches Some(h) ==> *h == self.handles()[self.index_of(name@)],
    {
        match self.find(name) {
            Some(i) => Some(&self.services[i]),
            None => None,
        }
    }

    /// Adds a service in state `Stopped`; a name can be registered once.
    pub fn register(&mut self, config: ServiceConfig) -> (r: Result<(), ServiceError>)
        requires
            old(self).wf(),
        ensures
            final(self).wf(),
            old(self).has_service(config.name@) ==> (r matches Err(ServiceError::AlreadyRegistered { service })
                && service@ == config.name@ && final(self).handles() == old(self).handles()),
            !old(self).has_service(config.name@) ==> (r is Ok && final(self).handles() == old(self).handles().push(
                ServiceHandle {
                    config,
                    pid: None,
                    state: ServiceState::Stopped,
                    start_time: None,
                    restart_count: 0,
                    last_health_check: None,
                },
            )),
    {
        match self.find(config.name.as_str()) {
            Some(_) => Err(ServiceError::AlreadyRegistered { service: config.name.clone() }),
            None => {
                let h = ServiceHandle {
                    config,
                    pid: None,
                    state: ServiceState::Stopped,
                    start_time: None,
                    restart_count: 0,
                    last_health_check: None,
                };
                self.services.push(h);
                proof {
                    let s = self.services@;
                    assert forall|i: int, j: int|
                        0 <= i < s.len() && 0 <= j < s.len() && i != j implies s[i].config.name@
                        != s[j].config.name@ by {
                        if i == s.len() - 1 {
                            assert(old(self).services@[j] == s[j]);
                        } else if j == s.len() - 1 {
                            assert(old(self).services@[i] == s[i]);
                        }
                    }
                    assert forall|i: int| 0 <= i < s.len() implies handle_ok(#[trigger] s[i]) by {
                        if i < s.len() - 1 {
                            assert(old(self).services@[i] == s[i]);
                        }
                    }
                }
                Ok(())
            },
        }
    }

    fn start_at(&mut self, i: usize) -> (r: Result<StartPlan, ServiceError>)
        requires
            old(self).wf(),
            i < old(self).handles().len(),
        ensures
            final(self).wf(),
            final(self).handles() == old(self).handles().update(i as int, after_start(old(self).handles()[i as int])),
            start_result(old(self).handles()[i as int], r),
    {
        let ghost h0 = self.services@[i as int];
        if self.services[i].state == ServiceState::Running {
            proof {
                assert(self.services@ =~= self.services@.update(i as int, h0));
            }
            return Ok(StartPlan::AlreadyRunning);
        }
        if self.services[i].config.command.len() == 0 {
            let service = self.services[i].config.name.clone();
            self.services[i].state = ServiceState::Failed;
            proof {
                lemma_update_keeps_unique(old(self).services@, i as int, self.services@[i as int]);
            }
            return Err(ServiceError::SpawnFailed { service, reason: String::from_str("empty command") });
        }
        let plan = launch_spec(&self.services[i].config);
        self.services[i].state = ServiceState::Starting;
        proof {
            lemma_update_keeps_unique(old(self).services@, i as int, self.services@[i as int]);
        }
        Ok(StartPlan::Launch(plan))
    }

    /// Start command. A running service is left alone; otherwise the service
    /// becomes `Starting` and the caller is told what to spawn. A service whose
    /// command is empty cannot be spawned and becomes `Failed`.
    pub fn start_service(&mut self, name: &str) -> (r: Result<StartPlan, ServiceError>)
        requires
            old(self).wf(),
        ensures
            final(self).wf(),
            !old(self).has_service(name@) ==> (r matches Err(ServiceError::NotFound { service })
                && service@ == name@ && final(self).handles() == old(self).handles()),
            old(self).has_service(name@) ==> ({
                let i = old(self).index_of(name@);
                &&& final(self).handles() == old(self).handles().update(i, after_start(old(self).handles()[i]))
                &&& start_result(old(self).handles()[i], r)
            }),
    {
        match self.find(name) {
            Some(i) => self.start_at(i),
            None => Err(ServiceError::NotFound { service: String::from_str(name) }),
        }
    }

    /// Reports how the spawn asked for by a start command went.
    pub fn complete_start(&mut self, name: &str, outcome: Result<u32, String>, now_ms: u64) -> (r: Result<(), ServiceError>)
        requires
            old(self).wf(),
        ensures
            final(self).wf(),
            !old(self).has_service(name@) ==> (r matches Err(ServiceError::NotFound { service })
                && service@ == name@ && final(self).handles() == old(self).handles()),
            old(self).has_service(name@) ==> ({
                let i = old(self).index_of(name@);
                &&& final(self).handles() == old(self).handles().update(i, after_spawn(old(self).handles()[i], outcome, now_ms))
                &&& match outcome {
                    Ok(_) => r is Ok,
                    Err(e) => r matches Err(ServiceError::SpawnFailed { service, reason })
                        && service@ == name@ && reason@ == e@,
                }
            }),
    {
        match self.find(name) {
            Some(i) => {
                match outcome {
                    Ok(pid) => {
                        self.services[i].pid = Some(pid);
                        self.services[i].start_time = Some(now_ms);
                        self.services[i].state = ServiceState::Running;
                        proof {
                            assert(self.services@ =~= old(self).services@.update(i as int, self.services@[i as int]));
                            lemma_update_keeps_unique(old(self).services@, i as int, self.services@[i as int]);
                        }
                        Ok(())
                    },
                    Err(e) => {
                        self.services[i].state = ServiceState::Failed;
                        proof {
                            lemma_update_keeps_unique(old(self).services@, i as int, self.services@[i as int]);
                        }
                        Err(ServiceError::SpawnFailed { service: String::from_str(name), reason: e })
                    },
                }
            },
            None => Err(ServiceError::NotFound { service: String::from_str(name) }),
        }
    }

    fn stop_at(&mut self, i: usize) -> (r: StopPlan)
        requires
            old(self).wf(),
            i < old(self).handles().len(),
        ensures
            final(self).wf(),
            final(self).handles() == old(self).handles().update(i as int, after_stop(old(self).handles()[i as int])),
            stop_result(old(self).handles()[i as int], r),
    {
        let ghost h0 = self.services@[i as int];
        if self.services[i].state == ServiceState::Stopped {
            proof {
                assert(self.services@ =~= self.services@.update(i as int, h0));
            }
            return StopPlan::AlreadyStopped;
        }
        let pid = self.services[i].pid;
        self.services[i].pid = None;
        self.services[i].start_time = None;
        self.services[i].state = ServiceState::Stopped;
        proof {
            assert(self.services@ =~= old(self).services@.update(i as int, self.services@[i as int]));
            lemma_update_keeps_unique(old(self).services@, i as int, self.services@[i as int]);
        }
        StopPlan::Terminate { pid }
    }

    /// Stop command. A stopped service is left alone; otherwise the service
    /// becomes `Stopped` with no process and no start time, whatever the
    /// termination of its process then reports.
    pub fn stop_service(&mut self, name: &str) -> (r: Result<StopPlan, ServiceError>)
        requires
            old(self).wf(),
        ensures
            final(self).wf(),
            !old(self).has_service(name@) ==> (r matches Err(ServiceError::NotFound { service })
                && service@ == name@ && final(self).handles() == old(self).handles()),
            old(self).has_service(name@) ==> ({
                let i = old(self).index_of(name@);
                &&& final(self).handles() == old(self).handles().update(i, after_stop(old(self).handles()[i]))
                &&& r matches Ok(p) && stop_result(old(self).handles()[i], p)
            }),
    {
        match self.find(name) {
            Some(i) => Ok(self.stop_at(i)),
            None => Err(ServiceError::NotFound { service: String::from_str(name) }),
        }
    }
    /// Restart command: stop, then start.
    pub fn restart_service(&mut self, name: &str) -> (r: Result<RestartPlan, ServiceError>)
        requires
            old(self).wf(),
        ensures
            final(self).wf(),
            !old(self).has_service(name@) ==> (r matches Err(ServiceError::NotFound { service })
                && service@ == name@ && final(self).handles() == old(self).handles()),
            old(self).has_service(name@) ==> ({
                let i = old(self).index_of(name@);
                let h = old(self).handles()[i];
                &&& final(self).handles() == old(self).handles().update(i, after_start(after_stop(h)))
                &&& r matches Ok(p) && stop_result(h, p.stop) && start_result(after_stop(h), p.start)
            }),
    {
        match self.find(name) {
            Some(i) => {
                let stop = self.stop_at(i);
                let start = self.start_at(i);
                proof {
                    assert(self.handles() =~= old(self).handles().update(i as int, after_start(after_stop(old(self).handles()[i as int]))));
                }
                Ok(RestartPlan { stop, start })
            },
            None => Err(ServiceError::NotFound { service: String::from_str(name) }),
        }
    }

    /// Start command on every service, in registration order, with launches
    /// spaced `START_STAGGER_MS` apart from `now_ms`. A failure of one service
    /// does not keep the others from being started.
    pub fn start_all_services(&mut self, now_ms: u64) -> (r: Vec<ScheduledStart>)
        requires
            old(self).wf(),
            now_ms + old(self).handles().len() * START_STAGGER_MS <= u64::MAX,
        ensures
            final(self).wf(),
            final(self).handles().len() == old(self).handles().len(),
            r@.len() == old(self).handles().len(),
            forall|i: int| 0 <= i < r@.len() ==> {
                &&& #[trigger] final(self).handles()[i] == after_start(old(self).handles()[i])
                &&& r@[i].name@ == old(self).handles()[i].config.name@
                &&& r@[i].at_ms == now_ms + i * START_STAGGER_MS
                &&& start_result(old(self).handles()[i], r@[i].plan)
            },
    {
        let mut r: Vec<ScheduledStart> = Vec::new();
        let n = self.services.len();
        let mut i: usize = 0;
        while i < n
            invariant
                n == old(self).handles().len(),
                n == self.handles().len(),
                now_ms + n * START_STAGGER_MS <= u64::MAX,
                self.wf(),
                i <= n,
                r@.len() == i,
                forall|k: int| i <= k < n ==> self.handles()[k] == old(self).handles()[k],
                forall|k: int| 0 <= k < i ==> {
                    &&& #[trigger] self.handles()[k] == after_start(old(self).handles()[k])
                    &&& r@[k].name@ == old(self).handles()[k].config.name@
                    &&& r@[k].at_ms == now_ms + k * START_STAGGER_MS
                    &&& start_result(old(self).handles()[k], r@[k].plan)
                },
            decreases n - i,
        {
            proof {
                assert(i * START_STAGGER_MS <= n * START_STAGGER_MS) by (nonlinear_arith)
                    requires
                        i <= n,
                ;
            }
            let at: u64 = now_ms + (i as u64) * START_STAGGER_MS;
            let name = self.services[i].config.name.clone();
            let plan = self.start_at(i);
            r.push(ScheduledStart { name, at_ms: at, plan });
            i = i + 1;
        }
        r
    }

    /// Stop command on every service, in registration order.
    pub fn stop_all_services(&mut self) -> (r: Vec<StopPlan>)
        requires
            old(self).wf(),
        ensures
            final(self).wf(),
            final(self).handles().len() == old(self).handles().len(),
            r@.len() == old(self).handles().len(),
            forall|i: int| 0 <= i < r@.len() ==> {
                &&& #[trigger] final(self).handles()[i] == after_stop(old(self).handles()[i])
                &&& stop_result(old(self).handles()[i], r@[i])
            },
    {
        let mut r: Vec<StopPlan> = Vec::new();
        let n = self.services.len();
        let mut i: usize = 0;
        while i < n
            invariant
                n == old(self).handles().len(),
                n == self.handles().len(),
                self.wf(),
                i <= n,
                r@.len() == i,
                forall|k: int| i <= k < n ==> self.handles()[k] == old(self).handles()[k],
                forall|k: int| 0 <= k < i ==> {
                    &&& #[trigger] self.handles()[k] == after_stop(old(self).handles()[k])
                    &&& stop_result(old(self).handles()[k], r@[k])
                },
            decreases n - i,
        {
            let plan = self.stop_at(i);
            r.push(plan);
            i = i + 1;
        }
        r
    }

    /// Stop of every service, then a staggered start of every service that
    /// begins `RESTART_PAUSE_MS` after `now_ms`.
    pub fn restart_all_services(&mut self, now_ms: u64) -> (r: RestartAllPlan)
        requires
            old(self).wf(),
            now_ms + RESTART_PAUSE_MS + old(self).handles().len() * START_STAGGER_MS <= u64::MAX,
        ensures
            final(self).wf(),
            final(self).handles().len() == old(self).handles().len(),
            r.stops@.len() == old(self).handles().len(),
            r.starts@.len() == old(self).handles().len(),
            forall|i: int| 0 <= i < r.stops@.len() ==> {
                let h = old(self).handles()[i];
                &&& #[trigger] final(self).handles()[i] == after_start(after_stop(h))
                &&& stop_result(h, r.stops@[i])
                &&& r.starts@[i].name@ == h.config.name@
                &&& r.starts@[i].at_ms == now_ms + RESTART_PAUSE_MS + i * START_STAGGER_MS
                &&& start_result(after_stop(h), r.starts@[i].plan)
            },
    {
        let stops = self.stop_all_services();
        let ghost mid = self.handles();
        let starts = self.start_all_services(now_ms + RESTART_PAUSE_MS);
        proof {
            assert forall|i: int| 0 <= i < stops@.len() implies mid[i] == after_stop(old(self).handles()[i]) by {
                assert(mid[i] == after_stop(old(self).handles()[i]));
            }
        }
        RestartAllPlan { stops, starts }
    }

    /// Start command on every service marked for automatic start, in
    /// registration order; an entry is `None` where a service is not marked.
    pub fn initialize_services(&mut self, now_ms: u64) -> (r: Vec<Option<ScheduledStart>>)
        requires
            old(self).wf(),
        ensures
            final(self).wf(),
            final(self).handles().len() == old(self).handles().len(),
            r@.len() == old(self).handles().len(),
            forall|i: int| 0 <= i < r@.len() ==> {
                let h = old(self).handles()[i];
                if h.config.auto_start {
                    &&& #[trigger] final(self).handles()[i] == after_start(h)
                    &&& r@[i] matches Some(s) && s.name@ == h.config.name@ && s.at_ms == now_ms
                        && start_result(h, s.plan)
                } else {
                    final(self).handles()[i] == h && r@[i] is None
                }
            },
    {
        let mut r: Vec<Option<ScheduledStart>> = Vec::new();
        let n = self.services.len();
        let mut i: usize = 0;
        while i < n
            invariant
                n == old(self).handles().len(),
                n == self.handles().len(),
                self.wf(),
                i <= n,
                r@.len() == i,
                forall|k: int| i <= k < n ==> self.handles()[k] == old(self).handles()[k],
                forall|k: int| 0 <= k < i ==> {
                    let h = old(self).handles()[k];
                    if h.config.auto_start {
                        &&& #[trigger] self.handles()[k] == after_start(h)
                        &&& r@[k] matches Some(s) && s.name@ == h.config.name@ && s.at_ms == now_ms
                            && start_result(h, s.plan)
                    } else {
                        self.handles()[k] == h && r@[k] is None
                    }
                },
            decreases n - i,
        {
            if self.services[i].config.auto_start {
                let name = self.services[i].config.name.clone();
                let plan = self.start_at(i);
                r.push(Some(ScheduledStart { name, at_ms: now_ms, plan }));
            } else {
                r.push(None);
            }
            i = i + 1;
        }
        r
    }

    /// Liveness poll of a service's tracked process. A service with no process
    /// is reconciled to `Stopped`; one whose process has exited to `Failed`,
    /// without the process. Returns whether the process is alive.
    pub fn check_service_health(&mut self, name: &str, observed: ProcessObservation, now_ms: u64) -> (r: Result<bool, ServiceError>)
        requires
            old(self).wf(),
        ensures
            final(self).wf(),
            !old(self).has_service(name@) ==> (r matches Err(ServiceError::NotFound { service })
                && service@ == name@ && final(self).handles() == old(self).handles()),
            old(self).has_service(name@) ==> ({
                let i = old(self).index_of(name@);
                let h = old(self).handles()[i];
                &&& final(self).handles() == old(self).handles().update(i, after_liveness(h, observed, now_ms))
                &&& r == Ok::<bool, ServiceError>(liveness_result(h, observed))
            }),
    {
        match self.find(name) {
            Some(i) => {
                let alive = if self.services[i].pid.is_none() {
                    self.services[i].state = ServiceState::Stopped;
                    self.services[i].start_time = None;
                    false
                } else if observed == ProcessObservation::Exited {
                    self.services[i].state = ServiceState::Failed;
                    self.services[i].pid = None;
                    false
                } else if observed == ProcessObservation::StillRunning {
                    self.services[i].last_health_check = Some(now_ms);
                    true
                } else {
                    false
                };
                proof {
                    assert(self.services@ =~= old(self).services@.update(i as int, self.services@[i as int]));
                    lemma_update_keeps_unique(old(self).services@, i as int, self.services@[i as int]);
                }
                Ok(alive)
            },
            None => Err(ServiceError::NotFound { service: String::from_str(name) }),
        }
    }

    /// Applies a probe outcome to the service state: a healthy probe restores
    /// `Running` from `Unhealthy`, a failed one moves `Running` to `Unhealthy`.
    pub fn record_health(&mut self, name: &str, healthy: bool) -> (r: Result<(), ServiceError>)
        requires
            old(self).wf(),
        ensures
            final(self).wf(),
            !old(self).has_service(name@) ==> (r matches Err(ServiceError::NotFound { service })
                && service@ == name@ && final(self).handles() == old(self).handles()),
            old(self).has_service(name@) ==> ({
                let i = old(self).index_of(name@);
                &&& final(self).handles() == old(self).handles().update(i, after_probe(old(self).handles()[i], healthy))
                &&& r is Ok
            }),
    {
        match self.find(name) {
            Some(i) => {
                if healthy && self.services[i].state == ServiceState::Unhealthy {
                    self.services[i].state = ServiceState::Running;
                } else if !healthy && self.services[i].state == ServiceState::Running {
                    self.services[i].state = ServiceState::Unhealthy;
                }
                proof {
                    assert(self.services@ =~= old(self).services@.update(i as int, self.services@[i as int]));
                    lemma_update_keeps_unique(old(self).services@, i as int, self.services@[i as int]);
                }
                Ok(())
            },
            None => Err(ServiceError::NotFound { service: String::from_str(name) }),
        }
    }
    /// Report over all services at `now_ms`, stamped with `timestamp`.
    pub fn snapshot(&self, now_ms: u64, timestamp: &str) -> (r: SystemStatus)
        ensures
            reports(r, self.handles(), now_ms, timestamp@),
    {
        let mut services: Vec<ServiceStatus> = Vec::new();
        let mut running: usize = 0;
        let n = self.services.len();
        let mut i: usize = 0;
        while i < n
            invariant
                n == self.services@.len(),
                i <= n,
                running == count_running(self.services@.take(i as int)),
                running <= i,
                services@.len() == i,
                forall|k: int| 0 <= k < i ==> describes(#[trigger] services@[k], self.services@[k], now_ms, timestamp@),
            decreases n - i,
        {
            let h = &self.services[i];
            let uptime = match h.start_time {
                Some(t) => Some(if now_ms >= t { (now_ms - t) / 1000 } else { 0 }),
                None => None,
            };
            services.push(ServiceStatus {
                name: h.config.name.clone(),
                status: String::from_str(h.state.as_str()),
                pid: h.pid,
                uptime,
                last_check: String::from_str(timestamp),
            });
            proof {
                assert(self.services@.take(i + 1).drop_last() =~= self.services@.take(i as int));
            }
            if h.state == ServiceState::Running {
                running = running + 1;
            }
            i = i + 1;
        }
        proof {
            assert(self.services@.take(n as int) =~= self.services@);
        }
        let overall_health = if running == n {
            String::from_str("Healthy")
        } else if running > 0 {
            String::from_str("Degraded")
        } else {
            String::from_str("Unhealthy")
        };
        SystemStatus { services, overall_health, timestamp: String::from_str(timestamp) }
    }

    /// Report over all services, stamped with the UTC time `unix_secs`.
    pub fn get_system_status(&self, now_ms: u64, unix_secs: u64) -> (r: SystemStatus)
        requires
            unix_secs <= MAX_TIMESTAMP_SECS,
        ensures
            reports(r, self.handles(), now_ms, rfc3339_of(unix_secs as nat)),
    {
        let ts = rfc3339_utc(unix_secs);
        self.snapshot(now_ms, ts.as_str())
    }
}

/// Stopping always ends in `Stopped` with no process and no start time.
pub proof fn lemma_stop_clears(h: ServiceHandle)
    requires
        handle_ok(h),
    ensures
        after_stop(h).state == ServiceState::Stopped,
        after_stop(h).pid is None,
        after_stop(h).start_time is None,
{
}

/// A start, its spawn report, and a stop leave the service `Stopped` with no
/// process and no uptime, whether or not a liveness poll in between found
/// that the process had already exited.
pub proof fn lemma_start_then_stop(
    h: ServiceHandle,
    outcome: Result<u32, String>,
    now_ms: u64,
    observed: ProcessObservation,
    later_ms: u64,
)
    requires
        handle_ok(h),
    ensures
        ({
            let started = after_spawn(after_start(h), outcome, now_ms);
            &&& after_stop(started).state == ServiceState::Stopped
            &&& after_stop(started).pid is None
            &&& after_stop(started).start_time is None
            &&& after_stop(after_liveness(started, observed, later_ms)).state == ServiceState::Stopped
            &&& after_stop(after_liveness(started, observed, later_ms)).pid is None
            &&& after_stop(after_liveness(started, observed, later_ms)).start_time is None
        }),
{
}

/// Starting a running service changes nothing and asks for no spawn.
pub proof fn lemma_start_running_is_noop(h: ServiceHandle, r: Result<StartPlan, ServiceError>)
    requires
        h.state == ServiceState::Running,
        start_result(h, r),
    ensures
        after_start(h) == h,
        r matches Ok(StartPlan::AlreadyRunning),
{
}

/// Stopping a stopped service changes nothing and succeeds.
pub proof fn lemma_stop_stopped_is_noop(h: ServiceHandle, p: StopPlan)
    requires
        h.state == ServiceState::Stopped,
        stop_result(h, p),
    ensures
        after_stop(h) == h,
        p matches StopPlan::AlreadyStopped,
{
}

/// The running count lies between zero and the number of services, reaches
/// the number exactly when every service runs, and is zero exactly when none does.
pub proof fn lemma_count_running(s: Seq<ServiceHandle>)
    ensures
        count_running(s) <= s.len(),
        count_running(s) == s.len() <==> forall|i: int| 0 <= i < s.len() ==> #[trigger] s[i].state == ServiceState::Running,
        count_running(s) == 0 <==> forall|i: int| 0 <= i < s.len() ==> #[trigger] s[i].state != ServiceState::Running,
    decreases s.len(),
{
    if s.len() > 0 {
        let t = s.drop_last();
        lemma_count_running(t);
        assert forall|i: int| 0 <= i < t.len() implies t[i] == s[i] by {}
        if forall|i: int| 0 <= i < s.len() ==> #[trigger] s[i].state == ServiceState::Running {
            assert(s[s.len() - 1].state == ServiceState::Running);
        }
        if forall|i: int| 0 <= i < s.len() ==> #[trigger] s[i].state != ServiceState::Running {
            assert(s[s.len() - 1].state != ServiceState::Running);
        }
        if count_running(s) == s.len() {
            assert forall|i: int| 0 <= i < s.len() implies #[trigger] s[i].state == ServiceState::Running by {
                if i < s.len() - 1 {
                    assert(t[i] == s[i]);
                }
            }
        }
        if count_running(s) == 0 {
            assert forall|i: int| 0 <= i < s.len() implies #[trigger] s[i].state != ServiceState::Running by {
                if i < s.len() - 1 {
                    assert(t[i] == s[i]);
                }
            }
        }
    }
}

/// Overall health is `Healthy` iff every service runs, `Unhealthy` iff there
/// are services and none runs, and `Degraded` otherwise.
pub proof fn lemma_overall_health(s: Seq<ServiceHandle>)
    ensures
        (overall_label(count_running(s), s.len()) == "Healthy"@) <==> forall|i: int| 0 <= i < s.len() ==> #[trigger] s[i].state == ServiceState::Running,
        (overall_label(count_running(s), s.len()) == "Unhealthy"@) <==> (s.len() > 0 && forall|i: int| 0 <= i < s.len() ==> #[trigger] s[i].state != ServiceState::Running),
        (overall_label(count_running(s), s.len()) == "Degraded"@) <==> (exists|i: int| 0 <= i < s.len() && #[trigger] s[i].state == ServiceState::Running)
            && (exists|i: int| 0 <= i < s.len() && #[trigger] s[i].state != ServiceState::Running),
{
    lemma_count_running(s);
    reveal_strlit("Healthy");
    reveal_strlit("Unhealthy");
    reveal_strlit("Degraded");
    assert("Healthy"@ != "Unhealthy"@ && "Healthy"@ != "Degraded"@ && "Degraded"@ != "Unhealthy"@) by {
        assert("Healthy"@[0] != "Unhealthy"@[0]);
        assert("Healthy"@[0] != "Degraded"@[0]);
        assert("Degraded"@[0] != "Unhealthy"@[0]);
    }
}

/// In a batch that names the services in registration order and launches
/// them `START_STAGGER_MS` apart, every launch comes at least that long after
/// each earlier one.
pub proof fn lemma_batch_staggered(starts: Seq<ScheduledStart>, before: Seq<ServiceHandle>, now_ms: u64)
    requires
        starts.len() == before.len(),
        forall|i: int| 0 <= i < starts.len() ==> {
            &&& #[trigger] starts[i].at_ms == now_ms + i * START_STAGGER_MS
            &&& starts[i].name@ == before[i].config.name@
        },
    ensures
        forall|i: int, j: int| 0 <= i < j < starts.len() ==> #[trigger] starts[j].at_ms >= #[trigger] starts[i].at_ms + START_STAGGER_MS,
{
    assert forall|i: int, j: int| 0 <= i < j < starts.len() implies #[trigger] starts[j].at_ms >= #[trigger] starts[i].at_ms + START_STAGGER_MS by {
        assert(j * START_STAGGER_MS >= (i + 1) * START_STAGGER_MS) by (nonlinear_arith)
            requires
                i < j,
        ;
    }
}

} // verus!
