use vstd::prelude::*;

verus! {

/// Lifecycle state of a supervised service.
#[derive(Debug, Clone, Copy, PartialEq, Eq, Structural)]
pub enum ServiceState {
    Stopped,
    Starting,
    Running,
    Unhealthy,
    Failed,
    Restarting,
}

/// The label under which a state is reported to consumers.
pub open spec fn state_label(s: ServiceState) -> Seq<char> {
    match s {
        ServiceState::Stopped => "Stopped"@,
        ServiceState::Starting => "Starting"@,
        ServiceState::Running => "Running"@,
        ServiceState::Unhealthy => "Unhealthy"@,
        ServiceState::Failed => "Failed"@,
        ServiceState::Restarting => "Restarting"@,
    }
}

impl ServiceState {
    pub fn as_str(&self) -> (r: &'static str)
        ensures
            r@ == state_label(*self),
    {
        match self {
            ServiceState::Stopped => "Stopped",
            ServiceState::Starting => "Starting",
            ServiceState::Running => "Running",
            ServiceState::Unhealthy => "Unhealthy",
            ServiceState::Failed => "Failed",
            ServiceState::Restarting => "Restarting",
        }
    }
}

} // verus!
