//! The states of a service.

use vstd::prelude::*;

verus! {

#[derive(Clone, Copy, Debug, PartialEq, Eq, Structural)]
pub enum ServiceStatus {
    Unknown,
    Stopped,
    StartPending,
    StopPending,
    Running,
    ContinuePending,
    PausePending,
    Paused,
}

/// The state that the service manager's number stands for.
pub open spec fn status_of(raw: u32) -> ServiceStatus {
    if raw == 1 {
        ServiceStatus::Stopped
    } else if raw == 2 {
        ServiceStatus::StartPending
    } else if raw == 3 {
        ServiceStatus::StopPending
    } else if raw == 4 {
        ServiceStatus::Running
    } else if raw == 5 {
        ServiceStatus::ContinuePending
    } else if raw == 6 {
        ServiceStatus::PausePending
    } else if raw == 7 {
        ServiceStatus::Paused
    } else {
        ServiceStatus::Unknown
    }
}

impl ServiceStatus {
    pub fn from_raw_status(status: u32) -> (r: ServiceStatus)
        ensures
            r == status_of(status),
    {
        if status == 1 {
            ServiceStatus::Stopped
        } else if status == 2 {
            ServiceStatus::StartPending
        } else if status == 3 {
            ServiceStatus::StopPending
        } else if status == 4 {
            ServiceStatus::Running
        } else if status == 5 {
            ServiceStatus::ContinuePending
        } else if status == 6 {
            ServiceStatus::PausePending
        } else if status == 7 {
            ServiceStatus::Paused
        } else {
            ServiceStatus::Unknown
        }
    }

    /// The service manager's number for the state.
    pub fn raw(self) -> (r: u32)
        ensures
            status_of(r) == self,
            r <= 7,
    {
        match self {
            ServiceStatus::Unknown => 0,
            ServiceStatus::Stopped => 1,
            ServiceStatus::StartPending => 2,
            ServiceStatus::StopPending => 3,
            ServiceStatus::Running => 4,
            ServiceStatus::ContinuePending => 5,
            ServiceStatus::PausePending => 6,
            ServiceStatus::Paused => 7,
        }
    }

    /// The name of the state.
    pub open spec fn name(self) -> Seq<char> {
        match self {
            ServiceStatus::Unknown => "UNKNOWN"@,
            ServiceStatus::Stopped => "STOPPED"@,
            ServiceStatus::StartPending => "START_PENDING"@,
            ServiceStatus::StopPending => "STOP_PENDING"@,
            ServiceStatus::Running => "RUNNING"@,
            ServiceStatus::ContinuePending => "CONTINUE_PENDING"@,
            ServiceStatus::PausePending => "PAUSE_PENDING"@,
            ServiceStatus::Paused => "PAUSED"@,
        }
    }

    /// The name of the state.
    pub fn as_str(self) -> (r: &'static str)
        ensures
            r@ == self.name(),
    {
        match self {
            ServiceStatus::Unknown => "UNKNOWN",
            ServiceStatus::Stopped => "STOPPED",
            ServiceStatus::StartPending => "START_PENDING",
            ServiceStatus::StopPending => "STOP_PENDING",
            ServiceStatus::Running => "RUNNING",
            ServiceStatus::ContinuePending => "CONTINUE_PENDING",
            ServiceStatus::PausePending => "PAUSE_PENDING",
            ServiceStatus::Paused => "PAUSED",
        }
    }

    /// The name of the state.
    pub fn to_string(&self) -> (r: String)
        ensures
            r@ == self.name(),
    {
        let mut out = String::new();
        out.append(self.as_str());
        proof {
            assert(Seq::<char>::empty() + self.name() =~= self.name());
        }
        out
    }
}

} // verus!
