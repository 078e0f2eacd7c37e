//! The life-cycle status of a job or a worker, its textual form, and the
//! state that the flow engine is told about.

use vstd::prelude::*;
use crate::text::str_eq;

verus! {

/// Status of a job or of a worker.
#[derive(Clone, Copy, Debug, PartialEq, Eq, Structural)]
pub enum Status {
    New,
    Running,
    Success,
    Failed,
    Killing,
    Killed,
    Queued,
    Unknown,
    Idle,
    DisQualified,
}

/// The name under which a status travels between the controller, the agents
/// and the launch scripts.
pub open spec fn status_name(s: Status) -> Seq<char> {
    match s {
        Status::New => "new"@,
        Status::Running => "running"@,
        Status::Success => "success"@,
        Status::Failed => "failed"@,
        Status::Killing => "killing"@,
        Status::Killed => "killed"@,
        Status::Queued => "queued"@,
        Status::Unknown => "unknown"@,
        Status::Idle => "idle"@,
        Status::DisQualified => "disqualified"@,
    }
}

/// The status that a name stands for: the names of `status_name`, with
/// "terminated" read as killed, and every other text read as unknown.
pub open spec fn status_from_name(name: Seq<char>) -> Status {
    if name == "new"@ {
        Status::New
    } else if name == "running"@ {
        Status::Running
    } else if name == "success"@ {
        Status::Success
    } else if name == "failed"@ {
        Status::Failed
    } else if name == "killing"@ {
        Status::Killing
    } else if name == "terminated"@ {
        Status::Killed
    } else if name == "killed"@ {
        Status::Killed
    } else if name == "queued"@ {
        Status::Queued
    } else if name == "idle"@ {
        Status::Idle
    } else if name == "disqualified"@ {
        Status::DisQualified
    } else {
        Status::Unknown
    }
}

/// The states of a task instance in the flow engine that the scheduler reports.
#[derive(Clone, Copy, Debug, PartialEq, Eq, Structural)]
pub enum FlowEngineState {
    Queued,
    Running,
    Failed,
    Killed,
}

/// The flow-engine state reported for a job status.
pub open spec fn flow_engine_state_of(s: Status) -> FlowEngineState {
    match s {
        Status::Queued => FlowEngineState::Queued,
        Status::Running => FlowEngineState::Running,
        Status::Failed => FlowEngineState::Failed,
        Status::Killed => FlowEngineState::Killed,
        Status::DisQualified => FlowEngineState::Failed,
        _ => FlowEngineState::Running,
    }
}

/// Whether a job in this status has finished for good.
pub open spec fn is_completion_status(s: Status) -> bool {
    s == Status::Success || s == Status::Failed || s == Status::Killed || s == Status::DisQualified
}

impl Status {
    /// The name of the status.
    pub fn to_string(&self) -> (s: String)
        ensures
            s@ == status_name(*self),
    {
        match self {
            Status::New => String::from_str("new"),
            Status::Running => String::from_str("running"),
            Status::Success => String::from_str("success"),
            Status::Failed => String::from_str("failed"),
            Status::Killing => String::from_str("killing"),
            Status::Killed => String::from_str("killed"),
            Status::Queued => String::from_str("queued"),
            Status::Idle => String::from_str("idle"),
            Status::Unknown => String::from_str("unknown"),
            Status::DisQualified => String::from_str("disqualified"),
        }
    }

    /// Reads a status from its name.
    pub fn from_str(status: &str) -> (s: Status)
        ensures
            s == status_from_name(status@),
    {
        if str_eq(status, "new") {
            Status::New
        } else if str_eq(status, "running") {
            Status::Running
        } else if str_eq(status, "success") {
            Status::Success
        } else if str_eq(status, "failed") {
            Status::Failed
        } else if str_eq(status, "killing") {
            Status::Killing
        } else if str_eq(status, "terminated") {
            Status::Killed
        } else if str_eq(status, "killed") {
            Status::Killed
        } else if str_eq(status, "queued") {
            Status::Queued
        } else if str_eq(status, "idle") {
            Status::Idle
        } else if str_eq(status, "disqualified") {
            Status::DisQualified
        } else {
            Status::Unknown
        }
    }

    /// The state reported to the flow engine for this status.
    pub fn to_flow_engine_state(&self) -> (r: FlowEngineState)
        ensures
            r == flow_engine_state_of(*self),
    {
        match self {
            Status::Queued => FlowEngineState::Queued,
            Status::Running => FlowEngineState::Running,
            Status::Failed => FlowEngineState::Failed,
            Status::Killed => FlowEngineState::Killed,
            Status::DisQualified => FlowEngineState::Failed,
            _ => FlowEngineState::Running,
        }
    }

    /// Whether a job in this status has finished for good.
    pub fn is_completion(&self) -> (r: bool)
        ensures
            r == is_completion_status(*self),
    {
        match self {
            Status::Success | Status::Failed | Status::Killed | Status::DisQualified => true,
            _ => false,
        }
    }
}

/// Reading back the name of a status gives the status again.
pub proof fn lemma_status_name_round_trip(s: Status)
    ensures
        status_from_name(status_name(s)) == s,
{
    reveal_strlit("new");
    reveal_strlit("running");
    reveal_strlit("success");
    reveal_strlit("failed");
    reveal_strlit("killing");
    reveal_strlit("killed");
    reveal_strlit("terminated");
    reveal_strlit("queued");
    reveal_strlit("unknown");
    reveal_strlit("idle");
    reveal_strlit("disqualified");
    let n = status_name(s);
    match s {
        Status::New => { assert(n[0] == 'n'); assert(status_from_name(n) == s); }
        Status::Running => { assert(n[0] == 'r'); assert(status_from_name(n) == s); }
        Status::Success => { assert(n[0] == 's'); assert(status_from_name(n) == s); }
        Status::Failed => { assert(n[0] == 'f'); assert(status_from_name(n) == s); }
        Status::Killing => { assert(n[0] == 'k' && n[5] == 'n'); assert(status_from_name(n) == s); }
        Status::Killed => { assert(n[0] == 'k' && n.len() == 6 && n[5] == 'd'); assert(n != "killing"@); assert(n != "failed"@); assert(status_from_name(n) == s); }
        Status::Queued => { assert(n[0] == 'q'); assert(status_from_name(n) == s); }
        Status::Unknown => { assert(n[0] == 'u'); assert(status_from_name(n) == s); }
        Status::Idle => { assert(n[0] == 'i'); assert(status_from_name(n) == s); }
        Status::DisQualified => { assert(n[0] == 'd'); assert(status_from_name(n) == s); }
    }
}

} // verus!
