//! Agent-to-agent protocol records: agent cards, skills and task states, and the
//! direction of a channel message.
use vstd::prelude::*;
use crate::text::owned;

verus! {

/// What an agent can do besides plain requests.
#[derive(Debug, Clone, Copy, PartialEq, Eq, Structural)]
pub struct AgentCapabilities {
    pub streaming: bool,
    pub push_notifications: bool,
}

impl Default for AgentCapabilities {
    /// Neither streaming nor push notifications.
    fn default() -> (r: Self)
        ensures
            !r.streaming,
            !r.push_notifications,
    {
        AgentCapabilities { streaming: false, push_notifications: false }
    }
}

/// A skill an agent advertises.
#[derive(Debug, Clone, PartialEq, Eq)]
pub struct AgentSkill {
    pub id: String,
    pub name: String,
    pub description: Option<String>,
    pub tags: Vec<String>,
}

/// The card an agent serves at `/.well-known/agent.json`.
#[derive(Debug, Clone, PartialEq, Eq)]
pub struct AgentCard {
    pub name: String,
    pub description: Option<String>,
    pub url: String,
    pub version: Option<String>,
    pub capabilities: AgentCapabilities,
    pub skills: Vec<AgentSkill>,
}

/// The lifecycle state of a task.
#[derive(Debug, Clone, Copy, PartialEq, Eq, Structural)]
pub enum TaskStatus {
    Submitted,
    Working,
    Completed,
    Failed,
    Canceled,
}

/// The wire name of a task state.
pub open spec fn status_name(s: TaskStatus) -> Seq<char> {
    match s {
        TaskStatus::Submitted => "submitted"@,
        TaskStatus::Working => "working"@,
        TaskStatus::Completed => "completed"@,
        TaskStatus::Failed => "failed"@,
        TaskStatus::Canceled => "canceled"@,
    }
}

impl TaskStatus {
    /// The wire name of the state (lower case).
    pub fn as_str(self) -> (r: String)
        ensures
            r@ == status_name(self),
    {
        match self {
            TaskStatus::Submitted => owned("submitted"),
            TaskStatus::Working => owned("working"),
            TaskStatus::Completed => owned("completed"),
            TaskStatus::Failed => owned("failed"),
            TaskStatus::Canceled => owned("canceled"),
        }
    }
}

} // verus!
