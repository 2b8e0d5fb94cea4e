//! Events a running session reports to its client.
use vstd::prelude::*;

verus! {

/// What happened in a session.
#[derive(Debug, Clone, PartialEq, Eq)]
pub enum SessionEventData {
    TurnStarted,
    UserInput { content: String },
    ModelReasoning { content: String },
    ModelOutput { content: String },
    CompressionStarted { estimated_tokens: usize, trigger_compression_size: usize },
    CompressionCompleted { content: String },
    ToolCall { call_id: String, arguments: String },
    ToolOutput { call_id: String, output: String, completed: bool },
    /// A workflow node finished; `output` is its JSON output, absent when null.
    NodeCompleted { output: Option<String>, finished: bool },
    Failed { error: String },
    /// An event of another kind; `content` is its JSON payload.
    Custom { event_type: String, content: String },
    Completed { content: String },
}

impl SessionEventData {
    /// Events after which the session says nothing more: its answer, its
    /// failure, or the end of the whole workflow.
    pub open spec fn ends_session(&self) -> bool {
        match self {
            SessionEventData::Completed { .. } => true,
            SessionEventData::Failed { .. } => true,
            SessionEventData::NodeCompleted { finished, .. } => *finished,
            _ => false,
        }
    }
}

/// An event of a session turn, named after its source.
#[derive(Debug, Clone, PartialEq, Eq)]
pub struct SessionEvent {
    pub turn_id: u64,
    pub name: String,
    pub data: SessionEventData,
}

impl SessionEvent {
    /// An event of a single agent.
    pub fn single_agent(turn_id: u64, name: &str, data: SessionEventData) -> (e: SessionEvent)
        ensures
            e.turn_id == turn_id,
            e.name@ == name@,
            e.data == data,
    {
        SessionEvent { turn_id, name: name.to_string(), data }
    }

    /// Whether the event ends the session.
    pub fn is_terminal(&self) -> (b: bool)
        ensures
            b == self.data.ends_session(),
    {
        match &self.data {
            SessionEventData::Completed { .. } => true,
            SessionEventData::Failed { .. } => true,
            SessionEventData::NodeCompleted { finished, .. } => *finished,
            _ => false,
        }
    }
}

/// A session event as the client receives it, with where it comes from.
#[derive(Debug, Clone, PartialEq, Eq)]
pub struct SessionOutput {
    /// The plan of the parent agent, when the event comes from a nested agent.
    pub parament_plan_id: Option<String>,
    pub runtime_id: Option<String>,
    pub agent_name: Option<String>,
    pub node_id: Option<String>,
    pub plan_id: Option<String>,
    pub event: SessionEvent,
}

impl SessionOutput {
    /// Whether the event ends the client's session: events of nested agents never do.
    pub open spec fn ends_session(&self) -> bool {
        self.parament_plan_id is None && self.event.data.ends_session()
    }

    /// Whether the event ends the client's session.
    pub fn is_terminal(&self) -> (b: bool)
        ensures
            b == self.ends_session(),
    {
        self.parament_plan_id.is_none() && self.event.is_terminal()
    }
}

} // verus!

verus! {

/// What of an event is printed when the agent answers a one-off prompt:
/// the text the agent itself (not a nested agent) outputs.
pub open spec fn printed_output(o: SessionOutput) -> Option<Seq<char>> {
    if o.parament_plan_id is None {
        match o.event.data {
            SessionEventData::ModelOutput { content } => Some(content@),
            _ => None,
        }
    } else {
        None
    }
}

impl SessionOutput {
    /// What of the event is printed when the agent answers a one-off prompt.
    pub fn printed_text(&self) -> (r: Option<&str>)
        ensures
            match printed_output(*self) {
                Some(t) => r matches Some(s) && s@ == t,
                None => r is None,
            },
    {
        if self.parament_plan_id.is_some() {
            return None;
        }
        match &self.event.data {
            SessionEventData::ModelOutput { content } => Some(content.as_str()),
            _ => None,
        }
    }
}

} // verus!
