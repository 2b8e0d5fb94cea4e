//! Tasks that agents hand to each other: who publishes and who executes a
//! task, its lifecycle status, and whom a task is addressed to.
use vstd::prelude::*;
use vstd::string::StringExecFns;

verus! {

/// An agent, with the session and user it acts for.
#[derive(Debug, Clone, Default, PartialEq, Eq, PartialOrd, Ord, Hash)]
pub struct AgentInfo {
    pub agent_id: String,
    pub session_id: String,
    pub user_id: String,
}

/// A new task for an executor.
#[derive(Debug, Clone, Default, PartialEq, Eq, PartialOrd, Ord, Hash)]
pub struct AgentTaskCreate {
    pub executor: AgentInfo,
    pub content: String,
}

/// A task being executed.
#[derive(Debug, Clone, Default, PartialEq, Eq, PartialOrd, Ord, Hash)]
pub struct AgentTaskExecuting {
    pub task_id: String,
}

/// The outcome of a task.
#[derive(Debug, Clone, Default, PartialEq, Eq, PartialOrd, Ord, Hash)]
pub struct AgentTaskResult {
    pub task_id: String,
    pub content: String,
}

/// The lifecycle status of a task.
#[derive(Debug, Clone, PartialEq, Eq, PartialOrd, Ord, Hash)]
pub enum AgentTaskStatus {
    Create(AgentTaskCreate),
    Executing(AgentTaskExecuting),
    Completed(AgentTaskResult),
    Failed(AgentTaskResult),
}

/// The name of the status of a new task.
pub const CREATE: &'static str = "create";

/// The name of the status of a task being executed.
pub const EXECUTING: &'static str = "executing";

/// The name of the status of a completed task.
pub const COMPLETED: &'static str = "completed";

/// The name of the status of a failed task.
pub const FAILED: &'static str = "failed";

impl AgentTaskStatus {
    /// The task id a status speaks of (a new task has none yet).
    pub open spec fn spec_task_id(&self) -> Seq<char> {
        match self {
            AgentTaskStatus::Create(_) => Seq::empty(),
            AgentTaskStatus::Executing(e) => e.task_id@,
            AgentTaskStatus::Completed(r) => r.task_id@,
            AgentTaskStatus::Failed(r) => r.task_id@,
        }
    }

    /// The name of a status.
    pub open spec fn spec_status(&self) -> Seq<char> {
        match self {
            AgentTaskStatus::Create(_) => "create"@,
            AgentTaskStatus::Executing(_) => "executing"@,
            AgentTaskStatus::Completed(_) => "completed"@,
            AgentTaskStatus::Failed(_) => "failed"@,
        }
    }

    /// The task id the status speaks of.
    pub fn get_task_id(&self) -> (r: &str)
        ensures
            r@ == self.spec_task_id(),
    {
        match self {
            AgentTaskStatus::Create(_) => {
                proof {
                    reveal_strlit("");
                }
                ""
            },
            AgentTaskStatus::Executing(e) => e.task_id.as_str(),
            AgentTaskStatus::Completed(r) => r.task_id.as_str(),
            AgentTaskStatus::Failed(r) => r.task_id.as_str(),
        }
    }

    /// The name of the status.
    pub fn status(&self) -> (r: &str)
        ensures
            r@ == self.spec_status(),
    {
        match self {
            AgentTaskStatus::Create(_) => CREATE,
            AgentTaskStatus::Executing(_) => EXECUTING,
            AgentTaskStatus::Completed(_) => COMPLETED,
            AgentTaskStatus::Failed(_) => FAILED,
        }
    }
}

/// A task passed between agents.
#[derive(Debug, Clone, Default)]
pub struct AgentTask {
    pub task_id: String,
    /// Who published the task.
    pub author: AgentInfo,
    /// Who executes the task.
    pub executor: AgentInfo,
    /// The name of the task's status.
    pub status: String,
    pub content: String,
    pub result: String,
    /// When the task last changed, in seconds since the Unix epoch.
    pub update_timestamp: u64,
}

#[verifier::external_type_specification]
#[verifier::external_body]
pub struct ExSystemTime(std::time::SystemTime);

/// `std::time::SystemTime::now`: the system clock's reading.
///
/// Trusted for nothing: the clock is outside the program.
#[verifier::external_body]
fn clock_now() -> (r: std::time::SystemTime) {
    std::time::SystemTime::now()
}

/// `std::time::SystemTime::duration_since` the Unix epoch: the time since
/// the epoch, or none when the reading lies before it.
///
/// Trusted for nothing: what it gives depends on the reading.
#[verifier::external_body]
fn since_epoch(t: &std::time::SystemTime) -> (r: Option<std::time::Duration>) {
    match t.duration_since(std::time::UNIX_EPOCH) {
        Ok(d) => Some(d),
        Err(_) => None,
    }
}

/// `std::time::Duration::as_secs`: the whole seconds of a duration.
///
/// Trusted for nothing: a duration is opaque here.
#[verifier::external_body]
fn whole_seconds(d: &std::time::Duration) -> (r: u64) {
    d.as_secs()
}

impl AgentTask {
    /// The agent a task is addressed to: the executor of a new task, the
    /// author once the task is under way or done.
    pub open spec fn addressee(&self) -> Seq<char> {
        if self.status@ == "create"@ {
            self.executor.agent_id@
        } else {
            self.author.agent_id@
        }
    }

    pub fn set_task_id(self, task_id: String) -> (r: AgentTask)
        ensures
            r.task_id == task_id,
            r == (AgentTask { task_id: r.task_id, ..self }),
    {
        AgentTask { task_id, ..self }
    }

    pub fn get_task_id(&self) -> (r: &str)
        ensures
            r@ == self.task_id@,
    {
        self.task_id.as_str()
    }

    pub fn set_executor(self, executor: AgentInfo) -> (r: AgentTask)
        ensures
            r == (AgentTask { executor, ..self }),
    {
        AgentTask { executor, ..self }
    }

    pub fn set_author(self, author: AgentInfo) -> (r: AgentTask)
        ensures
            r == (AgentTask { author, ..self }),
    {
        AgentTask { author, ..self }
    }

    pub fn get_author_id(&self) -> (r: &str)
        ensures
            r@ == self.author.agent_id@,
    {
        self.author.agent_id.as_str()
    }

    pub fn get_executor_id(&self) -> (r: &str)
        ensures
            r@ == self.executor.agent_id@,
    {
        self.executor.agent_id.as_str()
    }

    /// The agent the task is addressed to.
    pub fn get_agent_id(&self) -> (r: &str)
        ensures
            r@ == self.addressee(),
    {
        if self.status == String::from_str(CREATE) {
            self.executor.agent_id.as_str()
        } else {
            self.author.agent_id.as_str()
        }
    }

    pub fn set_status(self, status: String) -> (r: AgentTask)
        ensures
            r == (AgentTask { status, ..self }),
    {
        AgentTask { status, ..self }
    }

    pub fn get_status(&self) -> (r: &str)
        ensures
            r@ == self.status@,
    {
        self.status.as_str()
    }

    pub fn set_content(self, content: String) -> (r: AgentTask)
        ensures
            r == (AgentTask { content, ..self }),
    {
        AgentTask { content, ..self }
    }

    pub fn set_result(self, result: String) -> (r: AgentTask)
        ensures
            r == (AgentTask { result, ..self }),
    {
        AgentTask { result, ..self }
    }

    /// Stamps the task with a clock reading in whole seconds since the Unix
    /// epoch (zero for a clock set before the epoch); nothing else changes.
    pub fn stamp(&mut self, now: Option<u64>)
        ensures
            *final(self) == (AgentTask {
                update_timestamp: match now {
                    Some(t) => t,
                    None => 0,
                },
                ..*old(self)
            }),
    {
        self.update_timestamp = match now {
            Some(t) => t,
            None => 0,
        };
    }

    /// Stamps the task with the current time, as `stamp` does with the
    /// system clock's reading; nothing else changes.
    pub fn update_timestamp(&mut self)
        ensures
            *final(self) == (AgentTask { update_timestamp: final(self).update_timestamp, ..*old(self) }),
    {
        let reading = clock_now();
        let now = match since_epoch(&reading) {
            Some(d) => Some(whole_seconds(&d)),
            None => None,
        };
        self.stamp(now);
    }
}

} // verus!

verus! {

/// The JSON schema of the arguments that update a task's status: exactly
/// one of the four statuses, each with what it carries (keys in the order
/// JSON objects keep them).
pub open spec fn task_status_schema() -> Seq<char> {
    "{\"description\":\"Update an agent task lifecycle status. The shape must match AgentTaskStatus and contain exactly one lifecycle status.\",\"oneOf\":[{\"required\":[\"create\"]},{\"required\":[\"executing\"]},{\"required\":[\"completed\"]},{\"required\":[\"failed\"]}],\"properties\":{\"completed\":{\"properties\":{\"content\":{\"type\":\"string\"},\"task_id\":{\"description\":\"The task id.\",\"type\":\"string\"}},\"required\":[\"task_id\",\"content\"],\"type\":\"object\"},\"create\":{\"description\":\"Publish a new task. task_id is auto generated.\",\"properties\":{\"content\":{\"description\":\"The task content.\",\"type\":\"string\"},\"executor\":{\"properties\":{\"agent_id\":{\"type\":\"string\"},\"session_id\":{\"type\":\"string\"},\"user_id\":{\"type\":\"string\"}},\"required\":[\"agent_id\"],\"type\":\"object\"}},\"required\":[\"executor\",\"content\"],\"type\":\"object\"},\"executing\":{\"description\":\"Mark the task as executing. task_id must be provided.\",\"properties\":{\"task_id\":{\"description\":\"The task id.\",\"type\":\"string\"}},\"required\":[\"task_id\"],\"type\":\"object\"},\"failed\":{\"properties\":{\"content\":{\"type\":\"string\"},\"task_id\":{\"description\":\"The task id.\",\"type\":\"string\"}},\"required\":[\"task_id\",\"content\"],\"type\":\"object\"}},\"type\":\"object\"}"@
}

impl AgentTaskStatus {
    /// The JSON schema of the arguments that update a task's status.
    pub fn arguments() -> (r: String)
        ensures
            r@ == task_status_schema(),
    {
        String::from_str("{\"description\":\"Update an agent task lifecycle status. The shape must match AgentTaskStatus and contain exactly one lifecycle status.\",\"oneOf\":[{\"required\":[\"create\"]},{\"required\":[\"executing\"]},{\"required\":[\"completed\"]},{\"required\":[\"failed\"]}],\"properties\":{\"completed\":{\"properties\":{\"content\":{\"type\":\"string\"},\"task_id\":{\"description\":\"The task id.\",\"type\":\"string\"}},\"required\":[\"task_id\",\"content\"],\"type\":\"object\"},\"create\":{\"description\":\"Publish a new task. task_id is auto generated.\",\"properties\":{\"content\":{\"description\":\"The task content.\",\"type\":\"string\"},\"executor\":{\"properties\":{\"agent_id\":{\"type\":\"string\"},\"session_id\":{\"type\":\"string\"},\"user_id\":{\"type\":\"string\"}},\"required\":[\"agent_id\"],\"type\":\"object\"}},\"required\":[\"executor\",\"content\"],\"type\":\"object\"},\"executing\":{\"description\":\"Mark the task as executing. task_id must be provided.\",\"properties\":{\"task_id\":{\"description\":\"The task id.\",\"type\":\"string\"}},\"required\":[\"task_id\"],\"type\":\"object\"},\"failed\":{\"properties\":{\"content\":{\"type\":\"string\"},\"task_id\":{\"description\":\"The task id.\",\"type\":\"string\"}},\"required\":[\"task_id\",\"content\"],\"type\":\"object\"}},\"type\":\"object\"}")
    }
}

} // verus!
