//! Small shared definitions of the agent engine: commands, errors, hook
//! phases, the arguments that end a plan, which tasks a runtime takes, and
//! the plan and the runtime that do nothing.
use vstd::prelude::*;
use vstd::string::StringExecFns;

verus! {

/// A command for an agent.
#[derive(Debug, Clone, Default, PartialEq, Eq)]
pub enum Command {
    #[default]
    Nothing,
    /// `/exit`.
    SystemExit,
    CustomCommand(String),
}

/// An error of the engine.
#[derive(Debug, Clone, PartialEq, Eq)]
pub enum Error {
    RuntimeNoSupport,
    ContextAborted,
    /// Any other error, by its message.
    AnyError(String),
}

impl Error {
    /// The error's message.
    pub open spec fn spec_message(&self) -> Seq<char> {
        match self {
            Error::RuntimeNoSupport => "runtime is not supported"@,
            Error::ContextAborted => "context has been aborted"@,
            Error::AnyError(m) => m@,
        }
    }

    /// The error's message.
    pub fn message(&self) -> (r: String)
        ensures
            r@ == self.spec_message(),
    {
        match self {
            Error::RuntimeNoSupport => "runtime is not supported".to_string(),
            Error::ContextAborted => "context has been aborted".to_string(),
            Error::AnyError(m) => m.clone(),
        }
    }
}

/// When a hook of a single agent runs.
#[derive(Debug, Clone, PartialEq, Eq)]
pub enum SingleAgentHookPhase {
    Before,
    After,
    Failed { error: String },
}

/// Why and by whom a plan is ended.
#[derive(Debug, Clone, PartialEq, Eq)]
pub struct EndPlanTaskArgs {
    pub plan_id: String,
    pub agent_id: String,
    pub reason: String,
}

impl EndPlanTaskArgs {
    pub fn new(plan_id: String, agent_id: String, reason: String) -> (r: EndPlanTaskArgs)
        ensures
            r.plan_id == plan_id,
            r.agent_id == agent_id,
            r.reason == reason,
    {
        EndPlanTaskArgs { plan_id, agent_id, reason }
    }
}

} // verus!

verus! {

/// Whether a runtime takes a task handed to it: only one addressed to it
/// (its executor is the runtime), of the request type it serves, and whose
/// context is not aborted.
pub open spec fn task_accepted(executor: Seq<char>, runtime_id: Seq<char>, request_matches: bool, aborted: bool) -> Result<(), Error> {
    if executor != runtime_id || !request_matches {
        Err(Error::RuntimeNoSupport)
    } else if aborted {
        Err(Error::ContextAborted)
    } else {
        Ok(())
    }
}

/// Whether a runtime takes a task handed to it.
pub fn accept_task(executor: &str, runtime_id: &str, request_matches: bool, aborted: bool) -> (r: Result<(), Error>)
    ensures
        r == task_accepted(executor@, runtime_id@, request_matches, aborted),
{
    let e = String::from_str(executor);
    let id = String::from_str(runtime_id);
    if !(e == id) || !request_matches {
        Err(Error::RuntimeNoSupport)
    } else if aborted {
        Err(Error::ContextAborted)
    } else {
        Ok(())
    }
}

/// Whether a runtime takes the result (or error) of a task: only of a task
/// it published.
pub fn accept_callback(publisher: &str, runtime_id: &str) -> (r: Result<(), Error>)
    ensures
        publisher@ == runtime_id@ ==> r == Ok::<(), Error>(()),
        publisher@ != runtime_id@ ==> r == Err::<(), Error>(Error::RuntimeNoSupport),
{
    let p = String::from_str(publisher);
    let id = String::from_str(runtime_id);
    if p == id {
        Ok(())
    } else {
        Err(Error::RuntimeNoSupport)
    }
}

/// Whether a runtime stops a task: only one of a type it serves, and named
/// as running on it.
pub fn accept_kill(type_served: bool, rtid: &str, runtime_id: &str) -> (r: Result<(), Error>)
    ensures
        type_served && rtid@ == runtime_id@ ==> r == Ok::<(), Error>(()),
        !(type_served && rtid@ == runtime_id@) ==> r == Err::<(), Error>(Error::RuntimeNoSupport),
{
    if !type_served {
        return Err(Error::RuntimeNoSupport);
    }
    let r = String::from_str(rtid);
    let id = String::from_str(runtime_id);
    if r == id {
        Ok(())
    } else {
        Err(Error::RuntimeNoSupport)
    }
}

} // verus!

verus! {

/// What a planning step comes to: the plan ends (telling the agent its
/// result, or not), or it hands out tasks.
#[derive(Debug)]
pub enum PlanningResult<R, T> {
    End(Option<R>),
    Tasks(Vec<T>),
}

impl<R, T> PlanningResult<R, T> {
    /// Whether the plan ends.
    pub fn is_end(&self) -> (b: bool)
        ensures
            b == (self is End),
    {
        match self {
            PlanningResult::End(_) => true,
            PlanningResult::Tasks(_) => false,
        }
    }
}

/// The runtime that runs nothing: it is named `null`, refuses every task
/// handed to it, and exits at once.
#[derive(Debug)]
pub struct RuntimeNull;

impl RuntimeNull {
    /// Its name.
    pub fn id(&self) -> (r: &'static str)
        ensures
            r@ == "null"@,
    {
        "null"
    }

    /// Starting tasks: refused.
    pub fn spawn<T>(&self, tasks: &T) -> (r: Result<(), Error>)
        ensures
            r == Err::<(), Error>(Error::RuntimeNoSupport),
    {
        Err(Error::RuntimeNoSupport)
    }

    /// Running a task to its end: refused.
    pub fn exec<T, R>(&self, task: &T) -> (r: Result<R, Error>)
        ensures
            r matches Err(e) && e == Error::RuntimeNoSupport,
    {
        Err(Error::RuntimeNoSupport)
    }

    /// Stopping a task: refused.
    pub fn kill(&self, rtid: &str, task_id: &str) -> (r: Result<(), Error>)
        ensures
            r == Err::<(), Error>(Error::RuntimeNoSupport),
    {
        Err(Error::RuntimeNoSupport)
    }

    /// Exiting: done at once.
    pub fn exit(&self) -> (r: Result<(), Error>)
        ensures
            r == Ok::<(), Error>(()),
    {
        Ok(())
    }
}

/// The plan that does nothing: it has no id, and whatever it is told it
/// ends at once, with no result.
#[derive(Debug)]
pub struct NonePlan;

impl NonePlan {
    /// The empty id.
    pub fn id(&self) -> (r: String)
        ensures
            r@ == Seq::<char>::empty(),
    {
        String::new()
    }

    /// Its first step: the end, with no result.
    pub fn init<R, T>(&mut self) -> (r: PlanningResult<R, T>)
        ensures
            r matches PlanningResult::End(res) && res is None,
    {
        PlanningResult::End(None)
    }

    /// Every later step, whatever the event: the end, with no result.
    pub fn next<E, R, T>(&mut self, event: E) -> (r: PlanningResult<R, T>)
        ensures
            r matches PlanningResult::End(res) && res is None,
    {
        PlanningResult::End(None)
    }
}

} // verus!

verus! {

/// What a plan asks for next: tasks to run, or the end.
#[derive(Debug)]
pub enum PlanNext<T> {
    Tasks(Vec<T>),
    End,
}

/// How long a step of a context took, in milliseconds.
#[derive(Debug, Clone, Copy, PartialEq, Eq)]
pub struct ContextStack {
    pub use_time_mill: u64,
}

/// Where a node of a flow graph stands.
#[derive(Debug, Clone, Copy, PartialEq, Eq, Structural)]
pub enum FlowGraphStatus {
    /// Not run yet.
    Pending,
    Running,
    Completed,
    Invalid,
}

/// Where an edge of a flow graph stands.
#[derive(Debug, Clone, Copy, PartialEq, Eq, Structural)]
pub enum FlowGraphEdgeStatus {
    /// Not passed yet.
    Unset,
    Active,
    Invalid,
}

/// A node of a flow graph: its last status, how often it ran, the edges
/// that lead to it (with their status) and the nodes it leads to.
#[derive(Debug, Clone)]
pub struct FlowGraphNode {
    pub id: String,
    pub status: FlowGraphStatus,
    pub run_count: u32,
    pub from_edgs: Vec<(String, FlowGraphEdgeStatus)>,
    pub to_edgs: Vec<String>,
}

/// A flow graph: its nodes by id, where it starts and ends, and whether it is over.
#[derive(Debug, Clone, Default)]
pub struct FlowGraph {
    pub is_over: bool,
    pub graph: Vec<(String, FlowGraphNode)>,
    pub start_node_id: String,
    pub end_node_id: String,
}

} // verus!
