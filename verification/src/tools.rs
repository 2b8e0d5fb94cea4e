//! Tools and skills an agent is configured with, and the requests and
//! replies of a tool call.
use vstd::prelude::*;
use vstd::string::StringExecFns;

verus! {

/// The channel a tool or skill runs on when none is named.
pub open spec fn default_channel() -> Seq<char> {
    "default"@
}

/// A tool enabled for an agent, with the channel that runs it.
#[derive(Debug, Clone, PartialEq, Eq)]
pub struct ToolConfig {
    pub name: String,
    pub channel: String,
}

impl ToolConfig {
    /// The tool on the default channel.
    pub fn new(name: &str) -> (r: ToolConfig)
        ensures
            r.name@ == name@,
            r.channel@ == default_channel(),
    {
        ToolConfig { name: String::from_str(name), channel: String::from_str("default") }
    }

    /// The same tool on another channel.
    pub fn with_channel(self, channel: String) -> (r: ToolConfig)
        ensures
            r.name == self.name,
            r.channel == channel,
    {
        ToolConfig { name: self.name, channel }
    }

    /// Another tool on the same channel.
    pub fn set_name(self, name: String) -> (r: ToolConfig)
        ensures
            r.name == name,
            r.channel == self.channel,
    {
        ToolConfig { name, channel: self.channel }
    }
}

impl Default for ToolConfig {
    fn default() -> (r: ToolConfig)
        ensures
            r.name@ == Seq::<char>::empty(),
            r.channel@ == default_channel(),
    {
        ToolConfig { name: String::new(), channel: String::from_str("default") }
    }
}

impl From<String> for ToolConfig {
    /// The default entry under the given name.
    fn from(name: String) -> (r: ToolConfig)
        ensures
            r.name == name,
            r.channel@ == default_channel(),
    {
        ToolConfig::default().set_name(name)
    }
}

impl vstd::std_specs::convert::FromSpecImpl<String> for ToolConfig {
    /// The default channel is a string made at run time, so the result is
    /// stated by the ensures of `from` itself.
    open spec fn obeys_from_spec() -> bool {
        false
    }

    open spec fn from_spec(name: String) -> ToolConfig {
        vstd::pervasive::arbitrary()
    }
}

/// A skill enabled for an agent, with the channel that runs it.
#[derive(Debug, Clone, PartialEq, Eq)]
pub struct SkillConfig {
    pub name: String,
    pub channel: String,
}

impl SkillConfig {
    /// The skill on the default channel.
    pub fn new(name: &str) -> (r: SkillConfig)
        ensures
            r.name@ == name@,
            r.channel@ == default_channel(),
    {
        SkillConfig { name: String::from_str(name), channel: String::from_str("default") }
    }

    /// The same skill on another channel.
    pub fn with_channel(self, channel: String) -> (r: SkillConfig)
        ensures
            r.name == self.name,
            r.channel == channel,
    {
        SkillConfig { name: self.name, channel }
    }

    /// Another skill on the same channel.
    pub fn set_name(self, name: String) -> (r: SkillConfig)
        ensures
            r.name == name,
            r.channel == self.channel,
    {
        SkillConfig { name, channel: self.channel }
    }
}

impl Default for SkillConfig {
    fn default() -> (r: SkillConfig)
        ensures
            r.name@ == Seq::<char>::empty(),
            r.channel@ == default_channel(),
    {
        SkillConfig { name: String::new(), channel: String::from_str("default") }
    }
}

impl From<String> for SkillConfig {
    /// The default entry under the given name.
    fn from(name: String) -> (r: SkillConfig)
        ensures
            r.name == name,
            r.channel@ == default_channel(),
    {
        SkillConfig::default().set_name(name)
    }
}

impl vstd::std_specs::convert::FromSpecImpl<String> for SkillConfig {
    /// The default channel is a string made at run time, so the result is
    /// stated by the ensures of `from` itself.
    open spec fn obeys_from_spec() -> bool {
        false
    }

    open spec fn from_spec(name: String) -> SkillConfig {
        vstd::pervasive::arbitrary()
    }
}

/// The tools, in order, each on the default channel.
pub fn tool_configs(tools: &[&str]) -> (r: Vec<ToolConfig>)
    ensures
        r@.len() == tools@.len(),
        forall|i: int|
            0 <= i < tools@.len() ==> (#[trigger] r@[i]).name@ == tools@[i]@ && r@[i].channel@
                == default_channel(),
{
    let mut r: Vec<ToolConfig> = Vec::new();
    let mut i: usize = 0;
    while i < tools.len()
        invariant
            i <= tools@.len(),
            r@.len() == i,
            forall|j: int|
                0 <= j < i ==> (#[trigger] r@[j]).name@ == tools@[j]@ && r@[j].channel@
                    == default_channel(),
        decreases tools@.len() - i,
    {
        r.push(ToolConfig::new(tools[i]));
        i = i + 1;
    }
    r
}

/// The skills, in order, each on the default channel.
pub fn skill_configs(skills: &[&str]) -> (r: Vec<SkillConfig>)
    ensures
        r@.len() == skills@.len(),
        forall|i: int|
            0 <= i < skills@.len() ==> (#[trigger] r@[i]).name@ == skills@[i]@ && r@[i].channel@
                == default_channel(),
{
    let mut r: Vec<SkillConfig> = Vec::new();
    let mut i: usize = 0;
    while i < skills.len()
        invariant
            i <= skills@.len(),
            r@.len() == i,
            forall|j: int|
                0 <= j < i ==> (#[trigger] r@[j]).name@ == skills@[j]@ && r@[j].channel@
                    == default_channel(),
        decreases skills@.len() - i,
    {
        r.push(SkillConfig::new(skills[i]));
        i = i + 1;
    }
    r
}

/// A call of a tool.
#[derive(Debug, Clone, Default, PartialEq, Eq)]
pub struct ToolRequest {
    pub tool_name: String,
    pub arguments: String,
}

impl ToolRequest {
    pub fn new(tool_name: String, arguments: String) -> (r: ToolRequest)
        ensures
            r.tool_name == tool_name,
            r.arguments == arguments,
    {
        ToolRequest { tool_name, arguments }
    }

    pub fn get_arguments(&self) -> (r: &str)
        ensures
            r@ == self.arguments@,
    {
        self.arguments.as_str()
    }

    pub fn get_tool_name(&self) -> (r: &str)
        ensures
            r@ == self.tool_name@,
    {
        self.tool_name.as_str()
    }
}

/// A piece of a tool's reply: more streamed output, or the final output.
#[derive(Debug, Clone, PartialEq, Eq)]
pub enum ToolRespItem {
    Streaming(String),
    Completed(String),
}

/// What a session learns when an agent call ends: how many sub-tasks were
/// started from it.
#[derive(Debug, Clone, PartialEq, Eq)]
pub struct AgentCallSessionOver {
    pub sub_task_count: usize,
}

impl Default for AgentCallSessionOver {
    /// No sub-task yet.
    fn default() -> (r: AgentCallSessionOver)
        ensures
            r.sub_task_count == 0,
    {
        AgentCallSessionOver { sub_task_count: 0 }
    }
}

impl AgentCallSessionOver {
    /// Counts one more sub-task.
    pub fn add_sub_task(&mut self)
        requires
            old(self).sub_task_count < usize::MAX,
        ensures
            final(self).sub_task_count == old(self).sub_task_count + 1,
    {
        self.sub_task_count = self.sub_task_count + 1;
    }

    /// Whether any sub-task was started.
    pub fn get_have_sub_task(&self) -> (b: bool)
        ensures
            b == (self.sub_task_count > 0),
    {
        self.sub_task_count > 0
    }
}

} // verus!

verus! {

/// The event key under which the end of an agent's session call is
/// announced to its hooks.
pub open spec fn session_over_key(agent_id: Seq<char>, session_id: Seq<char>) -> Seq<char> {
    "agent_call_session_over_"@ + agent_id + ":"@ + session_id
}

/// The event key under which the end of an agent's session call is announced.
pub fn agent_call_session_over_key(agent_id: &str, session_id: &str) -> (r: String)
    ensures
        r@ == session_over_key(agent_id@, session_id@),
{
    let mut k = String::from_str("agent_call_session_over_");
    k.append(agent_id);
    k.append(":");
    k.append(session_id);
    k
}

} // verus!
