//! Configuration of a single agent: what a valid configuration is, where an
//! agent's files live under the home directory, the checks made while its
//! sub-agents are resolved, and the default limits.
use crate::prompt::{first_invalid, invalid_tag_message, validate_prompt_tag, PromptSection, ResolvedSubAgent};
use crate::session_command::{expand_home, expanded_home, join_path, path_join, opt_str_view};
use crate::text::{chars_eq, chars_string, is_blank, split_on, split_pieces, str_chars, trim, char_rows, lemma_split_on_nonempty};
use vstd::prelude::*;
use vstd::string::StringExecFns;

verus! {

/// Tool iterations allowed in one turn when the configuration names none.
pub const DEFAULT_MAX_TOOL_ITERATIONS: usize = 128;

/// Estimated context size at which compression starts, when the configuration names none.
pub const DEFAULT_TRIGGER_COMPRESSION_SIZE: usize = 32000;

/// Completion tokens requested when the configuration names none.
pub const DEFAULT_MAX_COMPLETION_TOKENS: u32 = 32000;

/// Tool iterations allowed in one turn when the configuration names none.
pub fn default_max_tool_iterations() -> (r: usize)
    ensures
        r == 128,
{
    DEFAULT_MAX_TOOL_ITERATIONS
}

/// Compression threshold when the configuration names none.
pub fn default_trigger_compression_size() -> (r: usize)
    ensures
        r == 32000,
{
    DEFAULT_TRIGGER_COMPRESSION_SIZE
}

/// Completion-token limit when the configuration names none.
pub fn default_max_completion_tokens() -> (r: Option<u32>)
    ensures
        r == Some(32000u32),
{
    Some(DEFAULT_MAX_COMPLETION_TOKENS)
}

/// Who the agent is.
#[derive(Debug, Clone, PartialEq, Eq)]
pub struct SingleAgentInfo {
    pub name: String,
    pub desc: String,
    pub user_id: String,
    pub session_id: String,
    pub metadata: Vec<(String, String)>,
}

/// How the agent calls its model.
#[derive(Debug, Clone, PartialEq, Eq)]
pub struct SingleAgentModelConfig {
    pub model: String,
    pub trigger_compression_size: usize,
    pub history_turns: usize,
    pub max_completion_tokens: Option<u32>,
    /// The sampling temperature's IEEE-754 bits, carried through unchanged.
    pub temperature_bits: Option<u32>,
    pub max_tool_iterations: usize,
}

/// A single agent's configuration.
#[derive(Debug, Clone, PartialEq, Eq)]
pub struct SingleAgentConfig {
    pub agent: SingleAgentInfo,
    pub model: SingleAgentModelConfig,
    pub prompt_sections: Vec<PromptSection>,
    pub tools: Vec<String>,
    pub skills: Vec<String>,
    pub mcp_servers: Vec<String>,
    pub sub_agents: Vec<String>,
    pub workflows: Vec<String>,
}

/// A path that is exactly one normal component: not empty, not absolute,
/// not `.` or `..`, with nothing after it but slashes and `.` pieces (which
/// `Path::components` drops).
pub open spec fn single_component(s: Seq<char>) -> bool {
    let p = split_on(s, '/');
    &&& s.len() > 0
    &&& s[0] != '/'
    &&& p[0] != seq!['.']
    &&& p[0] != seq!['.', '.']
    &&& forall|i: int| 1 <= i < p.len() ==> (#[trigger] p[i]).len() == 0 || p[i] == seq!['.']
}

/// Whether a path is a single normal component.
pub fn is_single_component(s: &str) -> (b: bool)
    ensures
        b == single_component(s@),
{
    let v = str_chars(s);
    if v.len() == 0 || v[0] == '/' {
        return false;
    }
    let p = split_pieces(v.as_slice(), '/');
    proof {
        lemma_split_on_nonempty(v@, '/');
    }
    assert(p@[0]@ == split_on(s@, '/')[0]);
    if chars_eq(p[0].as_slice(), &['.']) || chars_eq(p[0].as_slice(), &['.', '.']) {
        assert(['.']@ =~= seq!['.']);
        assert(['.', '.']@ =~= seq!['.', '.']);
        return false;
    }
    assert(['.']@ =~= seq!['.']);
    assert(['.', '.']@ =~= seq!['.', '.']);
    let mut i: usize = 1;
    while i < p.len()
        invariant
            1 <= i <= p@.len(),
            char_rows(p@) == split_on(s@, '/'),
            forall|j: int| 1 <= j < i ==> (#[trigger] split_on(s@, '/')[j]).len() == 0 || split_on(s@, '/')[j] == seq!['.'],
        decreases p@.len() - i,
    {
        assert(p@[i as int]@ == split_on(s@, '/')[i as int]);
        if !(p[i].len() == 0 || chars_eq(p[i].as_slice(), &['.'])) {
            assert(['.']@ =~= seq!['.']);
            return false;
        }
        assert(['.']@ =~= seq!['.']);
        i = i + 1;
    }
    true
}

/// Checks an agent id: it names one file-name component.
pub fn validate_agent_id(agent_id: &str) -> (r: Result<(), String>)
    ensures
        single_component(agent_id@) ==> r is Ok,
        !single_component(agent_id@) ==> (r matches Err(m) && m@
            == "agent id must be a single non-empty path component"@),
{
    if is_single_component(agent_id) {
        Ok(())
    } else {
        Err(String::from_str("agent id must be a single non-empty path component"))
    }
}

/// Index of the first workflow id that is not a single component or repeats
/// an earlier one, or -1.
pub open spec fn first_bad_workflow(ids: Seq<Seq<char>>) -> int
    decreases ids.len(),
{
    if ids.len() == 0 {
        -1
    } else {
        let k = first_bad_workflow(ids.drop_last());
        if k >= 0 {
            k
        } else if !single_component(ids.last()) || ids.drop_last().contains(ids.last()) {
            ids.len() - 1
        } else {
            -1
        }
    }
}

/// The error for the workflow id at index `k`.
pub open spec fn workflow_error(ids: Seq<Seq<char>>, k: int) -> Seq<char> {
    if !single_component(ids[k]) {
        "workflow id must be a single non-empty path component"@
    } else {
        "workflow `"@ + ids[k] + "` is configured more than once"@
    }
}

/// The texts of a list of strings.
pub open spec fn texts(v: Seq<String>) -> Seq<Seq<char>> {
    v.map_values(|s: String| s@)
}

proof fn lemma_first_bad_prefix(ids: Seq<Seq<char>>, i: int)
    requires
        0 <= i < ids.len(),
        first_bad_workflow(ids.take(i)) < 0,
        !single_component(ids[i]) || ids.take(i).contains(ids[i]),
    ensures
        first_bad_workflow(ids) == i,
    decreases ids.len(),
{
    if i < ids.len() - 1 {
        assert(ids.drop_last().take(i) =~= ids.take(i));
        lemma_first_bad_prefix(ids.drop_last(), i);
    } else {
        assert(ids.drop_last() =~= ids.take(i));
    }
}

fn contains_string(v: &[String], s: &String) -> (b: bool)
    ensures
        b == texts(v@).contains(s@),
{
    let r = prefix_contains(v, v.len(), s);
    assert(texts(v@).take(v@.len() as int) =~= texts(v@));
    r
}

fn prefix_contains(v: &[String], n: usize, s: &String) -> (b: bool)
    requires
        n <= v@.len(),
    ensures
        b == texts(v@).take(n as int).contains(s@),
{
    let mut i: usize = 0;
    while i < n
        invariant
            n <= v@.len(),
            i <= n,
            forall|j: int| 0 <= j < i ==> (#[trigger] v@[j])@ != s@,
        decreases v@.len() - i,
    {
        if v[i] == *s {
            assert(texts(v@).take(n as int)[i as int] == s@);
            return true;
        }
        i = i + 1;
    }
    proof {
        if texts(v@).take(n as int).contains(s@) {
            let j = choose|j: int| 0 <= j < texts(v@).take(n as int).len() && texts(v@).take(n as int)[j] == s@;
            assert(v@[j]@ == s@);
        }
    }
    false
}

/// Checks workflow ids: each names one component and none repeats.
pub fn validate_workflow_ids(workflow_ids: &[String]) -> (r: Result<(), String>)
    ensures
        first_bad_workflow(texts(workflow_ids@)) < 0 ==> r is Ok,
        first_bad_workflow(texts(workflow_ids@)) >= 0 ==> (r matches Err(m) && m@ == workflow_error(
            texts(workflow_ids@),
            first_bad_workflow(texts(workflow_ids@)),
        )),
{
    let ghost ids = texts(workflow_ids@);
    let mut i: usize = 0;
    while i < workflow_ids.len()
        invariant
            i <= workflow_ids@.len(),
            ids == texts(workflow_ids@),
            first_bad_workflow(ids.take(i as int)) < 0,
        decreases workflow_ids@.len() - i,
    {
        let id = &workflow_ids[i];
        assert(ids[i as int] == id@);
        assert(texts(workflow_ids@.take(i as int)) =~= ids.take(i as int));
        if !is_single_component(id.as_str()) {
            proof {
                lemma_first_bad_prefix(ids, i as int);
            }
            return Err(String::from_str("workflow id must be a single non-empty path component"));
        }
        let seen = prefix_contains(workflow_ids, i, id);
        if seen {
            proof {
                lemma_first_bad_prefix(ids, i as int);
            }
            let mut m = String::from_str("workflow `");
            m.append(id.as_str());
            m.append("` is configured more than once");
            return Err(m);
        }
        proof {
            assert(ids.take(i + 1).drop_last() =~= ids.take(i as int));
            assert(ids.take(i + 1).last() == ids[i as int]);
        }
        i = i + 1;
    }
    assert(ids.take(workflow_ids@.len() as int) =~= ids);
    Ok(())
}

/// The first problem of a configuration, checked in order: the agent's
/// name, user and session, the model, the two limits, the section tags and
/// the workflow ids.
pub open spec fn config_error(c: SingleAgentConfig) -> Option<Seq<char>> {
    if trim(c.agent.name@).len() == 0 {
        Some("agent name cannot be empty"@)
    } else if trim(c.agent.user_id@).len() == 0 {
        Some("user_id cannot be empty"@)
    } else if trim(c.agent.session_id@).len() == 0 {
        Some("session_id cannot be empty"@)
    } else if trim(c.model.model@).len() == 0 {
        Some("model cannot be empty"@)
    } else if c.model.trigger_compression_size == 0 {
        Some("trigger_compression_size must be positive"@)
    } else if c.model.max_tool_iterations == 0 {
        Some("max_tool_iterations must be positive"@)
    } else if first_invalid(c.prompt_sections@) >= 0 {
        Some(invalid_tag_message(c.prompt_sections@[first_invalid(c.prompt_sections@)].tag@))
    } else if first_bad_workflow(texts(c.workflows@)) >= 0 {
        Some(workflow_error(texts(c.workflows@), first_bad_workflow(texts(c.workflows@))))
    } else {
        None
    }
}

/// Whether a result reports exactly the given problem (or success when none).
pub open spec fn reports(r: Result<(), String>, e: Option<Seq<char>>) -> bool {
    match e {
        Some(m) => r matches Err(x) && x@ == m,
        None => r is Ok,
    }
}

fn blank(s: &String) -> (b: bool)
    ensures
        b == (trim(s@).len() == 0),
{
    is_blank(str_chars(s.as_str()).as_slice())
}

/// Checks a configuration.
pub fn validate_config(config: &SingleAgentConfig) -> (r: Result<(), String>)
    ensures
        reports(r, config_error(*config)),
{
    if blank(&config.agent.name) {
        return Err(String::from_str("agent name cannot be empty"));
    }
    if blank(&config.agent.user_id) {
        return Err(String::from_str("user_id cannot be empty"));
    }
    if blank(&config.agent.session_id) {
        return Err(String::from_str("session_id cannot be empty"));
    }
    if blank(&config.model.model) {
        return Err(String::from_str("model cannot be empty"));
    }
    if config.model.trigger_compression_size == 0 {
        return Err(String::from_str("trigger_compression_size must be positive"));
    }
    if config.model.max_tool_iterations == 0 {
        return Err(String::from_str("max_tool_iterations must be positive"));
    }
    let sections = &config.prompt_sections;
    let mut i: usize = 0;
    while i < sections.len()
        invariant
            i <= sections@.len(),
            sections@ == config.prompt_sections@,
            first_invalid(sections@.take(i as int)) < 0,
            trim(config.agent.name@).len() > 0,
            trim(config.agent.user_id@).len() > 0,
            trim(config.agent.session_id@).len() > 0,
            trim(config.model.model@).len() > 0,
            config.model.trigger_compression_size > 0,
            config.model.max_tool_iterations > 0,
        decreases sections@.len() - i,
    {
        let checked = validate_prompt_tag(sections[i].tag.as_str());
        if checked.is_err() {
            proof {
                lemma_first_invalid_at(sections@, i as int);
            }
            return checked;
        }
        proof {
            assert(sections@.take(i + 1).drop_last() =~= sections@.take(i as int));
        }
        i = i + 1;
    }
    assert(sections@.take(sections@.len() as int) =~= sections@);
    validate_workflow_ids(config.workflows.as_slice())
}

proof fn lemma_first_invalid_at(extra: Seq<PromptSection>, i: int)
    requires
        0 <= i < extra.len(),
        first_invalid(extra.take(i)) < 0,
        !crate::prompt::valid_tag(extra[i].tag@),
    ensures
        first_invalid(extra) == i,
    decreases extra.len(),
{
    if i < extra.len() - 1 {
        assert(extra.drop_last().take(i) =~= extra.take(i));
        lemma_first_invalid_at(extra.drop_last(), i);
    } else {
        assert(extra.drop_last() =~= extra.take(i));
    }
}

/// `home/agents/<id><suffix>`.
pub open spec fn agent_file(home: Seq<char>, agent_id: Seq<char>, suffix: Seq<char>) -> Seq<char> {
    path_join(path_join(home, "agents"@), agent_id + suffix)
}

/// The configuration and prompt files of an agent under the home directory.
pub fn agent_paths(home: &str, agent_id: &str) -> (r: (String, String))
    ensures
        r.0@ == agent_file(home@, agent_id@, "_config.json"@),
        r.1@ == agent_file(home@, agent_id@, "_prompt.txt"@),
{
    let agents = join_path(home, "agents");
    let config = String::from_str(agent_id).concat("_config.json");
    let prompt = String::from_str(agent_id).concat("_prompt.txt");
    (join_path(agents.as_str(), config.as_str()), join_path(agents.as_str(), prompt.as_str()))
}

/// Where an agent's configuration is read from.
#[derive(Debug, Clone, PartialEq, Eq)]
pub enum SingleAgentSource {
    AgentId(String),
    Paths { config: String, prompt: String },
}

/// The files to read for a source, and the agent name the configuration
/// must carry: for an agent id, its files under the home directory (the id
/// must be a single component); for explicit paths, those paths.
pub fn source_paths(home: &str, source: &SingleAgentSource) -> (r: Result<(String, String, Option<String>), String>)
    ensures
        match source {
            SingleAgentSource::AgentId(id) => if single_component(id@) {
                r matches Ok((c, p, Some(n))) && c@ == agent_file(home@, id@, "_config.json"@) && p@
                    == agent_file(home@, id@, "_prompt.txt"@) && n@ == id@
            } else {
                r matches Err(m) && m@ == "agent id must be a single non-empty path component"@
            },
            SingleAgentSource::Paths { config, prompt } => r matches Ok((c, p, None)) && c@ == config@
                && p@ == prompt@,
        },
{
    match source {
        SingleAgentSource::AgentId(id) => {
            let checked = validate_agent_id(id.as_str());
            match checked {
                Err(m) => Err(m),
                Ok(()) => {
                    let (c, p) = agent_paths(home, id.as_str());
                    Ok((c, p, Some(id.clone())))
                },
            }
        },
        SingleAgentSource::Paths { config, prompt } => Ok((config.clone(), prompt.clone(), None)),
    }
}

/// The problem of a loaded configuration: an invalid configuration, or one
/// whose agent name is not the one asked for.
pub open spec fn loaded_error(c: SingleAgentConfig, expected: Option<Seq<char>>, path: Seq<char>) -> Option<Seq<char>> {
    match config_error(c) {
        Some(m) => Some(m),
        None => match expected {
            Some(id) => if c.agent.name@ != id {
                Some("agent config `"@ + path + "` contains name `"@ + c.agent.name@ + "`, expected `"@ + id + "`"@)
            } else {
                None
            },
            None => None,
        },
    }
}

/// Checks a configuration read from `config_path` for the expected agent.
pub fn check_loaded_config(config: &SingleAgentConfig, expected_agent_id: Option<&str>, config_path: &str) -> (r: Result<(), String>)
    ensures
        reports(r, loaded_error(*config, opt_str_view(expected_agent_id), config_path@)),
{
    let checked = validate_config(config);
    if checked.is_err() {
        return checked;
    }
    match expected_agent_id {
        Some(id) => {
            let wanted = String::from_str(id);
            if !(config.agent.name == wanted) {
                let mut m = String::from_str("agent config `");
                m.append(config_path);
                m.append("` contains name `");
                m.append(config.agent.name.as_str());
                m.append("`, expected `");
                m.append(id);
                m.append("`");
                Err(m)
            } else {
                Ok(())
            }
        },
        None => Ok(()),
    }
}

/// The problem of the next sub-agent id, given the agent's name and the ids
/// already accepted: a malformed id, the agent itself, or a repeat.
pub open spec fn sub_agent_id_error(parent: Seq<char>, seen: Seq<Seq<char>>, id: Seq<char>) -> Option<Seq<char>> {
    if !single_component(id) {
        Some("agent id must be a single non-empty path component"@)
    } else if id == parent {
        Some("agent `"@ + parent + "` cannot mount itself as a sub-agent"@)
    } else if seen.contains(id) {
        Some("sub-agent `"@ + id + "` is configured more than once"@)
    } else {
        None
    }
}

/// Checks the next sub-agent id before its configuration is read.
pub fn check_sub_agent_id(parent_agent_name: &str, seen: &[String], agent_id: &str) -> (r: Result<(), String>)
    ensures
        reports(r, sub_agent_id_error(parent_agent_name@, texts(seen@), agent_id@)),
{
    let checked = validate_agent_id(agent_id);
    if checked.is_err() {
        return checked;
    }
    let id = String::from_str(agent_id);
    let parent = String::from_str(parent_agent_name);
    if id == parent {
        let mut m = String::from_str("agent `");
        m.append(parent_agent_name);
        m.append("` cannot mount itself as a sub-agent");
        return Err(m);
    }
    if contains_string(seen, &id) {
        let mut m = String::from_str("sub-agent `");
        m.append(agent_id);
        m.append("` is configured more than once");
        return Err(m);
    }
    Ok(())
}

/// A sub-agent once its configuration is read: its description must not be
/// blank.
pub fn resolve_sub_agent(agent_id: &str, desc: &str) -> (r: Result<ResolvedSubAgent, String>)
    ensures
        trim(desc@).len() == 0 ==> (r matches Err(m) && m@ == "sub-agent `"@ + agent_id@
            + "` description cannot be empty"@),
        trim(desc@).len() > 0 ==> (r matches Ok(a) && a.agent_id@ == agent_id@ && a.desc@ == desc@),
{
    if is_blank(str_chars(desc).as_slice()) {
        let mut m = String::from_str("sub-agent `");
        m.append(agent_id);
        m.append("` description cannot be empty");
        return Err(m);
    }
    Ok(ResolvedSubAgent { agent_id: String::from_str(agent_id), desc: String::from_str(desc) })
}

/// The home directory, as the `dirs` crate finds it.
///
/// Trusted for nothing: the result depends on the environment and the
/// system's user database; a home that is not UTF-8 counts as none.
#[verifier::external_body]
fn home_dir() -> (r: Option<String>) {
    match dirs::home_dir() {
        Some(p) => match p.into_os_string().into_string() {
            Ok(s) => Some(s),
            Err(_) => None,
        },
        None => None,
    }
}

/// The FAE home: `FAE_HOST` (with `~` expanded) when it is set and not
/// empty, else `.fae` in the user's home, else `.fae`.
pub open spec fn fae_home(fae_host: Option<Seq<char>>, home: Option<Seq<char>>) -> Seq<char> {
    match fae_host {
        Some(h) if h.len() > 0 => expanded_home(h, home),
        _ => match home {
            Some(d) => path_join(d, ".fae"@),
            None => ".fae"@,
        },
    }
}

/// The FAE home, given `FAE_HOST` and the user's home directory.
pub fn fae_home_from(fae_host: Option<&str>, home: Option<&str>) -> (r: String)
    ensures
        r@ == fae_home(opt_str_view(fae_host), opt_str_view(home)),
{
    match fae_host {
        Some(h) if !h.is_empty() => expand_home(h, home),
        _ => match home {
            Some(d) => join_path(d, ".fae"),
            None => String::from_str(".fae"),
        },
    }
}

/// The FAE home, given `FAE_HOST`; the user's home directory comes from the system.
pub fn default_fae_home(fae_host: Option<&str>) -> (r: String)
    ensures
        exists|home: Option<Seq<char>>| r@ == fae_home(opt_str_view(fae_host), home),
{
    let home = home_dir();
    let r = match &home {
        Some(d) => fae_home_from(fae_host, Some(d.as_str())),
        None => fae_home_from(fae_host, None),
    };
    assert(r@ == fae_home(opt_str_view(fae_host), crate::transcript::opt_chars(home)));
    r
}

/// Builds single-agent plans from the agents under a home directory.
#[derive(Debug, Clone, PartialEq, Eq)]
pub struct SingleAgentPlanBuilder {
    home_dir: String,
}

impl SingleAgentPlanBuilder {
    /// A builder for the default FAE home, given `FAE_HOST`.
    pub fn new(fae_host: Option<&str>) -> (r: SingleAgentPlanBuilder)
        ensures
            exists|home: Option<Seq<char>>| r.spec_home_dir() == fae_home(opt_str_view(fae_host), home),
    {
        SingleAgentPlanBuilder { home_dir: default_fae_home(fae_host) }
    }

    /// A builder for the given home directory.
    pub fn with_home_dir(home_dir: String) -> (r: SingleAgentPlanBuilder)
        ensures
            r.spec_home_dir() == home_dir@,
    {
        SingleAgentPlanBuilder { home_dir }
    }

    /// The home directory.
    pub closed spec fn spec_home_dir(&self) -> Seq<char> {
        self.home_dir@
    }

    /// The home directory.
    pub fn home_dir(&self) -> (r: &str)
        ensures
            r@ == self.spec_home_dir(),
    {
        self.home_dir.as_str()
    }

    /// The files to read for a source, and the agent name the configuration
    /// must carry (see `source_paths`).
    pub fn config_paths(&self, source: &SingleAgentSource) -> (r: Result<(String, String, Option<String>), String>)
        ensures
            match source {
                SingleAgentSource::AgentId(id) => if single_component(id@) {
                    r matches Ok((c, p, Some(n))) && c@ == agent_file(self.spec_home_dir(), id@, "_config.json"@)
                        && p@ == agent_file(self.spec_home_dir(), id@, "_prompt.txt"@) && n@ == id@
                } else {
                    r matches Err(m) && m@ == "agent id must be a single non-empty path component"@
                },
                SingleAgentSource::Paths { config, prompt } => r matches Ok((c, p, None)) && c@ == config@
                    && p@ == prompt@,
            },
    {
        source_paths(self.home_dir.as_str(), source)
    }
}

} // verus!

verus! {

/// Where an agent's prompt file is, from its directory and the configured
/// path: an absolute path as it is, a relative one inside the directory.
pub open spec fn prompt_file_path(agent_dir: Seq<char>, prompt_dir: Seq<char>) -> Seq<char> {
    if prompt_dir.len() > 0 && prompt_dir[0] == '/' {
        prompt_dir
    } else {
        agent_dir + "/"@ + prompt_dir
    }
}

/// Where an agent's prompt file is.
pub fn prompt_path_of(agent_dir: &str, prompt_dir: &str) -> (r: String)
    ensures
        r@ == prompt_file_path(agent_dir@, prompt_dir@),
{
    let v = crate::text::str_chars(prompt_dir);
    if v.len() > 0 && v[0] == '/' {
        String::from_str(prompt_dir)
    } else {
        let mut r = String::from_str(agent_dir);
        r.append("/");
        r.append(prompt_dir);
        r
    }
}

/// What an agent is told of itself: its name, its id, and where its
/// configuration and prompt files are.
pub open spec fn agent_metadata_text(name: Seq<char>, id: Seq<char>, config_path: Seq<char>, prompt_path: Seq<char>) -> Seq<char> {
    "\n## Your Agent Metadata:"@ + "\n - your Agent Name: `"@ + name + "`"@ + "\n - your Agent Id: `"@ + id + "`"@
        + "\n - your model,tools,skill,mcp_servers,sub_agents config file path: "@ + config_path
        + "\n - your enactment prompt file path: "@ + prompt_path
}

/// What an agent is told of itself.
pub fn agent_metadata(name: &str, id: &str, config_path: &str, prompt_path: &str) -> (r: String)
    ensures
        r@ == agent_metadata_text(name@, id@, config_path@, prompt_path@),
{
    let mut m = String::from_str("\n## Your Agent Metadata:");
    m.append("\n - your Agent Name: `");
    m.append(name);
    m.append("`");
    m.append("\n - your Agent Id: `");
    m.append(id);
    m.append("`");
    m.append("\n - your model,tools,skill,mcp_servers,sub_agents config file path: ");
    m.append(config_path);
    m.append("\n - your enactment prompt file path: ");
    m.append(prompt_path);
    m
}

} // verus!

verus! {

/// Whether text `a` comes no later than `b` in the order of their
/// characters (a prefix comes first).
pub open spec fn text_le(a: Seq<char>, b: Seq<char>) -> bool
    decreases a.len(),
{
    if a.len() == 0 {
        true
    } else if b.len() == 0 {
        false
    } else if a[0] != b[0] {
        a[0] < b[0]
    } else {
        text_le(a.skip(1), b.skip(1))
    }
}

/// Any two texts are ordered one way or the other.
pub proof fn lemma_text_le_total(a: Seq<char>, b: Seq<char>)
    ensures
        text_le(a, b) || text_le(b, a),
    decreases a.len(),
{
    if a.len() > 0 && b.len() > 0 && a[0] == b[0] {
        lemma_text_le_total(a.skip(1), b.skip(1));
    }
}

/// The order is transitive.
pub proof fn lemma_text_le_transitive(a: Seq<char>, b: Seq<char>, c: Seq<char>)
    requires
        text_le(a, b),
        text_le(b, c),
    ensures
        text_le(a, c),
    decreases a.len(),
{
    if a.len() > 0 && b.len() > 0 && c.len() > 0 && a[0] == b[0] && b[0] == c[0] {
        lemma_text_le_transitive(a.skip(1), b.skip(1), c.skip(1));
    }
}

/// Texts ordered by their characters.
pub open spec fn texts_sorted(s: Seq<Seq<char>>) -> bool {
    forall|i: int, j: int| 0 <= i < j < s.len() ==> text_le(#[trigger] s[i], #[trigger] s[j])
}

/// Whether `a` comes no later than `b`.
fn le_text(a: &str, b: &str) -> (r: bool)
    ensures
        r == text_le(a@, b@),
{
    let x = str_chars(a);
    let y = str_chars(b);
    let mut i: usize = 0;
    assert(x@.skip(0) =~= x@);
    assert(y@.skip(0) =~= y@);
    while i < x.len() && i < y.len() && x[i] == y[i]
        invariant
            i <= x@.len(),
            i <= y@.len(),
            x@ == a@,
            y@ == b@,
            text_le(a@, b@) == text_le(x@.skip(i as int), y@.skip(i as int)),
        decreases x@.len() - i,
    {
        assert(x@.skip(i as int).skip(1) =~= x@.skip(i + 1));
        assert(y@.skip(i as int).skip(1) =~= y@.skip(i + 1));
        i = i + 1;
    }
    if i == x.len() {
        true
    } else if i == y.len() {
        false
    } else {
        x[i] < y[i]
    }
}

/// Texts sorted by their characters.
pub fn sort_texts(v: Vec<String>) -> (r: Vec<String>)
    ensures
        texts(r@).to_multiset() == texts(v@).to_multiset(),
        texts_sorted(texts(r@)),
{
    broadcast use vstd::seq_lib::group_to_multiset_ensures;
    let mut r: Vec<String> = Vec::new();
    let mut i: usize = 0;
    assert(texts(r@).to_multiset() =~= texts(v@).take(0).to_multiset());
    while i < v.len()
        invariant
            i <= v@.len(),
            texts(r@).to_multiset() == texts(v@).take(i as int).to_multiset(),
            texts_sorted(texts(r@)),
        decreases v@.len() - i,
    {
        let x = v[i].clone();
        assert(x@ == v@[i as int]@);
        let ghost t = texts(r@);
        let mut p: usize = 0;
        while p < r.len() && le_text(r[p].as_str(), x.as_str())
            invariant
                p <= r@.len(),
                t == texts(r@),
                forall|j: int| 0 <= j < p ==> text_le(#[trigger] t[j], x@),
            decreases r@.len() - p,
        {
            p = p + 1;
        }
        proof {
            if p < r@.len() {
                assert(!text_le(t[p as int], x@));
                lemma_text_le_total(t[p as int], x@);
            }
        }
        r.insert(p, x);
        proof {
            let t2 = texts(r@);
            assert(t2 =~= t.insert(p as int, x@));
            assert forall|a: int, b: int| 0 <= a < b < t2.len() implies text_le(#[trigger] t2[a], #[trigger] t2[b]) by {
                if a < p && b < p {
                    assert(t2[a] == t[a] && t2[b] == t[b]);
                } else if a < p && b == p {
                    assert(t2[a] == t[a]);
                } else if a < p {
                    assert(t2[a] == t[a] && t2[b] == t[b - 1]);
                    lemma_text_le_total(t[p as int], x@);
                    lemma_text_le_transitive(t[a], x@, t[p as int]);
                    if b - 1 > p {
                        lemma_text_le_transitive(t[a], t[p as int], t[b - 1]);
                    }
                } else if a == p {
                    assert(t2[b] == t[b - 1]);
                    lemma_text_le_total(t[p as int], x@);
                    if b - 1 > p {
                        lemma_text_le_transitive(x@, t[p as int], t[b - 1]);
                    }
                } else {
                    assert(t2[a] == t[a - 1] && t2[b] == t[b - 1]);
                }
            }
            assert(texts(v@).take(i + 1) =~= texts(v@).take(i as int).push(v@[i as int]@));
            vstd::seq_lib::to_multiset_insert(t, p as int, x@);
            assert(t2.to_multiset() == t.to_multiset().insert(x@));
            let s0 = texts(v@).take(i as int);
            assert(texts(v@).take(i + 1) =~= s0.push(x@));
            vstd::seq_lib::to_multiset_build(s0, x@);
            assert(texts(v@).take(i + 1).to_multiset() == s0.to_multiset().insert(x@));
        }
        i = i + 1;
    }
    assert(texts(v@).take(v@.len() as int) =~= texts(v@));
    r
}

/// The prompt a newly created agent starts with.
pub const DEFAULT_AGENT_PROMPT: &'static str = "You are FAE, a pragmatic coding agent. Inspect the workspace, use the available tools and skills when useful, and complete the user's request end to end.\n";

/// The configuration `init` writes for a new agent: the local user's
/// default session, the given model with a 32000-token compression trigger,
/// twenty turns of history, 4096 completion tokens, no temperature, eight
/// tool iterations, the given tools, and the installed skills in order.
pub fn initial_agent_config(agent_id: &str, model: &str, tools: Vec<String>, skills: Vec<String>) -> (r: SingleAgentConfig)
    ensures
        r.agent.name@ == agent_id@,
        r.agent.desc@ == Seq::<char>::empty(),
        r.agent.user_id@ == "local"@,
        r.agent.session_id@ == "default"@,
        r.agent.metadata@.len() == 0,
        r.model.model@ == model@,
        r.model.trigger_compression_size == 32000,
        r.model.history_turns == 20,
        r.model.max_completion_tokens == Some(4096u32),
        r.model.temperature_bits.is_none(),
        r.model.max_tool_iterations == 8,
        r.prompt_sections@.len() == 0,
        r.tools == tools,
        texts(r.skills@).to_multiset() == texts(skills@).to_multiset(),
        texts_sorted(texts(r.skills@)),
        r.mcp_servers@.len() == 0,
        r.sub_agents@.len() == 0,
        r.workflows@.len() == 0,
{
    SingleAgentConfig {
        agent: SingleAgentInfo {
            name: String::from_str(agent_id),
            desc: String::new(),
            user_id: String::from_str("local"),
            session_id: String::from_str("default"),
            metadata: Vec::new(),
        },
        model: SingleAgentModelConfig {
            model: String::from_str(model),
            trigger_compression_size: 32000,
            history_turns: 20,
            max_completion_tokens: Some(4096),
            temperature_bits: None,
            max_tool_iterations: 8,
        },
        prompt_sections: Vec::new(),
        tools,
        skills: sort_texts(skills),
        mcp_servers: Vec::new(),
        sub_agents: Vec::new(),
        workflows: Vec::new(),
    }
}

} // verus!
