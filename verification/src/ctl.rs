//! The control tool: its arguments, where a workspace lives, the files a
//! first-time setup downloads and the agents it creates, and the checks of
//! the client's `init`.
use crate::agent_config::{agent_file, validate_agent_id, single_component};
use crate::session_command::{join_path, path_join};
use crate::text::{
    chars_string, char_rows, concat_all, extend_chars, extend_str, lines, split_lines, str_chars,
    trim, trim_chars, lemma_concat_all_push,
};
use crate::tools::{default_channel, skill_configs, tool_configs, SkillConfig, ToolConfig};
use vstd::prelude::*;
use vstd::string::StringExecFns;

verus! {

/// The agent managed when none is named.
pub const DEFAULT_AGENT_ID: &'static str = "fae-assistant";

/// The user acting when none is named.
pub const DEFAULT_USER_ID: &'static str = "master";

/// Arguments of the `agent` command of the control tool.
#[derive(Debug, Clone, PartialEq, Eq)]
pub struct AgentArgs {
    pub id: Option<String>,
    pub user: Option<String>,
    /// Start a chat with the agent.
    pub chat: bool,
    /// Show the chat history.
    pub history: bool,
    /// Show the session history.
    pub session_history: bool,
    pub session_id: Option<String>,
    /// Create a new session.
    pub new_session: bool,
}

impl Default for AgentArgs {
    /// A chat with the default agent as the default user.
    fn default() -> (r: AgentArgs)
        ensures
            r.id matches Some(i) && i@ == "fae-assistant"@,
            r.user matches Some(u) && u@ == "master"@,
            r.chat,
            !r.history,
            !r.session_history,
            r.session_id is None,
            !r.new_session,
    {
        AgentArgs {
            id: Some(String::from_str(DEFAULT_AGENT_ID)),
            user: Some(String::from_str(DEFAULT_USER_ID)),
            chat: true,
            history: false,
            session_history: false,
            session_id: None,
            new_session: false,
        }
    }
}

/// Commands of the control tool.
#[derive(Debug, Clone, PartialEq, Eq)]
pub enum Commands {
    /// Set up the workspace, its agents and default configuration.
    Init,
    /// Manage an agent.
    Agent(AgentArgs),
    /// Remove the workspace.
    Uninstall,
}

/// The control tool's command line.
#[derive(Debug, Clone, PartialEq, Eq)]
pub struct Cli {
    pub command: Option<Commands>,
    /// The workspace operated on.
    pub ws: String,
}

/// First-time setup of a workspace.
pub struct InitProject {}

impl InitProject {
    /// The directory of a workspace under the FAE home.
    pub fn get_workspace_dir(fae_home: &str, ws: &str) -> (r: String)
        ensures
            r@ == path_join(fae_home@, ws@),
    {
        join_path(fae_home, ws)
    }
}

/// Removal of a workspace, after the user types back a code.
pub struct Uninstall {}

impl Uninstall {
    /// Whether the user's answer, trimmed, is the confirmation code.
    pub fn confirms(input: &str, code: &str) -> (b: bool)
        ensures
            b == (trim(input@) == code@),
    {
        let t = trim_chars(str_chars(input).as_slice());
        crate::text::chars_eq(t.as_slice(), str_chars(code).as_slice())
    }
}

/// The entries of the site list: its lines, trimmed, without the blank ones.
pub open spec fn site_list(content: Seq<char>) -> Seq<Seq<char>> {
    lines(content).map_values(|l: Seq<char>| trim(l)).filter(|l: Seq<char>| l.len() > 0)
}

/// The files listed on the site, in order.
pub fn site_entries(content: &str) -> (r: Vec<String>)
    ensures
        r@.map_values(|s: String| s@) == site_list(content@),
{
    let ls = split_lines(str_chars(content).as_slice());
    let ghost ll = lines(content@);
    let ghost trimmed = ll.map_values(|l: Seq<char>| trim(l));
    let mut r: Vec<String> = Vec::new();
    let mut i: usize = 0;
    while i < ls.len()
        invariant
            i <= ls@.len(),
            char_rows(ls@) == ll,
            ll == lines(content@),
            trimmed == ll.map_values(|l: Seq<char>| trim(l)),
            r@.map_values(|s: String| s@) == trimmed.take(i as int).filter(|l: Seq<char>| l.len() > 0),
        decreases ls@.len() - i,
    {
        let t = trim_chars(ls[i].as_slice());
        assert(ls@[i as int]@ == ll[i as int]);
        let ghost before = r@.map_values(|s: String| s@);
        proof {
            assert(trimmed.take(i + 1) =~= trimmed.take(i as int).push(trimmed[i as int]));
            trimmed.take(i as int).lemma_filter_push(trimmed[i as int], |l: Seq<char>| l.len() > 0);
        }
        if t.len() > 0 {
            let s = chars_string(t.as_slice());
            r.push(s);
            assert(r@.map_values(|s: String| s@) =~= before.push(t@));
        } else {
            assert(r@.map_values(|s: String| s@) =~= before);
        }
        i = i + 1;
    }
    assert(trimmed.take(ls@.len() as int) =~= trimmed);
    r
}

/// The address a listed file is downloaded from.
pub open spec fn site_url(entry: Seq<char>) -> Seq<char> {
    "https://woshihaoren4.github.io/free-agent-engine/"@ + entry
}

/// The address of a listed file.
pub fn download_url(entry: &str) -> (r: String)
    ensures
        r@ == site_url(entry@),
{
    String::from_str("https://woshihaoren4.github.io/free-agent-engine/").concat(entry)
}

/// The file name of a path: what follows its last `/`.
pub open spec fn file_name(p: Seq<char>) -> Seq<char>
    decreases p.len(),
{
    if p.len() == 0 {
        p
    } else if p.last() == '/' {
        Seq::empty()
    } else {
        file_name(p.drop_last()).push(p.last())
    }
}

/// Whether a file name ends in `.zip` after at least one other character.
pub open spec fn zip_name(n: Seq<char>) -> bool {
    n.len() > 4 && n.skip(n.len() - 4) == ".zip"@ && !(n.take(n.len() - 4).len() == 0)
        && !dotted_prefix(n.take(n.len() - 4))
}

/// Whether the stem before the extension is only a leading dot.
pub open spec fn dotted_prefix(stem: Seq<char>) -> bool {
    stem.len() == 1 && stem[0] == '.'
}

/// Whether the path names a zip archive (its extension is `zip`).
pub fn is_zip_path(path: &str) -> (b: bool)
    ensures
        b == zip_name(file_name(path@)),
{
    let v = str_chars(path);
    let mut start: usize = v.len();
    assert(v@.take(v@.len() as int) =~= v@);
    assert(file_name(path@) + v@.skip(v@.len() as int) =~= file_name(path@));
    while start > 0 && v[start - 1] != '/'
        invariant
            start <= v@.len(),
            v@ == path@,
            file_name(path@) == file_name(v@.take(start as int)) + v@.skip(start as int),
        decreases start,
    {
        proof {
            let t = v@.take(start as int);
            assert(t.drop_last() =~= v@.take(start - 1));
            assert(v@.skip(start - 1) =~= seq![t.last()] + v@.skip(start as int));
            assert(file_name(t) == file_name(t.drop_last()).push(t.last()));
            assert(file_name(t.drop_last()).push(t.last()) + v@.skip(start as int) =~= file_name(
                v@.take(start - 1),
            ) + v@.skip(start - 1));
        }
        start = start - 1;
    }
    proof {
        let t = v@.take(start as int);
        if start > 0 {
            assert(t.last() == '/');
        }
        assert(file_name(t) =~= Seq::<char>::empty());
        assert(file_name(path@) =~= v@.skip(start as int));
    }
    let name = crate::text::slice_range(v.as_slice(), start, v.len());
    let n = name.len();
    if n <= 4 {
        return false;
    }
    let ext_ok = name[n - 4] == '.' && name[n - 3] == 'z' && name[n - 2] == 'i' && name[n - 1] == 'p';
    proof {
        reveal_strlit(".zip");
        if ext_ok {
            assert(name@.skip(n - 4) =~= ".zip"@);
        } else {
            if name@.skip(n - 4) == ".zip"@ {
                assert(name@[n - 4] == name@.skip(n - 4)[0]);
                assert(name@[n - 3] == name@.skip(n - 4)[1]);
                assert(name@[n - 2] == name@.skip(n - 4)[2]);
                assert(name@[n - 1] == name@.skip(n - 4)[3]);
            }
        }
    }
    let dotted = n - 4 == 1 && name[0] == '.';
    ext_ok && !dotted
}

/// An agent the setup creates.
#[derive(Debug, Clone, PartialEq, Eq)]
pub struct AgentTemplate {
    pub id: String,
    pub name: String,
    pub description: String,
    /// Its prompt's file in the home's `prompt` directory.
    pub prompt_file: String,
    pub tools: Vec<ToolConfig>,
    pub skills: Vec<SkillConfig>,
    pub sub_agents: Vec<String>,
}

/// The texts of a list of string slices.
pub open spec fn str_views(v: Seq<&str>) -> Seq<Seq<char>> {
    Seq::new(v.len(), |i: int| v[i]@)
}

/// The texts of a list of strings.
pub open spec fn text_views(v: Seq<String>) -> Seq<Seq<char>> {
    Seq::new(v.len(), |i: int| v[i]@)
}

/// The names of a list of tools.
pub open spec fn tool_names(v: Seq<ToolConfig>) -> Seq<Seq<char>> {
    Seq::new(v.len(), |i: int| v[i].name@)
}

/// The names of a list of skills.
pub open spec fn skill_names(v: Seq<SkillConfig>) -> Seq<Seq<char>> {
    Seq::new(v.len(), |i: int| v[i].name@)
}

/// A template with exactly these fields, its tools and skills each on the
/// default channel.
pub open spec fn template_is(
    t: AgentTemplate,
    id: Seq<char>,
    name: Seq<char>,
    description: Seq<char>,
    prompt_file: Seq<char>,
    tools: Seq<Seq<char>>,
    skills: Seq<Seq<char>>,
    sub_agents: Seq<Seq<char>>,
) -> bool {
    &&& t.id@ == id
    &&& t.name@ == name
    &&& t.description@ == description
    &&& t.prompt_file@ == prompt_file
    &&& tool_names(t.tools@) == tools
    &&& skill_names(t.skills@) == skills
    &&& text_views(t.sub_agents@) == sub_agents
    &&& forall|i: int| 0 <= i < t.tools@.len() ==> (#[trigger] t.tools@[i]).channel@ == default_channel()
    &&& forall|i: int| 0 <= i < t.skills@.len() ==> (#[trigger] t.skills@[i]).channel@ == default_channel()
}

fn names(v: &[&str]) -> (r: Vec<String>)
    ensures
        r@.len() == v@.len(),
        forall|i: int| 0 <= i < v@.len() ==> (#[trigger] r@[i])@ == v@[i]@,
{
    let mut r: Vec<String> = Vec::new();
    let mut i: usize = 0;
    while i < v.len()
        invariant
            i <= v@.len(),
            r@.len() == i,
            forall|j: int| 0 <= j < i ==> (#[trigger] r@[j])@ == v@[j]@,
        decreases v@.len() - i,
    {
        r.push(String::from_str(v[i]));
        i = i + 1;
    }
    r
}

fn template(
    id: &str,
    name: &str,
    description: &str,
    prompt_file: &str,
    tools: &[&str],
    skills: &[&str],
    sub_agents: &[&str],
) -> (r: AgentTemplate)
    ensures
        template_is(r, id@, name@, description@, prompt_file@, str_views(tools@), str_views(skills@), str_views(sub_agents@)),
{
    let r = AgentTemplate {
        id: String::from_str(id),
        name: String::from_str(name),
        description: String::from_str(description),
        prompt_file: String::from_str(prompt_file),
        tools: tool_configs(tools),
        skills: skill_configs(skills),
        sub_agents: names(sub_agents),
    };
    assert(tool_names(r.tools@) =~= str_views(tools@));
    assert(skill_names(r.skills@) =~= str_views(skills@));
    assert(text_views(r.sub_agents@) =~= str_views(sub_agents@));
    r
}

/// The agents the setup creates: a coordinating assistant that delegates to
/// a coding assistant, a computer assistant and a testing assistant.
pub fn default_agent_templates() -> (r: Vec<AgentTemplate>)
    ensures
        r@.len() == 4,
        template_is(
            r@[0],
            "fae-assistant"@,
            "风筝任务协调助手"@,
            "风筝任务协调助手负责理解、拆解、分配和监督多个 Agent 协作完成任务。"@,
            "assistant.txt"@,
            seq![
                "read_file"@,
                "write_file"@,
                "list_directory"@,
                "send_http_request"@,
                "ark_web_search"@,
                "todo_write"@,
                "scheduled_execution"@,
                "agent_exec_task"@,
                "apply_patch"@,
                "execute_command"@,
            ],
            seq!["weather"@, "fae"@],
            seq!["fae-aicoding"@, "fae-claw"@, "fae-aitest"@],
        ),
        template_is(
            r@[1],
            "fae-aicoding"@,
            "风筝编程助手"@,
            "风筝编程助手用于项目开发、脚本编写、错误修复、代码优化和工程实现。"@,
            "aicoding.txt"@,
            seq![
                "execute_command"@,
                "read_file"@,
                "write_file"@,
                "list_directory"@,
                "apply_patch"@,
                "execute_python"@,
                "todo_write"@,
                "agent_exec_task"@,
            ],
            seq!["drawio-skill"@, "fae"@],
            Seq::<Seq<char>>::empty(),
        ),
        template_is(
            r@[2],
            "fae-claw"@,
            "风筝电脑管家"@,
            "风筝电脑管家用于计算机自动化、文件处理、系统操作、办公任务和通用问答。"@,
            "claw.txt"@,
            seq![
                "execute_command"@,
                "read_file"@,
                "write_file"@,
                "list_directory"@,
                "send_http_request"@,
                "execute_python"@,
                "todo_write"@,
                "ark_web_search"@,
                "scheduled_execution"@,
                "agent_exec_task"@,
            ],
            seq!["weather"@, "drawio-skill"@, "fae"@],
            Seq::<Seq<char>>::empty(),
        ),
        template_is(
            r@[3],
            "fae-aitest"@,
            "风筝测试助手"@,
            "风筝测试助手负责审查实现、设计测试、执行验证并判断代码是否满足需求。"@,
            "aitest.txt"@,
            seq![
                "execute_command"@,
                "read_file"@,
                "list_directory"@,
                "send_http_request"@,
                "execute_python"@,
                "todo_write"@,
                "agent_exec_task"@,
            ],
            Seq::<Seq<char>>::empty(),
            Seq::<Seq<char>>::empty(),
        ),
{
    let mut r: Vec<AgentTemplate> = Vec::new();
    let tools0: &[&str] = &[
        "read_file",
        "write_file",
        "list_directory",
        "send_http_request",
        "ark_web_search",
        "todo_write",
        "scheduled_execution",
        "agent_exec_task",
        "apply_patch",
        "execute_command",
    ];
    let skills0: &[&str] = &[
        "weather",
        "fae",
    ];
    let subs0: &[&str] = &[
        "fae-aicoding",
        "fae-claw",
        "fae-aitest",
    ];
    assert(str_views(tools0@) =~= seq!["read_file"@, "write_file"@, "list_directory"@, "send_http_request"@, "ark_web_search"@, "todo_write"@, "scheduled_execution"@, "agent_exec_task"@, "apply_patch"@, "execute_command"@]);
    assert(str_views(skills0@) =~= seq!["weather"@, "fae"@]);
    assert(str_views(subs0@) =~= seq!["fae-aicoding"@, "fae-claw"@, "fae-aitest"@]);
    r.push(template("fae-assistant", "风筝任务协调助手", "风筝任务协调助手负责理解、拆解、分配和监督多个 Agent 协作完成任务。", "assistant.txt", tools0, skills0, subs0));
    let tools1: &[&str] = &[
        "execute_command",
        "read_file",
        "write_file",
        "list_directory",
        "apply_patch",
        "execute_python",
        "todo_write",
        "agent_exec_task",
    ];
    let skills1: &[&str] = &[
        "drawio-skill",
        "fae",
    ];
    let subs1: &[&str] = &[];
    assert(str_views(tools1@) =~= seq!["execute_command"@, "read_file"@, "write_file"@, "list_directory"@, "apply_patch"@, "execute_python"@, "todo_write"@, "agent_exec_task"@]);
    assert(str_views(skills1@) =~= seq!["drawio-skill"@, "fae"@]);
    assert(str_views(subs1@) =~= Seq::<Seq<char>>::empty());
    r.push(template("fae-aicoding", "风筝编程助手", "风筝编程助手用于项目开发、脚本编写、错误修复、代码优化和工程实现。", "aicoding.txt", tools1, skills1, subs1));
    let tools2: &[&str] = &[
        "execute_command",
        "read_file",
        "write_file",
        "list_directory",
        "send_http_request",
        "execute_python",
        "todo_write",
        "ark_web_search",
        "scheduled_execution",
        "agent_exec_task",
    ];
    let skills2: &[&str] = &[
        "weather",
        "drawio-skill",
        "fae",
    ];
    let subs2: &[&str] = &[];
    assert(str_views(tools2@) =~= seq!["execute_command"@, "read_file"@, "write_file"@, "list_directory"@, "send_http_request"@, "execute_python"@, "todo_write"@, "ark_web_search"@, "scheduled_execution"@, "agent_exec_task"@]);
    assert(str_views(skills2@) =~= seq!["weather"@, "drawio-skill"@, "fae"@]);
    assert(str_views(subs2@) =~= Seq::<Seq<char>>::empty());
    r.push(template("fae-claw", "风筝电脑管家", "风筝电脑管家用于计算机自动化、文件处理、系统操作、办公任务和通用问答。", "claw.txt", tools2, skills2, subs2));
    let tools3: &[&str] = &[
        "execute_command",
        "read_file",
        "list_directory",
        "send_http_request",
        "execute_python",
        "todo_write",
        "agent_exec_task",
    ];
    let skills3: &[&str] = &[];
    let subs3: &[&str] = &[];
    assert(str_views(tools3@) =~= seq!["execute_command"@, "read_file"@, "list_directory"@, "send_http_request"@, "execute_python"@, "todo_write"@, "agent_exec_task"@]);
    assert(str_views(skills3@) =~= Seq::<Seq<char>>::empty());
    assert(str_views(subs3@) =~= Seq::<Seq<char>>::empty());
    r.push(template("fae-aitest", "风筝测试助手", "风筝测试助手负责审查实现、设计测试、执行验证并判断代码是否满足需求。", "aitest.txt", tools3, skills3, subs3));
    r
}

/// `<fae_dir>/prompt/<file>`, where a template's prompt is written.
pub open spec fn template_prompt_path(fae_dir: Seq<char>, prompt_file: Seq<char>) -> Seq<char> {
    fae_dir + "/prompt/"@ + prompt_file
}

/// Where a template's prompt is written.
pub fn agent_prompt_path(fae_dir: &str, prompt_file: &str) -> (r: String)
    ensures
        r@ == template_prompt_path(fae_dir@, prompt_file@),
{
    String::from_str(fae_dir).concat("/prompt/").concat(prompt_file)
}

/// The prompt file of an agent's configuration: an absolute path as it is,
/// otherwise `<dir>/<agent>/<prompt>`.
pub open spec fn resolved_prompt_dir(prompt_dir: Seq<char>, dir: Seq<char>, agent_id: Seq<char>) -> Seq<char> {
    if prompt_dir.len() > 0 && prompt_dir[0] == '/' {
        prompt_dir
    } else {
        dir + seq!['/'] + agent_id + seq!['/'] + prompt_dir
    }
}

/// The prompt file of an agent's configuration.
pub fn resolve_prompt_dir(prompt_dir: &str, dir: &str, agent_id: &str) -> (r: String)
    ensures
        r@ == resolved_prompt_dir(prompt_dir@, dir@, agent_id@),
{
    let v = str_chars(prompt_dir);
    if v.len() > 0 && v[0] == '/' {
        return String::from_str(prompt_dir);
    }
    let mut out = str_chars(dir);
    out.push('/');
    extend_str(&mut out, agent_id);
    out.push('/');
    extend_chars(&mut out, v.as_slice());
    assert(out@ =~= resolved_prompt_dir(prompt_dir@, dir@, agent_id@));
    chars_string(out.as_slice())
}

/// What the client's `init` created.
#[derive(Debug, Clone, PartialEq, Eq)]
pub struct InitResult {
    pub config_path: String,
    pub prompt_path: String,
    pub skill_count: usize,
}

/// Checks the arguments of `init`: the agent id must be one component and
/// the model must not be blank.
pub fn check_init_args(agent_id: &str, model: &str) -> (r: Result<(), String>)
    ensures
        !single_component(agent_id@) ==> (r matches Err(m) && m@
            == "agent id must be a single non-empty path component"@),
        single_component(agent_id@) && trim(model@).len() == 0 ==> (r matches Err(m) && m@
            == "model must not be empty"@),
        single_component(agent_id@) && trim(model@).len() > 0 ==> r is Ok,
{
    let checked = validate_agent_id(agent_id);
    if checked.is_err() {
        return checked;
    }
    if crate::text::is_blank(str_chars(model).as_slice()) {
        return Err(String::from_str("model must not be empty"));
    }
    Ok(())
}

/// A path in backquotes.
pub open spec fn quoted(p: Seq<char>) -> Seq<char> {
    seq!['`'] + p + seq!['`']
}

/// The refusal to overwrite existing files, naming them.
pub open spec fn overwrite_refusal(existing: Seq<Seq<char>>) -> Seq<char> {
    "refusing to overwrite "@ + crate::text::join(existing.map_values(|p: Seq<char>| quoted(p)), ", "@)
        + "; use --force to replace the agent"@
}

/// The refusal to overwrite the given existing files.
pub fn overwrite_message(existing: &[String]) -> (r: String)
    ensures
        r@ == overwrite_refusal(existing@.map_values(|s: String| s@)),
{
    let ghost ps = existing@.map_values(|s: String| s@);
    let mut rows: Vec<Vec<char>> = Vec::new();
    let mut i: usize = 0;
    while i < existing.len()
        invariant
            i <= existing@.len(),
            ps == existing@.map_values(|s: String| s@),
            char_rows(rows@) == ps.take(i as int).map_values(|p: Seq<char>| quoted(p)),
        decreases existing@.len() - i,
    {
        let mut row: Vec<char> = Vec::new();
        row.push('`');
        extend_str(&mut row, existing[i].as_str());
        row.push('`');
        assert(row@ =~= quoted(ps[i as int]));
        let ghost before = char_rows(rows@);
        rows.push(row);
        assert(char_rows(rows@) =~= before.push(row@));
        assert(ps.take(i + 1).map_values(|p: Seq<char>| quoted(p)) =~= ps.take(i as int).map_values(
            |p: Seq<char>| quoted(p),
        ).push(quoted(ps[i as int])));
        i = i + 1;
    }
    assert(ps.take(existing@.len() as int) =~= ps);
    let sep = str_chars(", ");
    let body = crate::text::join_rows(&rows, sep.as_slice());
    let mut out: Vec<char> = Vec::new();
    extend_str(&mut out, "refusing to overwrite ");
    extend_chars(&mut out, body.as_slice());
    extend_str(&mut out, "; use --force to replace the agent");
    chars_string(out.as_slice())
}

} // verus!
