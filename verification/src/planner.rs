//! Decisions an agent makes while it plans a session: what input a task
//! handed between agents becomes, which channel a tool call goes to, how
//! much effort the model is asked to reason with, and when the context is
//! compacted.
use crate::agent_task::AgentTask;
use crate::record::{copy_texts, record_views, texts_of, ItemView, Record, RecordItem, RecordView, UserContent};
use vstd::prelude::*;
use vstd::string::StringExecFns;

verus! {

/// The input a task becomes for the agent that receives it.
#[derive(Debug, Clone, PartialEq, Eq)]
pub struct TaskInput {
    pub user_id: String,
    pub session_id: String,
    pub text: String,
}

/// Why a task cannot be taken up.
#[derive(Debug, Clone, PartialEq, Eq)]
pub enum TaskInputError {
    /// The task's status is none of the four an agent knows; it is carried.
    UnsupportedStatus(String),
}

/// What the executor of a new task is asked to do.
pub open spec fn created_task_text(task_id: Seq<char>, content: Seq<char>) -> Seq<char> {
    "You receive a task from another agent, which you must complete and update the task status upon completion.\n-Task ID："@
        + task_id + "\n-Task Details：\n"@ + content
}

/// What the author of a task is told once it is done.
pub open spec fn finished_task_text(content: Seq<char>, executor: Seq<char>, status: Seq<char>, result: Seq<char>) -> Seq<char> {
    "The task you posted has been completed. \nTask Details: "@ + content + "\n---\nExecutor: "@ + executor
        + "\n Task Status: "@ + status + "\n Result:\n"@ + result
}

/// The input a task becomes: a new task goes to its executor's session, a
/// finished one (completed or failed) back to its author's; a task under way
/// asks for nothing.
pub open spec fn task_input_is(task: AgentTask, r: Result<Option<TaskInput>, TaskInputError>) -> bool {
    let st = task.status@;
    if st == "create"@ {
        r matches Ok(Some(i)) && i.user_id@ == task.executor.user_id@ && i.session_id@ == task.executor.session_id@
            && i.text@ == created_task_text(task.task_id@, task.content@)
    } else if st == "executing"@ {
        r == Ok::<Option<TaskInput>, TaskInputError>(None)
    } else if st == "completed"@ || st == "failed"@ {
        r matches Ok(Some(i)) && i.user_id@ == task.author.user_id@ && i.session_id@ == task.author.session_id@
            && i.text@ == finished_task_text(task.content@, task.executor.agent_id@, st, task.result@)
    } else {
        r matches Err(TaskInputError::UnsupportedStatus(s)) && s@ == st
    }
}

/// The input that a task handed to this agent becomes.
pub fn agent_task_input(task: &AgentTask) -> (r: Result<Option<TaskInput>, TaskInputError>)
    ensures
        task_input_is(*task, r),
{
    let st = task.status.as_str();
    proof {
        reveal_strlit("create");
        reveal_strlit("executing");
        reveal_strlit("completed");
        reveal_strlit("failed");
    }
    if task.status == String::from_str("create") {
        let mut text = String::from_str(
            "You receive a task from another agent, which you must complete and update the task status upon completion.\n-Task ID：",
        );
        text.append(task.task_id.as_str());
        text.append("\n-Task Details：\n");
        text.append(task.content.as_str());
        Ok(
            Some(
                TaskInput {
                    user_id: task.executor.user_id.clone(),
                    session_id: task.executor.session_id.clone(),
                    text,
                },
            ),
        )
    } else if task.status == String::from_str("executing") {
        Ok(None)
    } else if task.status == String::from_str("completed") || task.status == String::from_str("failed") {
        let mut text = String::from_str("The task you posted has been completed. \nTask Details: ");
        text.append(task.content.as_str());
        text.append("\n---\nExecutor: ");
        text.append(task.executor.agent_id.as_str());
        text.append("\n Task Status: ");
        text.append(st);
        text.append("\n Result:\n");
        text.append(task.result.as_str());
        Ok(
            Some(
                TaskInput {
                    user_id: task.author.user_id.clone(),
                    session_id: task.author.session_id.clone(),
                    text,
                },
            ),
        )
    } else {
        Err(TaskInputError::UnsupportedStatus(task.status.clone()))
    }
}

/// What the agent is asked when a scheduled task of the user falls due.
pub open spec fn timed_task_text(content: Seq<char>) -> Seq<char> {
    "When a user's scheduled task expires, you must execute it.\nImportant: Users will not receive your output; you must send it to them via notification.\nTask Details：\n"@
        + content
}

/// The input a scheduled task becomes.
pub fn timed_task_input(content: &str) -> (r: String)
    ensures
        r@ == timed_task_text(content@),
{
    let mut text = String::from_str(
        "When a user's scheduled task expires, you must execute it.\nImportant: Users will not receive your output; you must send it to them via notification.\nTask Details：\n",
    );
    text.append(content);
    text
}

/// The first ten characters of a text (all of it when shorter): the title a
/// new session gets from its first input.
pub open spec fn title_of(content: Seq<char>) -> Seq<char> {
    if content.len() <= 10 {
        content
    } else {
        content.take(10)
    }
}

/// The title a new session gets from its first input.
pub fn session_title(content: &str) -> (r: String)
    ensures
        r@ == title_of(content@),
{
    let v = crate::text::str_chars(content);
    let n = if v.len() <= 10 {
        v.len()
    } else {
        10
    };
    let part = crate::text::slice_range(v.as_slice(), 0, n);
    assert(part@ =~= title_of(content@));
    crate::text::chars_string(part.as_slice())
}

/// The session a task goes to: the one it names, or a fresh one (a random
/// UUID) when it names none.
pub fn task_session_id(session_id: String) -> (r: String)
    ensures
        session_id@.len() > 0 ==> r == session_id,
        session_id@.len() == 0 ==> crate::memory::uuid_v4_text(r@),
{
    if session_id.as_str().unicode_len() == 0 {
        crate::memory::new_uuid()
    } else {
        session_id
    }
}

/// Whether `__` starts at position `i`.
pub open spec fn sep_at(s: Seq<char>, i: int) -> bool {
    0 <= i && i + 1 < s.len() && s[i] == '_' && s[i + 1] == '_'
}

/// Where the first `__` starts, or -1.
pub open spec fn first_sep(s: Seq<char>) -> int {
    if exists|i: int| #[trigger] sep_at(s, i) {
        choose|i: int| sep_at(s, i) && forall|j: int| 0 <= j < i ==> !#[trigger] sep_at(s, j)
    } else {
        -1
    }
}

/// A tool's channel and name from the name the model calls it by:
/// `channel__name`, split at the first `__`; a name without `__` is in the
/// default channel.
pub open spec fn tool_channel(s: Seq<char>) -> (Seq<char>, Seq<char>) {
    let k = first_sep(s);
    if k >= 0 {
        (s.take(k), s.skip(k + 2))
    } else {
        ("default"@, s)
    }
}

/// The channel and name of a tool, from the name the model calls it by.
pub fn parse_tool_channel(tool_name: &str) -> (r: (String, String))
    ensures
        (r.0@, r.1@) == tool_channel(tool_name@),
{
    let v = crate::text::str_chars(tool_name);
    let n = v.len();
    let mut i: usize = 0;
    while n > 0 && i < n - 1
        invariant
            v@ == tool_name@,
            n == v@.len(),
            i <= n,
            forall|j: int| 0 <= j < i ==> !#[trigger] sep_at(v@, j),
        decreases n - i,
    {
        if v[i] == '_' && v[i + 1] == '_' {
            proof {
                assert(sep_at(v@, i as int));
                let k = first_sep(v@);
                assert(sep_at(v@, k) && forall|j: int| 0 <= j < k ==> !#[trigger] sep_at(v@, j));
                if k < i {
                } else if k > i {
                    assert(!sep_at(v@, i as int));
                }
                assert(k == i);
            }
            let a = crate::text::slice_range(v.as_slice(), 0, i);
            let b = crate::text::slice_range(v.as_slice(), i + 2, n);
            assert(a@ =~= v@.take(i as int));
            assert(b@ =~= v@.skip(i + 2));
            return (crate::text::chars_string(a.as_slice()), crate::text::chars_string(b.as_slice()));
        }
        i = i + 1;
    }
    proof {
        assert forall|j: int| !#[trigger] sep_at(v@, j) by {
            if 0 <= j && j + 1 < n {
                assert(j < i);
            }
        }
    }
    (String::from_str("default"), String::from_str(tool_name))
}

/// How much reasoning the model is asked for.
#[derive(Debug, Clone, Copy, PartialEq, Eq)]
pub enum ReasoningEffort {
    Minimal,
    Low,
    Medium,
    High,
}

/// The effort a configured level asks for: 1 to 4, from minimal to high;
/// any other level asks for none.
pub open spec fn effort_of(level: i32) -> Option<ReasoningEffort> {
    if level == 1 {
        Some(ReasoningEffort::Minimal)
    } else if level == 2 {
        Some(ReasoningEffort::Low)
    } else if level == 3 {
        Some(ReasoningEffort::Medium)
    } else if level == 4 {
        Some(ReasoningEffort::High)
    } else {
        None
    }
}

/// The reasoning effort for a configured level.
pub fn reasoning_effort(level: Option<i32>) -> (r: Option<ReasoningEffort>)
    ensures
        r == (match level {
            Some(l) => effort_of(l),
            None => None,
        }),
{
    match level {
        Some(1) => Some(ReasoningEffort::Minimal),
        Some(2) => Some(ReasoningEffort::Low),
        Some(3) => Some(ReasoningEffort::Medium),
        Some(4) => Some(ReasoningEffort::High),
        _ => None,
    }
}

/// Whether the context is compacted before the model is called: only where
/// a least window size is configured, once the context (its size taken
/// modulo 2^32) reaches it.
pub fn should_compact(context_size: usize, min_compact_window_size: Option<u32>) -> (b: bool)
    ensures
        b == (match min_compact_window_size {
            Some(m) => context_size as u32 >= m,
            None => false,
        }),
{
    match min_compact_window_size {
        Some(m) => {
            let low: u32 = context_size as u32;
            low >= m
        },
        None => false,
    }
}

/// What a tool's output becomes when it hands back no content of its own.
pub open spec fn tool_success_text(tool_name: Seq<char>, msg: Seq<char>) -> Seq<char> {
    "The tool["@ + tool_name + "] executed successfully. msg="@ + msg
}

/// The output recorded for a tool that succeeded without content.
pub fn tool_success_message(tool_name: &str, msg: &str) -> (r: String)
    ensures
        r@ == tool_success_text(tool_name@, msg@),
{
    let mut t = String::from_str("The tool[");
    t.append(tool_name);
    t.append("] executed successfully. msg=");
    t.append(msg);
    t
}

} // verus!

verus! {

/// A message of a request to the model.
#[derive(Debug, Clone, PartialEq, Eq)]
pub enum RequestMessage {
    System(String),
    User(UserContent),
    Assistant(String),
    /// An assistant message that calls one tool.
    ToolCall { id: String, name: String, arguments: String },
    /// A tool's answer to a call.
    Tool { tool_call_id: String, content: String },
}

/// A request message with its texts taken by their characters.
pub enum RequestView {
    System(Seq<char>),
    UserText(Seq<char>),
    UserParts(Seq<Seq<char>>),
    Assistant(Seq<char>),
    ToolCall { id: Seq<char>, name: Seq<char>, arguments: Seq<char> },
    Tool { tool_call_id: Seq<char>, content: Seq<char> },
}

/// The view of a request message.
pub open spec fn request_view(m: RequestMessage) -> RequestView {
    match m {
        RequestMessage::System(t) => RequestView::System(t@),
        RequestMessage::User(UserContent::Text(t)) => RequestView::UserText(t@),
        RequestMessage::User(UserContent::Parts(p)) => RequestView::UserParts(texts_of(p@)),
        RequestMessage::Assistant(t) => RequestView::Assistant(t@),
        RequestMessage::ToolCall { id, name, arguments } => RequestView::ToolCall { id: id@, name: name@, arguments: arguments@ },
        RequestMessage::Tool { tool_call_id, content } => RequestView::Tool { tool_call_id: tool_call_id@, content: content@ },
    }
}

/// The views of a list of request messages.
pub open spec fn request_views(v: Seq<RequestMessage>) -> Seq<RequestView> {
    v.map_values(|m: RequestMessage| request_view(m))
}

/// What a record tells the model: the user's input, the model's answers,
/// its tool calls and the tools' answers; thoughts, notices and waiting
/// records tell it nothing.
pub open spec fn request_of(i: ItemView) -> Option<RequestView> {
    match i {
        ItemView::UserText(t) => Some(RequestView::UserText(t)),
        ItemView::UserParts(p) => Some(RequestView::UserParts(p)),
        ItemView::Output(t) => Some(RequestView::Assistant(t)),
        ItemView::Call { id, name, args, .. } => Some(RequestView::ToolCall { id, name, arguments: args }),
        ItemView::Out { id, output, .. } => Some(RequestView::Tool { tool_call_id: id, content: output }),
        _ => None,
    }
}

/// What a list of records tells the model, in order.
pub open spec fn requests_of(items: Seq<RecordView>) -> Seq<RequestView>
    decreases items.len(),
{
    if items.len() == 0 {
        Seq::empty()
    } else {
        let rest = requests_of(items.drop_last());
        match request_of(items.last().item) {
            Some(m) => rest.push(m),
            None => rest,
        }
    }
}

impl Record {
    /// What the record tells the model, if anything.
    pub fn to_request_message(&self) -> (r: Option<RequestMessage>)
        ensures
            match r {
                Some(m) => request_of(self@.item) == Some(request_view(m)),
                None => request_of(self@.item) is None,
            },
    {
        match &self.item {
            RecordItem::UserInput(UserContent::Text(t)) => Some(RequestMessage::User(UserContent::Text(t.clone()))),
            RecordItem::UserInput(UserContent::Parts(p)) => Some(RequestMessage::User(UserContent::Parts(copy_texts(p)))),
            RecordItem::ModelOutput(t) => Some(RequestMessage::Assistant(t.clone())),
            RecordItem::ToolCall(c) => Some(
                RequestMessage::ToolCall {
                    id: c.tool_call_id.clone(),
                    name: c.tool_name.clone(),
                    arguments: c.arguments.clone(),
                },
            ),
            RecordItem::ToolOutput(o) => Some(RequestMessage::Tool { tool_call_id: o.tool_call_id.clone(), content: o.output.clone() }),
            _ => None,
        }
    }
}

/// Appends what the records tell the model.
fn push_requests(r: &mut Vec<RequestMessage>, records: &Vec<Record>)
    ensures
        request_views(final(r)@) == request_views(old(r)@) + requests_of(record_views(records@)),
{
    let ghost start = request_views(r@);
    let ghost all = record_views(records@);
    let mut i: usize = 0;
    while i < records.len()
        invariant
            i <= records@.len(),
            all == record_views(records@),
            request_views(r@) == start + requests_of(all.take(i as int)),
        decreases records@.len() - i,
    {
        let m = records[i].to_request_message();
        proof {
            assert(all.take(i + 1).drop_last() =~= all.take(i as int));
            assert(all.take(i + 1).last() == records@[i as int]@);
        }
        match m {
            Some(m) => {
                let ghost before = r@;
                r.push(m);
                assert(request_views(r@) =~= request_views(before).push(request_view(m)));
            },
            None => {},
        }
        i = i + 1;
    }
    assert(all.take(records@.len() as int) =~= all);
}

/// The system prompt of a request: the agent's prompt, a line break, and
/// what the agent knows of its session.
pub open spec fn system_prompt(prompt: Seq<char>, agent_info: Seq<char>) -> Seq<char> {
    prompt + "\n"@ + agent_info
}

/// The messages of a request to the model: the system prompt, then what
/// the remembered history tells, then what this session's records tell.
pub fn request_messages(prompt: &str, agent_info: &str, history: &Vec<Record>, exec_records: &Vec<Record>) -> (r: Vec<RequestMessage>)
    ensures
        request_views(r@) == seq![RequestView::System(system_prompt(prompt@, agent_info@))]
            + requests_of(record_views(history@)) + requests_of(record_views(exec_records@)),
{
    let mut p = String::from_str(prompt);
    p.append("\n");
    p.append(agent_info);
    let mut r: Vec<RequestMessage> = Vec::new();
    r.push(RequestMessage::System(p));
    assert(request_views(r@) =~= seq![RequestView::System(system_prompt(prompt@, agent_info@))]);
    push_requests(&mut r, history);
    push_requests(&mut r, exec_records);
    r
}

/// The instruction that asks the model to compress the conversation.
pub open spec fn compact_prompt() -> Seq<char> {
    "Please compress the current conversation context, preserving only the information necessary to continue the task later. Remove repetition, small talk, low-value reasoning, and already-resolved intermediate steps.\nThe compressed result should include:\n1. The user’s final goal and explicit requirements\n2. Work completed so far and key decisions made\n3. Remaining tasks\n4. Important file paths, commands, configurations, APIs, and constraints\n5. Discovered issues, errors, test results, and risks\n6. Preferences or limitations that must be followed later\nRequirements:\n- Keep facts accurate and do not introduce new assumptions\n- Use concise bullet points\n- Preserve actionable details and omit irrelevant process\n- If any information is unconfirmed, clearly mark it as “unconfirmed”\n- Output only the compressed context; do not explain the compression method"@
}

/// The user turn that closes a compression request.
pub open spec fn compact_request() -> Seq<char> {
    "The current context is too long; you must perform a compression process."@
}

/// The messages of a request that compresses the context: the compression
/// instruction in place of the system prompt, the conversation, then the
/// request to compress.
pub fn compaction_messages(history: &Vec<Record>, exec_records: &Vec<Record>) -> (r: Vec<RequestMessage>)
    ensures
        request_views(r@) == seq![RequestView::System(compact_prompt())] + requests_of(record_views(history@))
            + requests_of(record_views(exec_records@)) + seq![RequestView::UserText(compact_request())],
{
    let mut r: Vec<RequestMessage> = Vec::new();
    r.push(
        RequestMessage::System(
            String::from_str(
                "Please compress the current conversation context, preserving only the information necessary to continue the task later. Remove repetition, small talk, low-value reasoning, and already-resolved intermediate steps.\nThe compressed result should include:\n1. The user’s final goal and explicit requirements\n2. Work completed so far and key decisions made\n3. Remaining tasks\n4. Important file paths, commands, configurations, APIs, and constraints\n5. Discovered issues, errors, test results, and risks\n6. Preferences or limitations that must be followed later\nRequirements:\n- Keep facts accurate and do not introduce new assumptions\n- Use concise bullet points\n- Preserve actionable details and omit irrelevant process\n- If any information is unconfirmed, clearly mark it as “unconfirmed”\n- Output only the compressed context; do not explain the compression method",
            ),
        ),
    );
    assert(request_views(r@) =~= seq![RequestView::System(compact_prompt())]);
    push_requests(&mut r, history);
    push_requests(&mut r, exec_records);
    let ghost before = r@;
    r.push(RequestMessage::User(UserContent::Text(String::from_str("The current context is too long; you must perform a compression process."))));
    assert(request_views(r@) =~= request_views(before).push(RequestView::UserText(compact_request())));
    r
}

} // verus!

verus! {

/// Where a tool call goes.
#[derive(Debug, Clone, Copy, PartialEq, Eq)]
pub enum ToolKind {
    /// A tool of the agent's own.
    Tool,
    /// A tool of an MCP server.
    Mcp,
}

/// The task a tool call becomes: its kind, channel and tool name.
#[derive(Debug, Clone, PartialEq, Eq)]
pub struct ToolRoute {
    pub kind: ToolKind,
    pub channel: String,
    pub name: String,
}

/// Index of the first MCP tool with the name, or -1.
pub open spec fn first_mcp(mcp_tools: Seq<(Seq<char>, Seq<char>)>, name: Seq<char>) -> int {
    if exists|i: int| 0 <= i < mcp_tools.len() && (#[trigger] mcp_tools[i]).1 == name {
        choose|i: int|
            0 <= i < mcp_tools.len() && (#[trigger] mcp_tools[i]).1 == name && forall|j: int|
                0 <= j < i ==> (#[trigger] mcp_tools[j]).1 != name
    } else {
        -1
    }
}

/// Pairs of texts by their characters.
pub open spec fn pair_texts(v: Seq<(String, String)>) -> Seq<(Seq<char>, Seq<char>)> {
    v.map_values(|p: (String, String)| (p.0@, p.1@))
}

/// Texts by their characters, from a slice.
pub open spec fn slice_texts(v: Seq<String>) -> Seq<Seq<char>> {
    v.map_values(|s: String| s@)
}

/// Where a call of `tool_name` goes: to the agent's own tool of that name
/// (its channel and name read from the name), else to the first MCP tool of
/// that name (its server's channel); `None` when there is neither.
pub open spec fn route_of(tools: Seq<Seq<char>>, mcp_tools: Seq<(Seq<char>, Seq<char>)>, tool_name: Seq<char>) -> Option<(ToolKind, Seq<char>, Seq<char>)> {
    if tools.contains(tool_name) {
        Some((ToolKind::Tool, tool_channel(tool_name).0, tool_channel(tool_name).1))
    } else if first_mcp(mcp_tools, tool_name) >= 0 {
        Some((ToolKind::Mcp, mcp_tools[first_mcp(mcp_tools, tool_name)].0, tool_name))
    } else {
        None
    }
}

/// Where a tool call goes, given the names of the agent's own tools (each
/// `channel__name`) and the MCP tools by channel and name. An unknown tool
/// is refused with its name.
pub fn route_tool_call(tools: &Vec<String>, mcp_tools: &Vec<(String, String)>, tool_name: &str) -> (r: Result<ToolRoute, String>)
    ensures
        match r {
            Ok(t) => route_of(slice_texts(tools@), pair_texts(mcp_tools@), tool_name@) == Some((t.kind, t.channel@, t.name@)),
            Err(n) => route_of(slice_texts(tools@), pair_texts(mcp_tools@), tool_name@) is None && n@ == tool_name@,
        },
{
    let ghost tv = slice_texts(tools@);
    let ghost mv = pair_texts(mcp_tools@);
    let name = String::from_str(tool_name);
    let mut i: usize = 0;
    while i < tools.len()
        invariant
            i <= tools@.len(),
            tv == slice_texts(tools@),
            name@ == tool_name@,
            forall|j: int| 0 <= j < i ==> tv[j] != tool_name@,
        decreases tools@.len() - i,
    {
        if tools[i] == name {
            assert(tv[i as int] == tool_name@);
            let (channel, n) = parse_tool_channel(tool_name);
            return Ok(ToolRoute { kind: ToolKind::Tool, channel, name: n });
        }
        i = i + 1;
    }
    assert(!tv.contains(tool_name@)) by {
        if tv.contains(tool_name@) {
            let j = choose|j: int| 0 <= j < tv.len() && tv[j] == tool_name@;
            assert(tv[j] != tool_name@);
        }
    }
    let mut k: usize = 0;
    while k < mcp_tools.len()
        invariant
            k <= mcp_tools@.len(),
            mv == pair_texts(mcp_tools@),
            tv == slice_texts(tools@),
            !tv.contains(tool_name@),
            name@ == tool_name@,
            forall|j: int| 0 <= j < k ==> (#[trigger] mv[j]).1 != tool_name@,
        decreases mcp_tools@.len() - k,
    {
        if mcp_tools[k].1 == name {
            proof {
                assert(mv[k as int].1 == tool_name@);
                let f = first_mcp(mv, tool_name@);
                assert(0 <= f < mv.len() && mv[f].1 == tool_name@ && forall|j: int| 0 <= j < f ==> (#[trigger] mv[j]).1 != tool_name@);
                if f < k {
                } else if f > k {
                    assert(mv[k as int].1 != tool_name@);
                }
                assert(f == k);
            }
            let channel = mcp_tools[k].0.clone();
            assert(channel@ == mv[k as int].0);
            return Ok(ToolRoute { kind: ToolKind::Mcp, channel, name });
        }
        k = k + 1;
    }
    Err(name)
}

} // verus!

verus! {

/// A text with each line feed written as carriage return and line feed.
pub open spec fn crlf(s: Seq<char>) -> Seq<char>
    decreases s.len(),
{
    if s.len() == 0 {
        Seq::empty()
    } else if s.last() == '\n' {
        crlf(s.drop_last()) + "\r\n"@
    } else {
        crlf(s.drop_last()).push(s.last())
    }
}

/// A text with each line feed written as carriage return and line feed.
pub fn to_crlf(s: &str) -> (r: String)
    ensures
        r@ == crlf(s@),
{
    let v = crate::text::str_chars(s);
    let mut out: Vec<char> = Vec::new();
    let mut i: usize = 0;
    while i < v.len()
        invariant
            i <= v@.len(),
            v@ == s@,
            out@ == crlf(v@.take(i as int)),
        decreases v@.len() - i,
    {
        proof {
            assert(v@.take(i + 1).drop_last() =~= v@.take(i as int));
            assert(v@.take(i + 1).last() == v@[i as int]);
            reveal_strlit("\r\n");
        }
        if v[i] == '\n' {
            out.push('\r');
            out.push('\n');
            assert(out@ =~= crlf(v@.take(i + 1)));
        } else {
            out.push(v[i]);
        }
        i = i + 1;
    }
    assert(v@.take(v@.len() as int) =~= v@);
    crate::text::chars_string(out.as_slice())
}

/// A block of an agent's output as the console prints it.
pub open spec fn echo_block(agent_id: Seq<char>, session_id: Seq<char>, title: Seq<char>, content: Seq<char>) -> Seq<char> {
    "\r\n---["@ + agent_id + ":"@ + session_id + "]-> "@ + title + ":\r\n"@ + crlf(content) + "\r\n"@
}

/// Output of an agent that has no session to stream to: records are
/// gathered under their title and printed a block at a time.
pub struct ConsoleEcho {
    pub agent_id: String,
    pub session_id: String,
    pub title: String,
    pub content: String,
}

impl ConsoleEcho {
    pub fn new(agent_id: String, session_id: String) -> (r: ConsoleEcho)
        ensures
            r.agent_id == agent_id,
            r.session_id == session_id,
            r.title@ == Seq::<char>::empty(),
            r.content@ == Seq::<char>::empty(),
    {
        ConsoleEcho { agent_id, session_id, title: String::new(), content: String::new() }
    }

    /// The block that holds what was gathered under the current title.
    pub fn block(&self) -> (r: String)
        ensures
            r@ == echo_block(self.agent_id@, self.session_id@, self.title@, self.content@),
    {
        let mut b = String::from_str("\r\n---[");
        b.append(self.agent_id.as_str());
        b.append(":");
        b.append(self.session_id.as_str());
        b.append("]-> ");
        b.append(self.title.as_str());
        b.append(":\r\n");
        let c = to_crlf(self.content.as_str());
        b.append(c.as_str());
        b.append("\r\n");
        b
    }

    /// Gathers a record's content under its title. When the title changes,
    /// what was gathered under the previous one (if it had a title) is
    /// handed back to be printed, and gathering starts afresh.
    pub fn push(&mut self, title: &str, content: &str) -> (r: Option<String>)
        ensures
            final(self).agent_id == old(self).agent_id,
            final(self).session_id == old(self).session_id,
            final(self).title@ == title@,
            old(self).title@ == title@ ==> (r is None && final(self).content@ == old(self).content@ + content@),
            old(self).title@ != title@ ==> (final(self).content@ == content@ && (if old(self).title@.len() > 0 {
                r matches Some(b) && b@ == echo_block(old(self).agent_id@, old(self).session_id@, old(self).title@, old(self).content@)
            } else {
                r is None
            })),
    {
        let mut printed: Option<String> = None;
        let t = String::from_str(title);
        if !(self.title == t) {
            if self.title.as_str().unicode_len() > 0 {
                printed = Some(self.block());
            }
            self.title = t;
            self.content = String::new();
        }
        self.content.append(content);
        printed
    }

    /// What is left to print when the session ends.
    pub fn close(&self) -> (r: Option<String>)
        ensures
            self.content@.len() > 0 ==> (r matches Some(b) && b@ == echo_block(self.agent_id@, self.session_id@, self.title@, self.content@)),
            self.content@.len() == 0 ==> r is None,
    {
        if self.content.as_str().unicode_len() > 0 {
            Some(self.block())
        } else {
            None
        }
    }
}

} // verus!
