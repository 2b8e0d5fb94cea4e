//! One turn of a single agent: the conversation it sends the model (the
//! system prompt, the recent history since the latest summary, the user's
//! input), what it makes of the model's answer (an answer, a retry, tool
//! calls or a failure), how tool answers are counted in, and how a
//! compressed summary replaces the conversation.
use crate::record::FunctionCall;
use crate::text::{is_ws, trim};
use vstd::prelude::*;
use vstd::string::StringExecFns;

verus! {

/// Who a stored session message is from.
#[derive(Debug, Clone, Copy, PartialEq, Eq, Structural)]
pub enum Role {
    User,
    Assistant,
    /// A summary that stands for everything before it.
    Summary,
}

/// A message kept in a session's history.
#[derive(Debug, Clone, PartialEq, Eq)]
pub struct SessionMessage {
    pub role: Role,
    pub content: String,
}

impl SessionMessage {
    pub fn user(content: String) -> (r: SessionMessage)
        ensures
            r == (SessionMessage { role: Role::User, content }),
    {
        SessionMessage { role: Role::User, content }
    }

    pub fn assistant(content: String) -> (r: SessionMessage)
        ensures
            r == (SessionMessage { role: Role::Assistant, content }),
    {
        SessionMessage { role: Role::Assistant, content }
    }

    pub fn summary(content: String) -> (r: SessionMessage)
        ensures
            r == (SessionMessage { role: Role::Summary, content }),
    {
        SessionMessage { role: Role::Summary, content }
    }
}

/// A message of the conversation sent to the model.
#[derive(Debug, Clone, PartialEq, Eq)]
pub enum ChatMessage {
    System(String),
    User(String),
    /// The model's turn: its text, if any, and the tools it called.
    Assistant { content: Option<String>, tool_calls: Vec<FunctionCall> },
    /// A tool's answer to one call.
    Tool { call_id: String, content: String },
}

/// A tool call by its texts.
pub struct CallView {
    pub id: Seq<char>,
    pub name: Seq<char>,
    pub arguments: Seq<char>,
}

/// A chat message by its texts.
pub enum ChatView {
    System(Seq<char>),
    User(Seq<char>),
    Assistant { content: Option<Seq<char>>, tool_calls: Seq<CallView> },
    Tool { call_id: Seq<char>, content: Seq<char> },
}

/// The view of a tool call.
pub open spec fn call_view(c: FunctionCall) -> CallView {
    CallView { id: c.id@, name: c.name@, arguments: c.arguments@ }
}

/// The views of tool calls.
pub open spec fn call_views(v: Seq<FunctionCall>) -> Seq<CallView> {
    v.map_values(|c: FunctionCall| call_view(c))
}

/// The view of a chat message.
pub open spec fn chat_view(m: ChatMessage) -> ChatView {
    match m {
        ChatMessage::System(t) => ChatView::System(t@),
        ChatMessage::User(t) => ChatView::User(t@),
        ChatMessage::Assistant { content, tool_calls } => ChatView::Assistant {
            content: match content {
                Some(t) => Some(t@),
                None => None,
            },
            tool_calls: call_views(tool_calls@),
        },
        ChatMessage::Tool { call_id, content } => ChatView::Tool { call_id: call_id@, content: content@ },
    }
}

/// The views of chat messages.
pub open spec fn chat_views(v: Seq<ChatMessage>) -> Seq<ChatView> {
    v.map_values(|m: ChatMessage| chat_view(m))
}

/// How a summary is put to the model.
pub open spec fn summary_text(content: Seq<char>) -> Seq<char> {
    "Compressed conversation context:\n"@ + content
}

/// A stored message as the model sees it: the user's and the assistant's
/// as they are, a summary as a user message that introduces it.
pub open spec fn history_chat(role: Role, content: Seq<char>) -> ChatView {
    match role {
        Role::User => ChatView::User(content),
        Role::Assistant => ChatView::Assistant { content: Some(content), tool_calls: Seq::empty() },
        Role::Summary => ChatView::User(summary_text(content)),
    }
}

/// The user message that puts a summary to the model.
pub fn summary_chat_message(content: &str) -> (r: ChatMessage)
    ensures
        chat_view(r) == ChatView::User(summary_text(content@)),
{
    let mut t = String::from_str("Compressed conversation context:\n");
    t.append(content);
    ChatMessage::User(t)
}

/// A stored message as the model sees it.
pub fn session_message_to_chat(message: &SessionMessage) -> (r: ChatMessage)
    ensures
        chat_view(r) == history_chat(message.role, message.content@),
{
    match message.role {
        Role::User => ChatMessage::User(message.content.clone()),
        Role::Assistant => {
            let r = ChatMessage::Assistant { content: Some(message.content.clone()), tool_calls: Vec::new() };
            assert(call_views(Seq::<FunctionCall>::empty()) =~= Seq::<CallView>::empty());
            r
        },
        Role::Summary => summary_chat_message(message.content.as_str()),
    }
}

/// Index of the latest summary in a history, or 0 when there is none.
pub open spec fn last_summary(history: Seq<SessionMessage>) -> int
    decreases history.len(),
{
    if history.len() == 0 {
        0
    } else if history.last().role == Role::Summary {
        history.len() - 1
    } else {
        last_summary(history.drop_last())
    }
}

/// Where the history sent to the model starts: at most the last
/// `2 * history_turns` messages, and nothing before the latest summary.
pub open spec fn history_start(history: Seq<SessionMessage>, history_turns: nat) -> int {
    let limit = 2 * history_turns;
    let by_turns = if history.len() > limit {
        history.len() - limit
    } else {
        0
    };
    let s = last_summary(history);
    if by_turns > s {
        by_turns
    } else {
        s
    }
}

/// The conversation a turn opens with: the system prompt (when there is
/// one), the history from `history_start`, and the user's input.
pub open spec fn opening_messages(prompt: Seq<char>, history: Seq<SessionMessage>, history_turns: nat, input: Seq<char>) -> Seq<ChatView> {
    let head: Seq<ChatView> = if prompt.len() > 0 {
        seq![ChatView::System(prompt)]
    } else {
        Seq::empty()
    };
    let past = history.skip(history_start(history, history_turns)).map_values(
        |m: SessionMessage| history_chat(m.role, m.content@),
    );
    head + past + seq![ChatView::User(input)]
}

proof fn lemma_last_summary(history: Seq<SessionMessage>)
    ensures
        0 <= last_summary(history) <= history.len(),
        history.len() > 0 ==> last_summary(history) < history.len(),
    decreases history.len(),
{
    if history.len() > 0 {
        lemma_last_summary(history.drop_last());
    }
}

/// A copy of tool calls.
pub fn copy_calls(v: &Vec<FunctionCall>) -> (r: Vec<FunctionCall>)
    ensures
        call_views(r@) == call_views(v@),
{
    let mut r: Vec<FunctionCall> = Vec::new();
    let mut i: usize = 0;
    while i < v.len()
        invariant
            i <= v@.len(),
            call_views(r@) == call_views(v@).take(i as int),
        decreases v@.len() - i,
    {
        let c = FunctionCall { id: v[i].id.clone(), name: v[i].name.clone(), arguments: v[i].arguments.clone() };
        let ghost before = r@;
        r.push(c);
        assert(call_views(r@) =~= call_views(before).push(call_view(c)));
        assert(call_views(v@).take(i + 1) =~= call_views(v@).take(i as int).push(call_view(v@[i as int])));
        i = i + 1;
    }
    assert(call_views(v@).take(v@.len() as int) =~= call_views(v@));
    r
}

/// A copy of a chat message.
pub fn copy_chat(m: &ChatMessage) -> (r: ChatMessage)
    ensures
        chat_view(r) == chat_view(*m),
{
    match m {
        ChatMessage::System(t) => ChatMessage::System(t.clone()),
        ChatMessage::User(t) => ChatMessage::User(t.clone()),
        ChatMessage::Assistant { content, tool_calls } => {
            let c = match content {
                Some(t) => Some(t.clone()),
                None => None,
            };
            ChatMessage::Assistant { content: c, tool_calls: copy_calls(tool_calls) }
        },
        ChatMessage::Tool { call_id, content } => ChatMessage::Tool { call_id: call_id.clone(), content: content.clone() },
    }
}

/// The index of the latest summary, or 0.
fn find_last_summary(history: &Vec<SessionMessage>) -> (r: usize)
    ensures
        r == last_summary(history@),
{
    proof {
        lemma_last_summary(history@);
    }
    let mut i = history.len();
    assert(history@.take(i as int) =~= history@);
    while i > 0
        invariant
            i <= history@.len(),
            last_summary(history@) == last_summary(history@.take(i as int)),
        decreases i,
    {
        assert(history@.take(i as int).drop_last() =~= history@.take(i - 1));
        if history[i - 1].role == Role::Summary {
            return i - 1;
        }
        i = i - 1;
    }
    0
}

/// The conversation a turn opens with.
pub fn prepare_messages(prompt: &str, history: &Vec<SessionMessage>, history_turns: usize, input: &str) -> (r: Vec<ChatMessage>)
    ensures
        chat_views(r@) == opening_messages(prompt@, history@, history_turns as nat, input@),
{
    let mut r: Vec<ChatMessage> = Vec::new();
    if prompt.unicode_len() > 0 {
        r.push(ChatMessage::System(String::from_str(prompt)));
    }
    let ghost head = chat_views(r@);
    assert(head =~= if prompt@.len() > 0 {
        seq![ChatView::System(prompt@)]
    } else {
        Seq::<ChatView>::empty()
    });
    let limit = if history_turns <= usize::MAX / 2 {
        history_turns * 2
    } else {
        usize::MAX
    };
    let by_turns = history.len().saturating_sub(limit);
    let s = find_last_summary(history);
    let start = if by_turns > s {
        by_turns
    } else {
        s
    };
    proof {
        lemma_last_summary(history@);
        if 2 * history_turns > usize::MAX {
            assert(limit == usize::MAX);
            assert(by_turns == 0);
        }
    }
    assert(start == history_start(history@, history_turns as nat));
    let ghost past = history@.skip(start as int).map_values(|m: SessionMessage| history_chat(m.role, m.content@));
    let mut i = start;
    while i < history.len()
        invariant
            start <= i <= history@.len(),
            start == history_start(history@, history_turns as nat),
            past == history@.skip(start as int).map_values(|m: SessionMessage| history_chat(m.role, m.content@)),
            chat_views(r@) == head + past.take(i - start),
        decreases history@.len() - i,
    {
        let m = session_message_to_chat(&history[i]);
        let ghost before = chat_views(r@);
        r.push(m);
        assert(chat_views(r@) =~= before.push(chat_view(m)));
        assert(past.take(i + 1 - start) =~= past.take(i - start).push(past[i - start]));
        i = i + 1;
    }
    assert(past.take(history@.len() - start) =~= past);
    let ghost before = chat_views(r@);
    r.push(ChatMessage::User(String::from_str(input)));
    assert(chat_views(r@) =~= before.push(ChatView::User(input@)));
    r
}

} // verus!

verus! {

/// Why the model stopped.
#[derive(Debug, Clone, Copy, PartialEq, Eq, Structural)]
pub enum FinishReason {
    Stop,
    Length,
    ToolCalls,
    ContentFilter,
    FunctionCall,
}

/// How many times an empty answer is asked for again.
pub const MAX_EMPTY_MODEL_RETRIES: usize = 1;

/// What the model is told after an empty answer.
pub open spec fn empty_retry_prompt() -> Seq<char> {
    "Your previous response ended without assistant output. Continue the task from the available context and return either a tool call or a final answer."@
}

/// Where a turn stands.
#[derive(Debug, Clone, Copy, PartialEq, Eq, Structural)]
pub enum Stage {
    /// Waiting for the session's history.
    History,
    /// Waiting for a summary of the conversation.
    Compression,
    /// Waiting for the model's answer.
    Model,
    /// Waiting for the answers of this many tool calls.
    Tools { remaining: usize },
    /// Waiting for the turn's messages to be stored.
    Save,
}

/// What to do after the model answered.
#[derive(Debug, Clone, Copy, PartialEq, Eq, Structural)]
pub enum ModelStep {
    /// The answer was empty: ask the model again.
    Retry,
    /// The model answered: store the turn (or first take in new input).
    Answer,
    /// The model called tools: run them.
    CallTools,
}

/// A turn by its texts.
pub struct TurnView {
    pub prompt: Seq<char>,
    pub input: Seq<char>,
    pub history_turns: nat,
    pub max_tool_iterations: nat,
    pub stage: Stage,
    pub messages: Seq<ChatView>,
    pub unsaved: Seq<(Role, Seq<char>)>,
    pub final_output: Seq<char>,
    pub tool_iterations: nat,
    pub empty_model_retries: nat,
}

/// Stored messages by their texts.
pub open spec fn stored_views(v: Seq<SessionMessage>) -> Seq<(Role, Seq<char>)> {
    v.map_values(|m: SessionMessage| (m.role, m.content@))
}

/// One turn of a single agent.
pub struct TurnPlan {
    prompt: String,
    input: String,
    history_turns: usize,
    max_tool_iterations: usize,
    stage: Stage,
    messages: Vec<ChatMessage>,
    unsaved: Vec<SessionMessage>,
    final_output: String,
    tool_iterations: usize,
    empty_model_retries: usize,
}

impl View for TurnPlan {
    type V = TurnView;

    closed spec fn view(&self) -> TurnView {
        TurnView {
            prompt: self.prompt@,
            input: self.input@,
            history_turns: self.history_turns as nat,
            max_tool_iterations: self.max_tool_iterations as nat,
            stage: self.stage,
            messages: chat_views(self.messages@),
            unsaved: stored_views(self.unsaved@),
            final_output: self.final_output@,
            tool_iterations: self.tool_iterations as nat,
            empty_model_retries: self.empty_model_retries as nat,
        }
    }
}

/// A turn's state is sound: a tool stage waits for at least one answer,
/// and an empty answer is retried at most once.
pub open spec fn turn_ok(t: TurnView) -> bool {
    &&& (t.stage matches Stage::Tools { remaining } ==> remaining > 0)
    &&& t.empty_model_retries <= 1
}

/// The stage after one more tool answer: the last awaited answer hands
/// the turn to the model.
pub open spec fn answered(s: Stage) -> Stage {
    match s {
        Stage::Tools { remaining } => if remaining <= 1 {
            Stage::Model
        } else {
            Stage::Tools { remaining: (remaining - 1) as usize }
        },
        _ => s,
    }
}

/// A turn with its messages replaced.
pub open spec fn with_messages(t: TurnView, messages: Seq<ChatView>) -> TurnView {
    TurnView { messages, ..t }
}

/// The view of a finish reason, as `Debug` writes it.
pub open spec fn finish_name(f: Option<FinishReason>) -> Seq<char> {
    match f {
        None => "None"@,
        Some(FinishReason::Stop) => "Some(Stop)"@,
        Some(FinishReason::Length) => "Some(Length)"@,
        Some(FinishReason::ToolCalls) => "Some(ToolCalls)"@,
        Some(FinishReason::ContentFilter) => "Some(ContentFilter)"@,
        Some(FinishReason::FunctionCall) => "Some(FunctionCall)"@,
    }
}

/// The refusal of a model answer that a finish reason rules out, if any.
pub open spec fn finish_refusal(f: Option<FinishReason>, n_calls: nat) -> Option<Seq<char>> {
    match f {
        Some(FinishReason::Length) => Some(
            "model output reached max_completion_tokens before producing a complete answer; increase model.max_completion_tokens or reduce the request context"@,
        ),
        Some(FinishReason::ContentFilter) => Some("model output was blocked by the content filter"@),
        Some(FinishReason::FunctionCall) => Some("legacy model function calls are not supported"@),
        Some(FinishReason::ToolCalls) => if n_calls == 0 {
            Some("model stopped for tool calls but returned no tool calls"@)
        } else {
            None
        },
        _ => None,
    }
}

/// The failure after an empty answer that was already retried.
pub open spec fn empty_answer_refusal(retries: nat, f: Option<FinishReason>) -> Seq<char> {
    "model completed without assistant output after "@ + crate::text::decimal(retries) + " retry (finish_reason: "@
        + finish_name(f) + ")"@
}

/// The failure once the model calls tools more often than allowed.
pub open spec fn iterations_refusal(max: nat) -> Seq<char> {
    "model exceeded max_tool_iterations ("@ + crate::text::decimal(max) + ")"@
}

/// The chat messages that survive a compression: the system prompt.
pub open spec fn system_only(m: Seq<ChatView>) -> Seq<ChatView>
    decreases m.len(),
{
    if m.len() == 0 {
        Seq::empty()
    } else if m.last() is System {
        system_only(m.drop_last()).push(m.last())
    } else {
        system_only(m.drop_last())
    }
}

/// The turn after the model answered, as the planner decides it.
pub open spec fn after_model(
    t: TurnView,
    content: Seq<char>,
    calls: Seq<CallView>,
    finish: Option<FinishReason>,
    r: Result<ModelStep, Seq<char>>,
    t2: TurnView,
) -> bool {
    match finish_refusal(finish, calls.len()) {
        Some(m) => r == Err::<ModelStep, Seq<char>>(m) && t2 == t,
        None => if calls.len() == 0 {
            if trim(content).len() == 0 {
                if t.empty_model_retries < 1 {
                    r == Ok::<ModelStep, Seq<char>>(ModelStep::Retry) && t2 == TurnView {
                        empty_model_retries: t.empty_model_retries + 1,
                        messages: t.messages.push(ChatView::User(empty_retry_prompt())),
                        ..t
                    }
                } else {
                    r == Err::<ModelStep, Seq<char>>(empty_answer_refusal(t.empty_model_retries, finish)) && t2 == t
                }
            } else {
                r == Ok::<ModelStep, Seq<char>>(ModelStep::Answer) && t2 == TurnView {
                    empty_model_retries: 0,
                    final_output: content,
                    messages: t.messages.push(ChatView::Assistant { content: Some(content), tool_calls: Seq::empty() }),
                    unsaved: t.unsaved.push((Role::Assistant, content)),
                    ..t
                }
            }
        } else if t.tool_iterations + 1 > t.max_tool_iterations {
            r == Err::<ModelStep, Seq<char>>(iterations_refusal(t.max_tool_iterations)) && t2 == TurnView {
                empty_model_retries: 0,
                tool_iterations: t.tool_iterations + 1,
                ..t
            }
        } else {
            r == Ok::<ModelStep, Seq<char>>(ModelStep::CallTools) && t2 == TurnView {
                empty_model_retries: 0,
                tool_iterations: t.tool_iterations + 1,
                messages: t.messages.push(
                    ChatView::Assistant {
                        content: if content.len() == 0 {
                            None
                        } else {
                            Some(content)
                        },
                        tool_calls: calls,
                    },
                ),
                stage: Stage::Tools { remaining: calls.len() as usize },
                ..t
            }
        },
    }
}

/// Its text as a `Seq`, for results.
pub open spec fn err_view<T>(r: Result<T, String>) -> Result<T, Seq<char>> {
    match r {
        Ok(x) => Ok(x),
        Err(m) => Err(m@),
    }
}

impl TurnPlan {
    #[verifier::type_invariant]
    spec fn inv(self) -> bool {
        turn_ok(self@)
    }

    /// A turn for the user's input: it first asks for the history, and its
    /// input is the first message to store.
    pub fn new(prompt: String, input: String, history_turns: usize, max_tool_iterations: usize) -> (r: TurnPlan)
        ensures
            r@ == (TurnView {
                prompt: prompt@,
                input: input@,
                history_turns: history_turns as nat,
                max_tool_iterations: max_tool_iterations as nat,
                stage: Stage::History,
                messages: Seq::empty(),
                unsaved: seq![(Role::User, input@)],
                final_output: Seq::empty(),
                tool_iterations: 0,
                empty_model_retries: 0,
            }),
    {
        let first = SessionMessage::user(input.clone());
        let mut unsaved: Vec<SessionMessage> = Vec::new();
        unsaved.push(first);
        let r = TurnPlan {
            prompt,
            input,
            history_turns,
            max_tool_iterations,
            stage: Stage::History,
            messages: Vec::new(),
            unsaved,
            final_output: String::new(),
            tool_iterations: 0,
            empty_model_retries: 0,
        };
        assert(chat_views(r.messages@) =~= Seq::<ChatView>::empty());
        assert(stored_views(r.unsaved@) =~= seq![(Role::User, r.input@)]);
        r
    }

    /// The turn's state.
    pub fn stage(&self) -> (r: Stage)
        ensures
            r == self@.stage,
            turn_ok(self@),
    {
        proof {
            use_type_invariant(self);
        }
        self.stage
    }

    /// The conversation sent to the model.
    pub fn messages(&self) -> (r: &Vec<ChatMessage>)
        ensures
            chat_views(r@) == self@.messages,
    {
        &self.messages
    }

    /// The messages the turn still has to store.
    pub fn unsaved(&self) -> (r: &Vec<SessionMessage>)
        ensures
            stored_views(r@) == self@.unsaved,
    {
        &self.unsaved
    }

    /// The model's final answer so far.
    pub fn final_output(&self) -> (r: &str)
        ensures
            r@ == self@.final_output,
    {
        self.final_output.as_str()
    }

    /// Opens the conversation once the history has come.
    pub fn on_history(&mut self, history: &Vec<SessionMessage>)
        ensures
            final(self)@ == with_messages(
                old(self)@,
                opening_messages(old(self)@.prompt, history@, old(self)@.history_turns, old(self)@.input),
            ),
    {
        proof {
            use_type_invariant(&*self);
        }
        let m = prepare_messages(self.prompt.as_str(), history, self.history_turns, self.input.as_str());
        self.messages = m;
    }

    /// Adds what the user sent while the turn ran, in order, to the
    /// conversation and to what is stored.
    pub fn append_user_inputs(&mut self, inputs: Vec<String>)
        ensures
            final(self)@ == (TurnView {
                messages: old(self)@.messages + inputs@.map_values(|s: String| ChatView::User(s@)),
                unsaved: old(self)@.unsaved + inputs@.map_values(|s: String| (Role::User, s@)),
                ..old(self)@
            }),
    {
        proof {
            use_type_invariant(&*self);
        }
        let ghost m0 = chat_views(self.messages@);
        let ghost u0 = stored_views(self.unsaved@);
        let mut messages: Vec<ChatMessage> = Vec::new();
        let mut unsaved: Vec<SessionMessage> = Vec::new();
        std::mem::swap(&mut messages, &mut self.messages);
        std::mem::swap(&mut unsaved, &mut self.unsaved);
        let mut i: usize = 0;
        while i < inputs.len()
            invariant
                i <= inputs@.len(),
                chat_views(messages@) == m0 + inputs@.take(i as int).map_values(|s: String| ChatView::User(s@)),
                stored_views(unsaved@) == u0 + inputs@.take(i as int).map_values(|s: String| (Role::User, s@)),
            decreases inputs@.len() - i,
        {
            let t = inputs[i].clone();
            let ghost mb = chat_views(messages@);
            let ghost ub = stored_views(unsaved@);
            messages.push(ChatMessage::User(t.clone()));
            unsaved.push(SessionMessage::user(t));
            assert(chat_views(messages@) =~= mb.push(ChatView::User(inputs@[i as int]@)));
            assert(stored_views(unsaved@) =~= ub.push((Role::User, inputs@[i as int]@)));
            assert(inputs@.take(i + 1) =~= inputs@.take(i as int).push(inputs@[i as int]));
            assert(inputs@.take(i + 1).map_values(|s: String| ChatView::User(s@)) =~= inputs@.take(i as int).map_values(
                |s: String| ChatView::User(s@),
            ).push(ChatView::User(inputs@[i as int]@)));
            assert(inputs@.take(i + 1).map_values(|s: String| (Role::User, s@)) =~= inputs@.take(i as int).map_values(
                |s: String| (Role::User, s@),
            ).push((Role::User, inputs@[i as int]@)));
            i = i + 1;
        }
        self.messages = messages;
        self.unsaved = unsaved;
        assert(inputs@.take(inputs@.len() as int) =~= inputs@);
    }

    /// Moves the turn to a stage (one that waits for tool answers waits for
    /// at least one).
    pub fn await_stage(&mut self, stage: Stage)
        requires
            stage matches Stage::Tools { remaining } ==> remaining > 0,
        ensures
            final(self)@ == (TurnView { stage, ..old(self)@ }),
    {
        proof {
            use_type_invariant(&*self);
        }
        self.stage = stage;
    }

    /// The conversation without its system prompt: what a compression summarises.
    pub fn without_system(&self) -> (r: Vec<ChatMessage>)
        ensures
            chat_views(r@) == self@.messages.filter(|m: ChatView| !(m is System)),
    {
        let ghost all = chat_views(self.messages@);
        let mut r: Vec<ChatMessage> = Vec::new();
        let mut i: usize = 0;
        while i < self.messages.len()
            invariant
                i <= self.messages@.len(),
                all == chat_views(self.messages@),
                chat_views(r@) == all.take(i as int).filter(|m: ChatView| !(m is System)),
            decreases self.messages@.len() - i,
        {
            let m = copy_chat(&self.messages[i]);
            assert(all.take(i + 1).drop_last() =~= all.take(i as int));
            assert(all.take(i + 1).last() == chat_view(m));
            reveal(Seq::filter);
            match &self.messages[i] {
                ChatMessage::System(_) => {},
                _ => {
                    let ghost before = chat_views(r@);
                    r.push(m);
                    assert(chat_views(r@) =~= before.push(chat_view(m)));
                },
            }
            i = i + 1;
        }
        assert(all.take(self.messages@.len() as int) =~= all);
        r
    }

    /// Takes in the model's answer: its text, its tool calls and why it
    /// stopped.
    pub fn on_model(&mut self, content: String, tool_calls: Vec<FunctionCall>, finish: Option<FinishReason>) -> (r: Result<ModelStep, String>)
        requires
            finish_refusal(finish, tool_calls@.len()) is None && tool_calls@.len() > 0
                ==> old(self)@.tool_iterations < usize::MAX,
        ensures
            after_model(old(self)@, content@, call_views(tool_calls@), finish, err_view(r), final(self)@),
    {
        proof {
            use_type_invariant(&*self);
        }
        let n = tool_calls.len();
        match finish {
            Some(FinishReason::Length) => {
                return Err(String::from_str("model output reached max_completion_tokens before producing a complete answer; increase model.max_completion_tokens or reduce the request context"));
            },
            Some(FinishReason::ContentFilter) => {
                return Err(String::from_str("model output was blocked by the content filter"));
            },
            Some(FinishReason::FunctionCall) => {
                return Err(String::from_str("legacy model function calls are not supported"));
            },
            Some(FinishReason::ToolCalls) => {
                if n == 0 {
                    return Err(String::from_str("model stopped for tool calls but returned no tool calls"));
                }
            },
            _ => {},
        }
        if n == 0 {
            let chars = crate::text::str_chars(content.as_str());
            if crate::text::is_blank(chars.as_slice()) {
                if self.empty_model_retries < MAX_EMPTY_MODEL_RETRIES {
                    self.empty_model_retries = self.empty_model_retries + 1;
                    let mut messages: Vec<ChatMessage> = Vec::new();
                    std::mem::swap(&mut messages, &mut self.messages);
                    let ghost before = chat_views(messages@);
                    messages.push(ChatMessage::User(String::from_str("Your previous response ended without assistant output. Continue the task from the available context and return either a tool call or a final answer.")));
                    assert(chat_views(messages@) =~= before.push(ChatView::User(empty_retry_prompt())));
                    self.messages = messages;
                    return Ok(ModelStep::Retry);
                }
                let mut m = String::from_str("model completed without assistant output after ");
                let d = crate::text::decimal_chars(self.empty_model_retries);
                let ds = crate::text::chars_string(d.as_slice());
                m.append(ds.as_str());
                m.append(" retry (finish_reason: ");
                match finish {
                    None => m.append("None"),
                    Some(FinishReason::Stop) => m.append("Some(Stop)"),
                    Some(FinishReason::Length) => m.append("Some(Length)"),
                    Some(FinishReason::ToolCalls) => m.append("Some(ToolCalls)"),
                    Some(FinishReason::ContentFilter) => m.append("Some(ContentFilter)"),
                    Some(FinishReason::FunctionCall) => m.append("Some(FunctionCall)"),
                }
                m.append(")");
                return Err(m);
            }
            self.empty_model_retries = 0;
            self.final_output = content.clone();
            let mut messages: Vec<ChatMessage> = Vec::new();
            std::mem::swap(&mut messages, &mut self.messages);
            let ghost before = chat_views(messages@);
            let no_calls: Vec<FunctionCall> = Vec::new();
            messages.push(ChatMessage::Assistant { content: Some(content.clone()), tool_calls: no_calls });
            assert(call_views(no_calls@) =~= Seq::<CallView>::empty());
            assert(chat_views(messages@) =~= before.push(ChatView::Assistant { content: Some(content@), tool_calls: Seq::empty() }));
            self.messages = messages;
            let mut unsaved: Vec<SessionMessage> = Vec::new();
            std::mem::swap(&mut unsaved, &mut self.unsaved);
            let ghost ub = stored_views(unsaved@);
            unsaved.push(SessionMessage::assistant(content));
            assert(stored_views(unsaved@) =~= ub.push((Role::Assistant, content@)));
            self.unsaved = unsaved;
            return Ok(ModelStep::Answer);
        }
        self.empty_model_retries = 0;
        self.tool_iterations = self.tool_iterations + 1;
        if self.tool_iterations > self.max_tool_iterations {
            let mut m = String::from_str("model exceeded max_tool_iterations (");
            let d = crate::text::decimal_chars(self.max_tool_iterations);
            let ds = crate::text::chars_string(d.as_slice());
            m.append(ds.as_str());
            m.append(")");
            return Err(m);
        }
        let text = if content.as_str().unicode_len() == 0 {
            None
        } else {
            Some(content)
        };
        let mut messages: Vec<ChatMessage> = Vec::new();
        std::mem::swap(&mut messages, &mut self.messages);
        let ghost before = chat_views(messages@);
        let ghost cv = call_views(tool_calls@);
        messages.push(ChatMessage::Assistant { content: text, tool_calls });
        assert(chat_views(messages@) =~= before.push(
            ChatView::Assistant {
                content: if content@.len() == 0 {
                    None
                } else {
                    Some(content@)
                },
                tool_calls: cv,
            },
        ));
        self.messages = messages;
        self.stage = Stage::Tools { remaining: n };
        Ok(ModelStep::CallTools)
    }

    /// Puts a summary in place of the conversation: only the system prompt
    /// stays, the summary follows it, and the summary is stored. An empty
    /// summary is refused.
    pub fn apply_compression(&mut self, content: &str) -> (r: Result<(), String>)
        ensures
            trim(content@).len() == 0 ==> (r matches Err(m) && m@ == "compression runtime returned empty content"@
                && final(self)@ == old(self)@),
            trim(content@).len() > 0 ==> r is Ok && final(self)@ == (TurnView {
                messages: system_only(old(self)@.messages).push(ChatView::User(summary_text(trim(content@)))),
                unsaved: old(self)@.unsaved.push((Role::Summary, trim(content@))),
                ..old(self)@
            }),
    {
        proof {
            use_type_invariant(&*self);
        }
        let chars = crate::text::str_chars(content);
        let t = crate::text::trim_chars(chars.as_slice());
        if t.len() == 0 {
            return Err(String::from_str("compression runtime returned empty content"));
        }
        let text = crate::text::chars_string(t.as_slice());
        let mut messages: Vec<ChatMessage> = Vec::new();
        std::mem::swap(&mut messages, &mut self.messages);
        let ghost all = chat_views(messages@);
        let mut kept: Vec<ChatMessage> = Vec::new();
        let mut i: usize = 0;
        while i < messages.len()
            invariant
                i <= messages@.len(),
                all == chat_views(messages@),
                chat_views(kept@) == system_only(all.take(i as int)),
            decreases messages@.len() - i,
        {
            assert(all.take(i + 1).drop_last() =~= all.take(i as int));
            match &messages[i] {
                ChatMessage::System(p) => {
                    let ghost before = chat_views(kept@);
                    let c = ChatMessage::System(p.clone());
                    kept.push(c);
                    assert(chat_views(kept@) =~= before.push(chat_view(c)));
                },
                _ => {},
            }
            i = i + 1;
        }
        assert(all.take(messages@.len() as int) =~= all);
        let ghost before = chat_views(kept@);
        let summary = summary_chat_message(text.as_str());
        kept.push(summary);
        assert(chat_views(kept@) =~= before.push(ChatView::User(summary_text(trim(content@)))));
        self.messages = kept;
        let mut unsaved: Vec<SessionMessage> = Vec::new();
        std::mem::swap(&mut unsaved, &mut self.unsaved);
        let ghost ub = stored_views(unsaved@);
        unsaved.push(SessionMessage::summary(text));
        assert(stored_views(unsaved@) =~= ub.push((Role::Summary, trim(content@))));
        self.unsaved = unsaved;
        Ok(())
    }

    /// Takes in a tool's answer. `Ok(true)` when it was the last answer the
    /// turn waited for (the turn then waits for the model), `Ok(false)`
    /// while more are due; refused outside a tool stage.
    pub fn finish_tool_call(&mut self, call_id: String, output: String) -> (r: Result<bool, String>)
        ensures
            final(self)@.messages == old(self)@.messages.push(ChatView::Tool { call_id: call_id@, content: output@ }),
            match old(self)@.stage {
                Stage::Tools { remaining } => r == Ok::<bool, String>(remaining == 1) && final(self)@ == (TurnView {
                    messages: final(self)@.messages,
                    stage: answered(old(self)@.stage),
                    ..old(self)@
                }),
                _ => (r matches Err(m) && m@ == "received tool response outside tool stage"@) && final(self)@ == (TurnView {
                    messages: final(self)@.messages,
                    ..old(self)@
                }),
            },
    {
        proof {
            use_type_invariant(&*self);
        }
        let mut messages: Vec<ChatMessage> = Vec::new();
        std::mem::swap(&mut messages, &mut self.messages);
        let ghost before = chat_views(messages@);
        let m = ChatMessage::Tool { call_id, content: output };
        messages.push(m);
        assert(chat_views(messages@) =~= before.push(chat_view(m)));
        self.messages = messages;
        match self.stage {
            Stage::Tools { remaining } => {
                if remaining == 1 {
                    self.stage = Stage::Model;
                    Ok(true)
                } else {
                    self.stage = Stage::Tools { remaining: remaining - 1 };
                    Ok(false)
                }
            },
            _ => Err(String::from_str("received tool response outside tool stage")),
        }
    }

    /// Forgets the stored messages once the session has them.
    pub fn on_saved(&mut self)
        ensures
            final(self)@ == (TurnView { unsaved: Seq::empty(), ..old(self)@ }),
    {
        proof {
            use_type_invariant(&*self);
        }
        self.unsaved = Vec::new();
        assert(stored_views(self.unsaved@) =~= Seq::<(Role, Seq<char>)>::empty());
    }
}

} // verus!

verus! {

/// A tool offered to the model: its name, what it does, the JSON schema of
/// its arguments (as JSON text), and whether the model must keep to it.
#[derive(Debug, Clone, PartialEq, Eq)]
pub struct ToolDefinition {
    pub name: String,
    pub description: String,
    pub parameters: String,
    pub strict: bool,
}

/// The tool through which the model calls sub-agents.
pub const AGENT_TOOL_NAME: &'static str = "agent";

/// The tool through which the model runs workflows.
pub const WORKFLOW_TOOL_NAME: &'static str = "workflow";

/// Texts as JSON string literals, separated by commas.
pub open spec fn json_items(items: Seq<Seq<char>>) -> Seq<char>
    decreases items.len(),
{
    if items.len() == 0 {
        Seq::empty()
    } else if items.len() == 1 {
        crate::prompt::json_string(items[0])
    } else {
        json_items(items.drop_last()) + ","@ + crate::prompt::json_string(items.last())
    }
}

/// A JSON array of texts.
pub open spec fn json_list(items: Seq<Seq<char>>) -> Seq<char> {
    "["@ + json_items(items) + "]"@
}

/// The arguments of the sub-agent tool: one of the configured agents, and
/// the task for it (keys in the order JSON objects keep them).
pub open spec fn agent_tool_parameters(agent_ids: Seq<Seq<char>>) -> Seq<char> {
    "{\"additionalProperties\":false,\"properties\":{\"agent_id\":{\"enum\":"@ + json_list(agent_ids)
        + ",\"type\":\"string\"},\"input\":{\"description\":\"The complete task and context for the sub-agent.\",\"type\":\"string\"}},\"required\":[\"agent_id\",\"input\"],\"type\":\"object\"}"@
}

/// The arguments of the workflow tool: one of the configured workflows, and
/// its input.
pub open spec fn workflow_tool_parameters(workflow_ids: Seq<Seq<char>>) -> Seq<char> {
    "{\"additionalProperties\":false,\"properties\":{\"input\":{\"description\":\"JSON input passed to the workflow.\"},\"workflow_id\":{\"enum\":"@
        + json_list(workflow_ids) + ",\"type\":\"string\"}},\"required\":[\"workflow_id\"],\"type\":\"object\"}"@
}

/// Texts by their characters.
pub open spec fn texts(v: Seq<String>) -> Seq<Seq<char>> {
    v.map_values(|s: String| s@)
}

/// A JSON array of texts.
fn json_array(items: &[String]) -> (r: String)
    ensures
        r@ == json_list(texts(items@)),
{
    let ghost t = texts(items@);
    let mut r = String::from_str("[");
    let mut i: usize = 0;
    while i < items.len()
        invariant
            i <= items@.len(),
            t == texts(items@),
            r@ == "["@ + json_items(t.take(i as int)),
        decreases items@.len() - i,
    {
        assert(t.take(i + 1).drop_last() =~= t.take(i as int));
        assert(t.take(i + 1).last() == items@[i as int]@);
        if i > 0 {
            r.append(",");
        }
        let j = crate::prompt::to_json_string(items[i].as_str());
        r.append(j.as_str());
        proof {
            if i == 0 {
                assert(t.take(1) =~= seq![t[0]]);
            }
        }
        assert(r@ =~= "["@ + json_items(t.take(i + 1)));
        i = i + 1;
    }
    assert(t.take(items@.len() as int) =~= t);
    r.append("]");
    r
}

/// The tool through which the model delegates a task to a configured sub-agent.
pub fn sub_agent_tool_definition(agent_ids: &[String]) -> (r: ToolDefinition)
    ensures
        r.name@ == "agent"@,
        r.description@ == "Delegate a task to a configured sub-agent."@,
        r.parameters@ == agent_tool_parameters(texts(agent_ids@)),
        r.strict,
{
    let mut p = String::from_str("{\"additionalProperties\":false,\"properties\":{\"agent_id\":{\"enum\":");
    let list = json_array(agent_ids);
    p.append(list.as_str());
    p.append(",\"type\":\"string\"},\"input\":{\"description\":\"The complete task and context for the sub-agent.\",\"type\":\"string\"}},\"required\":[\"agent_id\",\"input\"],\"type\":\"object\"}");
    proof {
        reveal_strlit("agent");
    }
    ToolDefinition {
        name: String::from_str(AGENT_TOOL_NAME),
        description: String::from_str("Delegate a task to a configured sub-agent."),
        parameters: p,
        strict: true,
    }
}

/// The tool through which the model runs a configured workflow.
pub fn workflow_tool_definition(workflow_ids: &[String]) -> (r: ToolDefinition)
    ensures
        r.name@ == "workflow"@,
        r.description@ == "Run a configured workflow and return its final JSON output."@,
        r.parameters@ == workflow_tool_parameters(texts(workflow_ids@)),
        r.strict,
{
    let mut p = String::from_str(
        "{\"additionalProperties\":false,\"properties\":{\"input\":{\"description\":\"JSON input passed to the workflow.\"},\"workflow_id\":{\"enum\":",
    );
    let list = json_array(workflow_ids);
    p.append(list.as_str());
    p.append(",\"type\":\"string\"}},\"required\":[\"workflow_id\"],\"type\":\"object\"}");
    proof {
        reveal_strlit("workflow");
    }
    ToolDefinition {
        name: String::from_str(WORKFLOW_TOOL_NAME),
        description: String::from_str("Run a configured workflow and return its final JSON output."),
        parameters: p,
        strict: true,
    }
}

/// The refusal of a call to a tool the turn does not offer.
pub open spec fn unavailable_tool_text(name: Seq<char>) -> Seq<char> {
    "model requested unavailable tool `"@ + name + "`"@
}

/// The refusal of a call to a tool the turn does not offer.
pub fn unavailable_tool(name: &str) -> (r: String)
    ensures
        r@ == unavailable_tool_text(name@),
{
    let mut m = String::from_str("model requested unavailable tool `");
    m.append(name);
    m.append("`");
    m
}

/// Whether a call of the sub-agent tool may go ahead: it must carry a task,
/// and name a configured sub-agent.
pub fn check_sub_agent_call(agent_ids: &[String], agent_id: &str, input: &str) -> (r: Result<(), String>)
    ensures
        trim(input@).len() == 0 ==> (r matches Err(m) && m@ == "sub-agent input cannot be empty"@),
        trim(input@).len() > 0 && !texts(agent_ids@).contains(agent_id@) ==> (r matches Err(m) && m@ == "sub-agent `"@ + agent_id@
            + "` is not configured"@),
        trim(input@).len() > 0 && texts(agent_ids@).contains(agent_id@) ==> r is Ok,
{
    let chars = crate::text::str_chars(input);
    if crate::text::is_blank(chars.as_slice()) {
        return Err(String::from_str("sub-agent input cannot be empty"));
    }
    if contains_text(agent_ids, agent_id) {
        Ok(())
    } else {
        let mut m = String::from_str("sub-agent `");
        m.append(agent_id);
        m.append("` is not configured");
        Err(m)
    }
}

/// Whether a call of the workflow tool names a configured workflow.
pub fn check_workflow_call(workflow_ids: &[String], workflow_id: &str) -> (r: Result<(), String>)
    ensures
        !texts(workflow_ids@).contains(workflow_id@) ==> (r matches Err(m) && m@ == "workflow `"@ + workflow_id@
            + "` is not configured"@),
        texts(workflow_ids@).contains(workflow_id@) ==> r is Ok,
{
    if contains_text(workflow_ids, workflow_id) {
        Ok(())
    } else {
        let mut m = String::from_str("workflow `");
        m.append(workflow_id);
        m.append("` is not configured");
        Err(m)
    }
}

/// Whether a list of texts holds one.
fn contains_text(items: &[String], s: &str) -> (b: bool)
    ensures
        b == texts(items@).contains(s@),
{
    let ghost t = texts(items@);
    let w = String::from_str(s);
    let mut i: usize = 0;
    while i < items.len()
        invariant
            i <= items@.len(),
            t == texts(items@),
            w@ == s@,
            forall|j: int| 0 <= j < i ==> t[j] != s@,
        decreases items@.len() - i,
    {
        if items[i] == w {
            assert(t[i as int] == s@);
            return true;
        }
        i = i + 1;
    }
    false
}

/// Whether the request must be compressed before the model is called: its
/// estimated size in tokens goes beyond the configured trigger.
pub fn compression_needed(estimated_tokens: usize, trigger_compression_size: usize) -> (b: bool)
    ensures
        b == (estimated_tokens > trigger_compression_size),
{
    estimated_tokens > trigger_compression_size
}

/// The tokens a request is estimated at, from the characters of its JSON
/// text: a quarter of them, rounded up, and at least one.
pub open spec fn tokens_of(json_chars: nat) -> nat {
    let q = (json_chars + 3) / 4;
    if q == 0 {
        1
    } else {
        q
    }
}

/// The tokens a request is estimated at, from the characters of its JSON text.
pub fn estimated_tokens(json_chars: usize) -> (r: usize)
    ensures
        r == tokens_of(json_chars as nat),
{
    let q = json_chars / 4 + if json_chars % 4 == 0 {
        0
    } else {
        1
    };
    assert(q == (json_chars + 3) / 4) by (nonlinear_arith)
        requires
            q == json_chars / 4 + if json_chars % 4 == 0 {
                0int
            } else {
                1int
            },
    ;
    if q == 0 {
        1
    } else {
        q
    }
}

} // verus!

verus! {

/// What a call of the session asks for.
#[derive(Debug, Clone, PartialEq, Eq)]
pub enum CallStep {
    /// The input joins the running turn.
    Queued,
    /// A new turn starts, with this id.
    Start(u64),
    /// A turn runs: it is asked to stop; call again once the session is idle.
    Wait,
}

/// The state of a session's turns, by value.
pub struct TurnsView {
    pub bound: bool,
    pub active: bool,
    pub accepting_input: bool,
    pub cancel_requested: bool,
    pub pending: Seq<Seq<char>>,
    pub next_turn_id: u64,
}

/// The turns of one session: whether it is bound to an engine, whether a
/// turn runs and takes more input, whether it was asked to stop, the input
/// that waits for it, and the id the next turn gets.
pub struct SessionTurns {
    bound: bool,
    active: bool,
    accepting_input: bool,
    cancel_requested: bool,
    pending: Vec<String>,
    next_turn_id: u64,
}

impl View for SessionTurns {
    type V = TurnsView;

    closed spec fn view(&self) -> TurnsView {
        TurnsView {
            bound: self.bound,
            active: self.active,
            accepting_input: self.accepting_input,
            cancel_requested: self.cancel_requested,
            pending: texts(self.pending@),
            next_turn_id: self.next_turn_id,
        }
    }
}

/// The id after a turn id (ids wrap around).
pub open spec fn next_id(id: u64) -> u64 {
    if id == u64::MAX {
        0
    } else {
        (id + 1) as u64
    }
}

/// The refusal of an input that is only blanks.
pub open spec fn empty_input_text() -> Seq<char> {
    "input text cannot be empty"@
}

/// The refusal of a call before the session is bound.
pub open spec fn unbound_text() -> Seq<char> {
    "single-agent session is not bound to an engine"@
}

/// The refusal of a supplement when no turn takes input.
pub open spec fn no_turn_text() -> Seq<char> {
    "there is no active conversation to supplement"@
}

impl SessionTurns {
    /// A session that is not bound yet, and idle; its first turn gets id 1.
    pub fn new() -> (r: SessionTurns)
        ensures
            r@ == (TurnsView {
                bound: false,
                active: false,
                accepting_input: false,
                cancel_requested: false,
                pending: Seq::empty(),
                next_turn_id: 1,
            }),
    {
        let r = SessionTurns {
            bound: false,
            active: false,
            accepting_input: false,
            cancel_requested: false,
            pending: Vec::new(),
            next_turn_id: 1,
        };
        assert(texts(r.pending@) =~= Seq::<Seq<char>>::empty());
        r
    }

    /// Starts a turn, unless one runs: it takes input, and gets the next id.
    pub fn activate_turn(&mut self) -> (r: Result<u64, String>)
        ensures
            old(self)@.active ==> (r matches Err(m) && m@ == "a turn is already running"@) && final(self)@ == old(self)@,
            !old(self)@.active ==> r == Ok::<u64, String>(old(self)@.next_turn_id) && final(self)@ == (TurnsView {
                active: true,
                accepting_input: true,
                next_turn_id: next_id(old(self)@.next_turn_id),
                ..old(self)@
            }),
    {
        if self.active {
            return Err(String::from_str("a turn is already running"));
        }
        self.active = true;
        self.accepting_input = true;
        let id = self.next_turn_id;
        self.next_turn_id = if id == u64::MAX {
            0
        } else {
            id + 1
        };
        Ok(id)
    }

    /// Binds the session to an engine and starts its first turn; a session
    /// is bound once.
    pub fn bind(&mut self) -> (r: Result<u64, String>)
        ensures
            old(self)@.bound ==> (r matches Err(m) && m@ == "single-agent session is already bound"@) && final(self)@ == old(self)@,
            !old(self)@.bound && old(self)@.active ==> (r matches Err(m) && m@ == "a turn is already running"@) && final(self)@
                == (TurnsView { bound: true, ..old(self)@ }),
            !old(self)@.bound && !old(self)@.active ==> r == Ok::<u64, String>(old(self)@.next_turn_id) && final(self)@ == (
            TurnsView {
                bound: true,
                active: true,
                accepting_input: true,
                next_turn_id: next_id(old(self)@.next_turn_id),
                ..old(self)@
            }),
    {
        if self.bound {
            return Err(String::from_str("single-agent session is already bound"));
        }
        self.bound = true;
        self.activate_turn()
    }

    /// Hands out the input waiting for the turn, oldest first.
    pub fn take_pending_inputs(&mut self) -> (r: Vec<String>)
        ensures
            texts(r@) == old(self)@.pending,
            final(self)@ == (TurnsView { pending: Seq::empty(), ..old(self)@ }),
    {
        let mut r: Vec<String> = Vec::new();
        std::mem::swap(&mut r, &mut self.pending);
        assert(texts(self.pending@) =~= Seq::<Seq<char>>::empty());
        r
    }

    /// When the turn would end: with no input waiting it stops taking input
    /// (`None`); otherwise it hands out the waiting input and goes on.
    pub fn finish_or_take_pending(&mut self) -> (r: Option<Vec<String>>)
        ensures
            old(self)@.pending.len() == 0 ==> r is None && final(self)@ == (TurnsView { accepting_input: false, ..old(self)@ }),
            old(self)@.pending.len() > 0 ==> (r matches Some(v) && texts(v@) == old(self)@.pending) && final(self)@ == (
            TurnsView { pending: Seq::empty(), ..old(self)@ }),
    {
        if self.pending.len() == 0 {
            self.accepting_input = false;
            None
        } else {
            Some(self.take_pending_inputs())
        }
    }

    /// The turn ended: the session is idle again (waiting input stays).
    pub fn finish_turn(&mut self)
        ensures
            final(self)@ == (TurnsView {
                active: false,
                accepting_input: false,
                cancel_requested: false,
                ..old(self)@
            }),
    {
        self.active = false;
        self.accepting_input = false;
        self.cancel_requested = false;
    }

    /// The turn failed or was cancelled: the session is idle again and the
    /// waiting input is dropped.
    pub fn abort_turn(&mut self)
        ensures
            final(self)@ == (TurnsView {
                active: false,
                accepting_input: false,
                cancel_requested: false,
                pending: Seq::empty(),
                ..old(self)@
            }),
    {
        self.active = false;
        self.accepting_input = false;
        self.cancel_requested = false;
        self.pending = Vec::new();
        assert(texts(self.pending@) =~= Seq::<Seq<char>>::empty());
    }

    /// Whether the running turn was asked to stop.
    pub fn cancel_requested(&self) -> (b: bool)
        ensures
            b == self@.cancel_requested,
    {
        self.cancel_requested
    }

    /// A call of the session with the user's input, as a new chat or as a
    /// supplement to the running turn. Blank input and calls before the
    /// session is bound are refused. A supplement joins the running turn if
    /// it takes input, and is refused otherwise. A new chat starts a turn
    /// when none runs; otherwise the running turn is asked to stop, its
    /// waiting input is dropped, and the caller waits and calls again.
    pub fn call(&mut self, text: &str, supplement: bool) -> (r: Result<CallStep, String>)
        ensures
            trim(text@).len() == 0 ==> (r matches Err(m) && m@ == empty_input_text()) && final(self)@ == old(self)@,
            trim(text@).len() > 0 && !old(self)@.bound ==> (r matches Err(m) && m@ == unbound_text()) && final(self)@ == old(self)@,
            trim(text@).len() > 0 && old(self)@.bound && supplement ==> if old(self)@.active && old(self)@.accepting_input {
                r == Ok::<CallStep, String>(CallStep::Queued) && final(self)@ == (TurnsView {
                    pending: old(self)@.pending.push(text@),
                    ..old(self)@
                })
            } else {
                (r matches Err(m) && m@ == no_turn_text()) && final(self)@ == old(self)@
            },
            trim(text@).len() > 0 && old(self)@.bound && !supplement ==> if !old(self)@.active {
                r == Ok::<CallStep, String>(CallStep::Start(old(self)@.next_turn_id)) && final(self)@ == (TurnsView {
                    active: true,
                    accepting_input: true,
                    next_turn_id: next_id(old(self)@.next_turn_id),
                    ..old(self)@
                })
            } else {
                r == Ok::<CallStep, String>(CallStep::Wait) && final(self)@ == (TurnsView {
                    accepting_input: false,
                    cancel_requested: true,
                    pending: Seq::empty(),
                    ..old(self)@
                })
            },
    {
        let chars = crate::text::str_chars(text);
        if crate::text::is_blank(chars.as_slice()) {
            return Err(String::from_str("input text cannot be empty"));
        }
        if !self.bound {
            return Err(String::from_str("single-agent session is not bound to an engine"));
        }
        if supplement {
            if !(self.active && self.accepting_input) {
                return Err(String::from_str("there is no active conversation to supplement"));
            }
            let ghost before = texts(self.pending@);
            self.pending.push(String::from_str(text));
            assert(texts(self.pending@) =~= before.push(text@));
            return Ok(CallStep::Queued);
        }
        if !self.active {
            match self.activate_turn() {
                Ok(id) => Ok(CallStep::Start(id)),
                Err(m) => Err(m),
            }
        } else {
            self.accepting_input = false;
            self.cancel_requested = true;
            self.pending = Vec::new();
            assert(texts(self.pending@) =~= Seq::<Seq<char>>::empty());
            Ok(CallStep::Wait)
        }
    }
}

/// The outcome of a session: the first one reported stands.
pub struct Completion<T> {
    pub result: Option<T>,
}

impl<T> Completion<T> {
    /// No outcome yet.
    pub fn new() -> (r: Completion<T>)
        ensures
            r.result is None,
    {
        Completion { result: None }
    }

    /// Reports an outcome; a later report does not replace the first.
    pub fn complete(&mut self, result: T) -> (stored: bool)
        ensures
            stored == old(self).result is None,
            old(self).result is None ==> final(self).result == Some(result),
            old(self).result is Some ==> final(self).result == old(self).result,
    {
        if self.result.is_some() {
            return false;
        }
        self.result = Some(result);
        true
    }
}

} // verus!

verus! {

/// A fresh id for a turn's plan: `single_agent-` and a random UUID.
pub fn new_plan_id() -> (r: String)
    ensures
        r@.len() == 49,
        r@.take(13) == "single_agent-"@,
        crate::memory::uuid_v4_text(r@.skip(13)),
{
    let mut id = String::from_str("single_agent-");
    let u = crate::memory::new_uuid();
    id.append(u.as_str());
    proof {
        reveal_strlit("single_agent-");
    }
    assert(id@.take(13) =~= "single_agent-"@);
    assert(id@.skip(13) =~= u@);
    id
}

/// The id of a task a turn hands out: the turn's id and the task's number
/// within the turn.
pub open spec fn turn_task_id_text(turn_id: u64, sequence: u64) -> Seq<char> {
    "single-agent-"@ + crate::text::decimal(turn_id as nat) + "-"@ + crate::text::decimal(sequence as nat)
}

/// The id of a task a turn hands out.
pub fn turn_task_id(turn_id: u64, sequence: u64) -> (r: String)
    ensures
        r@ == turn_task_id_text(turn_id, sequence),
{
    let mut v: Vec<char> = Vec::new();
    crate::text::extend_str(&mut v, "single-agent-");
    let a = crate::text::decimal_u64(turn_id);
    crate::text::extend_chars(&mut v, a.as_slice());
    crate::text::extend_str(&mut v, "-");
    let b = crate::text::decimal_u64(sequence);
    crate::text::extend_chars(&mut v, b.as_slice());
    crate::text::chars_string(v.as_slice())
}

/// The id of the task that runs a whole turn.
pub open spec fn turn_plan_task_id_text(turn_id: u64) -> Seq<char> {
    "single-agent-turn-"@ + crate::text::decimal(turn_id as nat)
}

/// The id of the task that runs a whole turn.
pub fn turn_plan_task_id(turn_id: u64) -> (r: String)
    ensures
        r@ == turn_plan_task_id_text(turn_id),
{
    let mut v: Vec<char> = Vec::new();
    crate::text::extend_str(&mut v, "single-agent-turn-");
    let a = crate::text::decimal_u64(turn_id);
    crate::text::extend_chars(&mut v, a.as_slice());
    crate::text::chars_string(v.as_slice())
}

} // verus!

verus! {

/// Whether a configured tool name is one of the tools the plan provides
/// itself (sub-agents and workflows), which configuration cannot name.
pub open spec fn callable_name(t: Seq<char>) -> bool {
    t == "agent"@ || t == "workflow"@
}

/// The configured tools without the plan's own tool names, in order.
pub open spec fn configured_tools(s: Seq<Seq<char>>) -> Seq<Seq<char>>
    decreases s.len(),
{
    if s.len() == 0 {
        Seq::empty()
    } else if callable_name(s.last()) {
        configured_tools(s.drop_last())
    } else {
        configured_tools(s.drop_last()).push(s.last())
    }
}

/// What a plan of a single agent is set up with: the chain of agents that
/// called it (ending with itself), the session it runs in, and its tools.
#[derive(Debug, Clone, PartialEq, Eq)]
pub struct PlanSetup {
    pub ancestors: Vec<String>,
    pub session_id: String,
    pub tools: Vec<String>,
}

/// The setup of a plan, by its texts: refused for blank input, for an agent
/// already among the agents that called it, and for a blank session named
/// to replace the configured one.
pub open spec fn plan_setup_of(
    input: Seq<char>,
    agent_name: Seq<char>,
    ancestors: Seq<Seq<char>>,
    configured_session: Seq<char>,
    session_override: Option<Seq<char>>,
    tools: Seq<Seq<char>>,
) -> Result<(Seq<Seq<char>>, Seq<char>, Seq<Seq<char>>), Seq<char>> {
    if trim(input).len() == 0 {
        Err("input cannot be empty"@)
    } else if ancestors.contains(agent_name) {
        Err("recursive sub-agent call detected for `"@ + agent_name + "`"@)
    } else {
        match session_override {
            Some(s) => if trim(s).len() == 0 {
                Err("session_id cannot be empty"@)
            } else {
                Ok((ancestors.push(agent_name), s, configured_tools(tools)))
            },
            None => Ok((ancestors.push(agent_name), configured_session, configured_tools(tools))),
        }
    }
}

/// The setup by its texts.
pub open spec fn setup_view(r: Result<PlanSetup, String>) -> Result<(Seq<Seq<char>>, Seq<char>, Seq<Seq<char>>), Seq<char>> {
    match r {
        Ok(p) => Ok((crate::ctl::text_views(p.ancestors@), p.session_id@, crate::ctl::text_views(p.tools@))),
        Err(m) => Err(m@),
    }
}

/// Whether the first `n` of the strings hold the text.
fn has_text(v: &Vec<String>, n: usize, x: &str) -> (b: bool)
    requires
        n <= v@.len(),
    ensures
        b == crate::ctl::text_views(v@).take(n as int).contains(x@),
{
    let ghost tv = crate::ctl::text_views(v@);
    let wanted = String::from_str(x);
    let mut i: usize = 0;
    while i < n
        invariant
            i <= n,
            n <= v@.len(),
            tv == crate::ctl::text_views(v@),
            wanted@ == x@,
            forall|j: int| 0 <= j < i ==> tv[j] != x@,
        decreases n - i,
    {
        if v[i] == wanted {
            assert(tv.take(n as int)[i as int] == x@);
            return true;
        }
        i = i + 1;
    }
    assert forall|j: int| 0 <= j < tv.take(n as int).len() implies tv.take(n as int)[j] != x@ by {
        assert(tv.take(n as int)[j] == tv[j]);
    }
    false
}

/// Sets up the plan of a single agent before it is built: the input must
/// not be blank, the agent must not already be among the agents that called
/// it, and a session named to replace the configured one must not be blank.
/// The agent joins the chain of callers, and the tools named `agent` or
/// `workflow` are dropped from its configured tools.
pub fn plan_setup(
    input: &str,
    agent_name: &str,
    ancestors: &Vec<String>,
    configured_session: &str,
    session_override: Option<&str>,
    tools: &Vec<String>,
) -> (r: Result<PlanSetup, String>)
    ensures
        setup_view(r) == plan_setup_of(
            input@,
            agent_name@,
            crate::ctl::text_views(ancestors@),
            configured_session@,
            match session_override {
                Some(s) => Some(s@),
                None => None,
            },
            crate::ctl::text_views(tools@),
        ),
{
    if crate::text::is_blank(crate::text::str_chars(input).as_slice()) {
        return Err(String::from_str("input cannot be empty"));
    }
    let ghost av = crate::ctl::text_views(ancestors@);
    if has_text(ancestors, ancestors.len(), agent_name) {
        assert(av.take(ancestors@.len() as int) =~= av);
        let mut m = String::from_str("recursive sub-agent call detected for `");
        m.append(agent_name);
        m.append("`");
        return Err(m);
    }
    assert(av.take(ancestors@.len() as int) =~= av);
    let session = match session_override {
        Some(s) => {
            if crate::text::is_blank(crate::text::str_chars(s).as_slice()) {
                return Err(String::from_str("session_id cannot be empty"));
            }
            String::from_str(s)
        },
        None => String::from_str(configured_session),
    };
    let mut chain = ancestors.clone();
    assert(crate::ctl::text_views(chain@) =~= av);
    chain.push(String::from_str(agent_name));
    assert(crate::ctl::text_views(chain@) =~= av.push(agent_name@));
    let ghost tv = crate::ctl::text_views(tools@);
    let mut kept: Vec<String> = Vec::new();
    let mut i: usize = 0;
    while i < tools.len()
        invariant
            i <= tools@.len(),
            tv == crate::ctl::text_views(tools@),
            crate::ctl::text_views(kept@) == configured_tools(tv.take(i as int)),
        decreases tools@.len() - i,
    {
        assert(tv.take(i + 1).drop_last() =~= tv.take(i as int));
        assert(tv.take(i + 1).last() == tools@[i as int]@);
        let t = tools[i].as_str();
        let is_agent = crate::text::chars_eq(crate::text::str_chars(t).as_slice(), crate::text::str_chars("agent").as_slice());
        let is_workflow = crate::text::chars_eq(
            crate::text::str_chars(t).as_slice(),
            crate::text::str_chars("workflow").as_slice(),
        );
        if !is_agent && !is_workflow {
            let ghost before = crate::ctl::text_views(kept@);
            kept.push(tools[i].clone());
            assert(crate::ctl::text_views(kept@) =~= before.push(tools@[i as int]@));
        }
        i = i + 1;
    }
    assert(tv.take(tools@.len() as int) =~= tv);
    Ok(PlanSetup { ancestors: chain, session_id: session, tools: kept })
}

/// The first tool of an MCP server whose name is taken already, by the
/// resolved tools or by an earlier MCP tool.
pub open spec fn first_clash(taken: Seq<Seq<char>>, mcp: Seq<Seq<char>>) -> Option<Seq<char>>
    decreases mcp.len(),
{
    if mcp.len() == 0 {
        None
    } else {
        match first_clash(taken, mcp.drop_last()) {
            Some(n) => Some(n),
            None => if (taken + mcp.drop_last()).contains(mcp.last()) {
                Some(mcp.last())
            } else {
                None
            },
        }
    }
}

/// A clash found among the first tools stays the first clash of them all.
proof fn lemma_first_clash_prefix(taken: Seq<Seq<char>>, mcp: Seq<Seq<char>>, k: int)
    requires
        0 <= k <= mcp.len(),
        first_clash(taken, mcp.take(k)) is Some,
    ensures
        first_clash(taken, mcp) == first_clash(taken, mcp.take(k)),
    decreases mcp.len() - k,
{
    if k < mcp.len() {
        assert(mcp.take(k + 1).drop_last() =~= mcp.take(k));
        lemma_first_clash_prefix(taken, mcp, k + 1);
    } else {
        assert(mcp.take(k) =~= mcp);
    }
}

/// Whether the routes of a plan's tools can be laid out: every tool name
/// once, and the plan's own tools (for sub-agents and workflows, when it has
/// them) not named by any other tool.
pub open spec fn routes_checked(
    tools: Seq<Seq<char>>,
    mcp: Seq<Seq<char>>,
    has_sub_agents: bool,
    has_workflows: bool,
) -> Result<(), Seq<char>> {
    match first_clash(tools, mcp) {
        Some(n) => Err("multiple configured tools expose the model name `"@ + n + "`"@),
        None => if has_sub_agents && (tools + mcp).contains("agent"@) {
            Err("configured tool name `agent` conflicts with the sub-agent tool"@)
        } else if has_workflows && (tools + mcp).contains("workflow"@) {
            Err("configured tool name `workflow` conflicts with the workflow tool"@)
        } else {
            Ok(())
        },
    }
}

/// Checks the routes of a plan's tools: the names of the resolved tools,
/// then those of the MCP servers' tools, then the plan's own tools.
pub fn check_tool_routes(tools: &Vec<String>, mcp: &Vec<String>, has_sub_agents: bool, has_workflows: bool) -> (r: Result<(), String>)
    ensures
        err_view(r) == routes_checked(
            crate::ctl::text_views(tools@),
            crate::ctl::text_views(mcp@),
            has_sub_agents,
            has_workflows,
        ),
{
    let ghost tv = crate::ctl::text_views(tools@);
    let ghost mv = crate::ctl::text_views(mcp@);
    let mut i: usize = 0;
    while i < mcp.len()
        invariant
            i <= mcp@.len(),
            tv == crate::ctl::text_views(tools@),
            mv == crate::ctl::text_views(mcp@),
            first_clash(tv, mv.take(i as int)) is None,
        decreases mcp@.len() - i,
    {
        let name = mcp[i].as_str();
        let in_tools = has_text(tools, tools.len(), name);
        let in_earlier = has_text(mcp, i, name);
        assert(tv.take(tools@.len() as int) =~= tv);
        assert(mv.take(i + 1).drop_last() =~= mv.take(i as int));
        assert(mv.take(i + 1).last() == mv[i as int]);
        assert((tv + mv.take(i as int)).contains(mv[i as int]) == (tv.contains(mv[i as int]) || mv.take(
            i as int,
        ).contains(mv[i as int]))) by {
            let all = tv + mv.take(i as int);
            if all.contains(mv[i as int]) {
                let k = choose|k: int| 0 <= k < all.len() && all[k] == mv[i as int];
                if k >= tv.len() {
                    assert(mv.take(i as int)[k - tv.len()] == mv[i as int]);
                }
            }
            if tv.contains(mv[i as int]) {
                let k = choose|k: int| 0 <= k < tv.len() && tv[k] == mv[i as int];
                assert(all[k] == mv[i as int]);
            }
            if mv.take(i as int).contains(mv[i as int]) {
                let k = choose|k: int| 0 <= k < i && mv.take(i as int)[k] == mv[i as int];
                assert(all[tv.len() + k] == mv[i as int]);
            }
        }
        if in_tools || in_earlier {
            proof {
                lemma_first_clash_prefix(tv, mv, i + 1);
            }
            let mut m = String::from_str("multiple configured tools expose the model name `");
            m.append(name);
            m.append("`");
            return Err(m);
        }
        i = i + 1;
    }
    assert(mv.take(mcp@.len() as int) =~= mv);
    let all_has_agent = has_text(tools, tools.len(), "agent") || has_text(mcp, mcp.len(), "agent");
    let all_has_workflow = has_text(tools, tools.len(), "workflow") || has_text(mcp, mcp.len(), "workflow");
    assert(tv.take(tools@.len() as int) =~= tv);
    proof {
        assert forall|x: Seq<char>| #[trigger] (tv + mv).contains(x) == (tv.contains(x) || mv.contains(x)) by {
            let all = tv + mv;
            if all.contains(x) {
                let k = choose|k: int| 0 <= k < all.len() && all[k] == x;
                if k >= tv.len() {
                    assert(mv[k - tv.len()] == x);
                }
            }
            if tv.contains(x) {
                let k = choose|k: int| 0 <= k < tv.len() && tv[k] == x;
                assert(all[k] == x);
            }
            if mv.contains(x) {
                let k = choose|k: int| 0 <= k < mv.len() && mv[k] == x;
                assert(all[tv.len() + k] == x);
            }
        }
        reveal_strlit("agent");
        reveal_strlit("workflow");
    }
    if has_sub_agents && all_has_agent {
        return Err(String::from_str("configured tool name `agent` conflicts with the sub-agent tool"));
    }
    if has_workflows && all_has_workflow {
        return Err(String::from_str("configured tool name `workflow` conflicts with the workflow tool"));
    }
    Ok(())
}

} // verus!
