//! What the terminal client shows and edits: the transcript, the run state and
//! the prompt, and how each session event changes them.
use crate::composer::line_end;
use crate::keys::{KeyCode, KeyModifiers, PromptAction, PromptEditor, PromptView, RunningAction};
use crate::session_event::{SessionEventData, SessionOutput};
use crate::text::{decimal, decimal_chars, chars_string};
use crate::transcript::{
    agent_title, buffered, completion, finalize_assistant_message, finalized, finish_stream,
    finished, flush_child_stream_messages, held, new_message, released, stream_appended, titled,
    append_stream_message, views, BufferedView, ChildStreams, Message, MessageKind, MessageView,
};
use vstd::prelude::*;
use vstd::string::StringExecFns;

verus! {

/// The pretty-printed form of a JSON text, or `None` when the text is not JSON.
pub uninterp spec fn pretty_json(text: Seq<char>) -> Option<Seq<char>>;

/// `serde_json::from_str` into a `serde_json::Value`, then
/// `serde_json::to_string_pretty` of that value.
///
/// Trusted: the result is `None` when the text is not JSON (printing a
/// parsed value does not fail), and is otherwise the crate's pretty form of
/// the parsed value, a function of the text alone; nothing more is claimed
/// of it.
#[verifier::external_body]
fn reformat_json(text: &str) -> (r: Option<String>)
    ensures
        match r {
            Some(p) => pretty_json(text@) == Some(p@),
            None => pretty_json(text@) is None,
        },
{
    match serde_json::from_str::<serde_json::Value>(text) {
        Ok(value) => serde_json::to_string_pretty(&value).ok(),
        Err(_) => None,
    }
}

/// A JSON text as shown: pretty-printed when it parses, as it is otherwise.
pub open spec fn shown_json(text: Seq<char>) -> Seq<char> {
    match pretty_json(text) {
        Some(p) => p,
        None => text,
    }
}

/// A JSON text as shown in the transcript.
pub fn pretty_json_text(text: &str) -> (r: String)
    ensures
        r@ == shown_json(text@),
{
    match reformat_json(text) {
        Some(p) => p,
        None => String::from_str(text),
    }
}

/// What the client runs: one agent, or a workflow.
#[derive(Debug, Clone, Copy, PartialEq, Eq, Structural)]
pub enum Mode {
    Agent,
    Workflow,
}

/// Whether the prompt can be edited: while idle or failed, and while an
/// agent (not a workflow) runs.
pub open spec fn editable(state: RunState, mode: Mode) -> bool {
    state == RunState::Idle || state == RunState::Failed || (state == RunState::Running && mode == Mode::Agent)
}

/// Whether the prompt can be edited.
pub fn composer_is_editable(state: RunState, mode: Mode) -> (b: bool)
    ensures
        b == editable(state, mode),
{
    state == RunState::Idle || state == RunState::Failed || (state == RunState::Running && mode == Mode::Agent)
}

/// Where a run of the client stands.
#[derive(Debug, Clone, Copy, PartialEq, Eq, Structural)]
pub enum RunState {
    Idle,
    Running,
    Completed,
    Failed,
}

/// The abstract state of the client's screen.
pub struct UiView {
    pub agent_name: Seq<char>,
    pub subject: Seq<char>,
    pub messages: Seq<MessageView>,
    pub held: Map<Seq<char>, Seq<BufferedView>>,
    pub state: RunState,
    pub input: PromptView,
}

/// The state of the terminal client: transcript, held-back output of nested
/// agents, run state and prompt.
pub struct TerminalUi {
    agent_name: String,
    subject: String,
    messages: Vec<Message>,
    child_streams: ChildStreams,
    state: RunState,
    input: PromptEditor,
}

impl View for TerminalUi {
    type V = UiView;

    closed spec fn view(&self) -> UiView {
        UiView {
            agent_name: self.agent_name@,
            subject: self.subject@,
            messages: views(self.messages@),
            held: self.child_streams@,
            state: self.state,
            input: self.input@,
        }
    }
}

/// The screen with the transcript back at its end.
pub open spec fn at_end(u: UiView) -> UiView {
    UiView { input: PromptView { scroll_from_bottom: 0, ..u.input }, ..u }
}

/// The screen after a message of the kind: the last message stops streaming.
pub open spec fn noted(u: UiView, kind: MessageKind, title: Seq<char>, content: Seq<char>) -> UiView {
    UiView { messages: finished(u.messages).push(new_message(kind, title, content, None)), ..u }
}

/// The first line of a text, and the rest after it.
pub open spec fn split_title(s: Seq<char>) -> (Seq<char>, Seq<char>) {
    let e = line_end(s, 0);
    if e < s.len() {
        (s.take(e), s.skip(e + 1))
    } else {
        (s, Seq::empty())
    }
}

/// The screen after an error: it is not repeated right after itself;
/// otherwise it is added and the run has failed.
pub open spec fn errored(u: UiView, error: Seq<char>) -> UiView {
    let ms = finished(u.messages);
    if ms.len() > 0 && ms.last().kind == MessageKind::Error && ms.last().content == error {
        UiView { messages: ms, ..u }
    } else {
        at_end(
            UiView {
                messages: ms.push(new_message(MessageKind::Error, seq!['E', 'R', 'R', 'O', 'R'], error, None)),
                state: RunState::Failed,
                ..u
            },
        )
    }
}

/// The screen once a run of a nested agent has finished: its held-back
/// output joins the transcript.
pub open spec fn flushed(u: UiView, run: Seq<char>, answer: Option<(Seq<char>, Seq<char>)>) -> UiView {
    UiView {
        messages: u.messages + released(held(u.held, run), answer is Some) + completion(answer),
        held: u.held.remove(run),
        ..u
    }
}

/// The text of an optional string (empty when absent).
pub open spec fn or_empty(o: Option<String>) -> Seq<char> {
    match o {
        Some(s) => s@,
        None => Seq::empty(),
    }
}

/// The agent an event speaks for.
pub open spec fn event_agent(u: UiView, o: SessionOutput) -> Seq<char> {
    match o.agent_name {
        Some(a) => a@,
        None => u.agent_name,
    }
}

/// `node:plan:agent`, the run an event belongs to.
pub open spec fn event_run(u: UiView, o: SessionOutput) -> Seq<char> {
    or_empty(o.node_id) + seq![':'] + or_empty(o.plan_id) + seq![':'] + event_agent(u, o)
}

/// `run:source`, the stream an event belongs to.
pub open spec fn event_stream(u: UiView, o: SessionOutput) -> Seq<char> {
    event_run(u, o) + seq![':'] + or_empty(o.runtime_id)
}

/// The screen after a session event (before the transcript returns to its end).
pub open spec fn event_applied(u: UiView, o: SessionOutput) -> UiView {
    let agent = event_agent(u, o);
    let run = event_run(u, o);
    let source = or_empty(o.runtime_id);
    let nested = o.parament_plan_id is Some;
    match o.event.data {
        SessionEventData::ModelReasoning { content } => if nested {
            UiView {
                held: u.held.insert(
                    run,
                    buffered(held(u.held, run), MessageKind::Reasoning, titled(agent, "Thinking"@), content@),
                ),
                ..u
            }
        } else {
            UiView {
                messages: stream_appended(
                    u.messages,
                    MessageKind::Reasoning,
                    titled(agent, "Thinking"@),
                    event_stream(u, o),
                    content@,
                ),
                ..u
            }
        },
        SessionEventData::ModelOutput { content } => if nested {
            UiView {
                held: u.held.insert(
                    run,
                    buffered(held(u.held, run), MessageKind::Assistant, titled(agent, "Assistant"@), content@),
                ),
                ..u
            }
        } else {
            UiView {
                messages: stream_appended(
                    u.messages,
                    MessageKind::Assistant,
                    titled(agent, "Assistant"@),
                    event_stream(u, o),
                    content@,
                ),
                ..u
            }
        },
        SessionEventData::CompressionStarted { estimated_tokens, trigger_compression_size } => noted(
            flushed(u, run, None),
            MessageKind::Notice,
            titled(agent, "Compressing context"@),
            "Estimated tokens: "@ + decimal(estimated_tokens as nat) + ", trigger: "@ + decimal(
                trigger_compression_size as nat,
            ),
        ),
        SessionEventData::CompressionCompleted { content } => noted(
            flushed(u, run, None),
            MessageKind::Notice,
            titled(agent, "Context compressed"@),
            content@,
        ),
        SessionEventData::ToolCall { arguments, .. } => noted(
            flushed(u, run, None),
            MessageKind::Tool,
            titled(agent, "Called "@ + source),
            shown_json(arguments@),
        ),
        SessionEventData::ToolOutput { output, completed, .. } => noted(
            flushed(u, run, None),
            MessageKind::Tool,
            titled(
                agent,
                if completed {
                    "Completed "@
                } else {
                    "Running "@
                } + source,
            ),
            shown_json(output@),
        ),
        SessionEventData::NodeCompleted { output, finished } => noted(
            flushed(u, run, None),
            MessageKind::Workflow,
            titled(
                agent,
                if finished {
                    "Workflow complete"@
                } else {
                    "Completed "@ + match o.node_id {
                        Some(n) => n@,
                        None => source,
                    }
                },
            ),
            match output {
                Some(j) => shown_json(j@),
                None => Seq::empty(),
            },
        ),
        SessionEventData::Failed { error } => errored(flushed(u, run, None), error@),
        SessionEventData::Custom { event_type, content } => noted(
            flushed(u, run, None),
            MessageKind::System,
            titled(agent, event_type@),
            content@,
        ),
        SessionEventData::Completed { content } => if nested {
            flushed(u, run, Some((titled(agent, "Assistant"@), content@)))
        } else {
            UiView { messages: finalized(u.messages, titled(agent, "Assistant"@), content@), ..u }
        },
        _ => u,
    }
}

fn opt_text(o: &Option<String>) -> (r: String)
    ensures
        r@ == or_empty(*o),
{
    match o {
        Some(s) => s.clone(),
        None => String::new(),
    }
}

impl TerminalUi {
    /// An empty screen for the agent and session subject.
    pub fn new(agent_name: String, subject: String) -> (r: TerminalUi)
        ensures
            r@.agent_name == agent_name@,
            r@.subject == subject@,
            r@.messages == Seq::<MessageView>::empty(),
            r@.held == Map::<Seq<char>, Seq<BufferedView>>::empty(),
            r@.state == RunState::Idle,
            r@.input == PromptEditor::new_view(),
    {
        let r = TerminalUi {
            agent_name,
            subject,
            messages: Vec::new(),
            child_streams: ChildStreams::new(),
            state: RunState::Idle,
            input: PromptEditor::new(),
        };
        assert(views(r.messages@) =~= Seq::<MessageView>::empty());
        r
    }

    /// The transcript's messages.
    pub fn messages(&self) -> (r: &Vec<Message>)
        ensures
            views(r@) == self@.messages,
    {
        &self.messages
    }

    /// Where the run stands.
    pub fn state(&self) -> (r: RunState)
        ensures
            r == self@.state,
    {
        self.state
    }

    /// Sets where the run stands.
    pub fn set_state(&mut self, state: RunState)
        ensures
            final(self)@ == (UiView { state, ..old(self)@ }),
    {
        self.state = state;
    }

    /// The prompt.
    pub fn input(&self) -> (r: &PromptEditor)
        ensures
            r@ == self@.input,
    {
        &self.input
    }

    /// The session subject shown in the header.
    pub fn subject(&self) -> (r: &String)
        ensures
            r@ == self@.subject,
    {
        &self.subject
    }

    /// Changes the session subject.
    pub fn set_subject(&mut self, subject: String)
        ensures
            final(self)@ == (UiView { subject: subject@, ..old(self)@ }),
    {
        self.subject = subject;
    }

    fn title(&self, label: &str) -> (r: String)
        ensures
            r@ == titled(self@.agent_name, label@),
    {
        agent_title(self.agent_name.as_str(), label)
    }

    /// Marks the last message as no longer streaming.
    pub fn finish_stream(&mut self)
        ensures
            final(self)@ == (UiView { messages: finished(old(self)@.messages), ..old(self)@ }),
    {
        finish_stream(&mut self.messages);
    }

    fn push_titled(&mut self, kind: MessageKind, label: &str, content: String)
        ensures
            final(self)@ == at_end(noted(old(self)@, kind, titled(old(self)@.agent_name, label@), content@)),
    {
        self.finish_stream();
        let title = self.title(label);
        let m = Message::new(kind, title, content, None);
        let ghost before = views(self.messages@);
        self.messages.push(m);
        assert(views(self.messages@) =~= before.push(m@));
        self.input.reset_scroll();
    }

    /// Adds what the user sent.
    pub fn push_user(&mut self, content: String)
        ensures
            final(self)@ == at_end(noted(old(self)@, MessageKind::User, titled(old(self)@.agent_name, "You"@), content@)),
    {
        self.push_titled(MessageKind::User, "You", content);
    }

    /// Adds a message that steered the running agent.
    pub fn push_steer(&mut self, content: String)
        ensures
            final(self)@ == at_end(noted(old(self)@, MessageKind::User, titled(old(self)@.agent_name, "Steer"@), content@)),
    {
        self.push_titled(MessageKind::User, "Steer", content);
    }

    /// Adds a message whose first line is its title and whose other lines are
    /// its details.
    pub fn push_message(&mut self, kind: MessageKind, content: String)
        ensures
            final(self)@ == at_end(
                noted(
                    old(self)@,
                    kind,
                    titled(old(self)@.agent_name, split_title(content@).0),
                    split_title(content@).1,
                ),
            ),
    {
        let chars = crate::text::str_chars(content.as_str());
        let mut e: usize = 0;
        while e < chars.len() && chars[e] != '\n'
            invariant
                e <= chars@.len(),
                chars@ == content@,
                line_end(chars@, e as int) == line_end(chars@, 0),
            decreases chars@.len() - e,
        {
            e = e + 1;
        }
        let (title, details) = if e < chars.len() {
            let t = crate::text::slice_range(chars.as_slice(), 0, e);
            let d = crate::text::slice_range(chars.as_slice(), e + 1, chars.len());
            assert(t@ =~= content@.take(e as int));
            assert(d@ =~= content@.skip(e + 1));
            (chars_string(t.as_slice()), chars_string(d.as_slice()))
        } else {
            (content, String::new())
        };
        self.push_titled(kind, title.as_str(), details);
    }

    /// Adds a system message (first line title, other lines details).
    pub fn push_system(&mut self, content: String)
        ensures
            final(self)@ == at_end(
                noted(
                    old(self)@,
                    MessageKind::System,
                    titled(old(self)@.agent_name, split_title(content@).0),
                    split_title(content@).1,
                ),
            ),
    {
        self.push_message(MessageKind::System, content);
    }

    /// Adds a notice (first line title, other lines details).
    pub fn push_notice(&mut self, content: String)
        ensures
            final(self)@ == at_end(
                noted(
                    old(self)@,
                    MessageKind::Notice,
                    titled(old(self)@.agent_name, split_title(content@).0),
                    split_title(content@).1,
                ),
            ),
    {
        self.push_message(MessageKind::Notice, content);
    }

    /// Adds an error unless it repeats the last message; the run has failed.
    pub fn push_error(&mut self, error: String)
        ensures
            final(self)@ == errored(old(self)@, error@),
    {
        self.finish_stream();
        let n = self.messages.len();
        if n > 0 && self.messages[n - 1].kind == MessageKind::Error && self.messages[n - 1].content
            == error {
            return;
        }
        let label = chars_string(&['E', 'R', 'R', 'O', 'R']);
        assert(label@ =~= seq!['E', 'R', 'R', 'O', 'R']);
        let m = Message::new(MessageKind::Error, label, error, None);
        let ghost before = views(self.messages@);
        self.messages.push(m);
        assert(views(self.messages@) =~= before.push(m@));
        self.state = RunState::Failed;
        self.input.reset_scroll();
    }

    /// Empties the transcript and drops held-back output.
    pub fn clear_transcript(&mut self)
        ensures
            final(self)@ == at_end(
                UiView {
                    messages: Seq::empty(),
                    held: Map::empty(),
                    ..old(self)@
                },
            ),
    {
        self.messages = Vec::new();
        self.child_streams.clear();
        self.input.reset_scroll();
        assert(views(self.messages@) =~= Seq::<MessageView>::empty());
    }

    /// Shows a workflow's result (its JSON output as text); the run has completed.
    pub fn workflow_result(&mut self, output: &str)
        ensures
            final(self)@ == at_end(
                UiView {
                    state: RunState::Completed,
                    ..noted(old(self)@, MessageKind::Workflow, titled(old(self)@.agent_name, "Workflow result"@), shown_json(output@))
                },
            ),
    {
        let text = pretty_json_text(output);
        self.push_titled(MessageKind::Workflow, "Workflow result", text);
        self.state = RunState::Completed;
    }

    /// Folds or unfolds the message at `index`, when it can be folded.
    pub fn toggle_message(&mut self, index: usize)
        ensures
            index < old(self)@.messages.len() && crate::transcript::collapsible(old(self)@.messages[index as int])
                ==> final(self)@ == (UiView {
                    messages: old(self)@.messages.update(
                        index as int,
                        MessageView {
                            expanded: !old(self)@.messages[index as int].expanded,
                            ..old(self)@.messages[index as int]
                        },
                    ),
                    ..old(self)@
                }),
            !(index < old(self)@.messages.len() && crate::transcript::collapsible(old(self)@.messages[index as int]))
                ==> final(self)@ == old(self)@,
    {
        if index < self.messages.len() && self.messages[index].is_collapsible() {
            let ghost before = self.messages@;
            let mut m = self.messages.remove(index);
            m.expanded = !m.expanded;
            self.messages.insert(index, m);
            assert(self.messages@ =~= before.update(index as int, self.messages@[index as int]));
            assert(views(self.messages@) =~= views(before).update(index as int, self.messages@[index as int]@));
        }
    }

    /// Handles a key press while the prompt waits for input.
    pub fn handle_prompt_key(&mut self, code: KeyCode, m: KeyModifiers) -> (r: Option<PromptAction>)
        ensures
            final(self)@ == (UiView { input: crate::keys::prompt_key(old(self)@.input, code, m).0, ..old(self)@ }),
            crate::keys::prompt_outcome(r) == crate::keys::prompt_key(old(self)@.input, code, m).1,
    {
        self.input.handle_prompt_key(code, m)
    }

    /// Handles a key press while the agent runs.
    pub fn handle_running_key(&mut self, code: KeyCode, m: KeyModifiers, can_steer: bool) -> (r: RunningAction)
        ensures
            final(self)@ == (UiView {
                input: crate::keys::running_key(old(self)@.input, code, m, can_steer).0,
                ..old(self)@
            }),
            crate::keys::running_outcome(r) == crate::keys::running_key(old(self)@.input, code, m, can_steer).1,
    {
        self.input.handle_running_key(code, m, can_steer)
    }

    /// Inserts pasted text into the prompt.
    pub fn paste(&mut self, content: &str)
        ensures
            final(self)@ == (UiView {
                input: PromptView {
                    composer: crate::composer::inserted(old(self)@.input.composer, content@),
                    ..old(self)@.input
                },
                ..old(self)@
            }),
    {
        self.input.paste(content);
    }

    /// Scrolls the transcript back.
    pub fn scroll_up(&mut self, lines: u16)
        ensures
            final(self)@ == (UiView {
                input: PromptView {
                    scroll_from_bottom: crate::keys::add_capped(old(self)@.input.scroll_from_bottom, lines as nat),
                    ..old(self)@.input
                },
                ..old(self)@
            }),
    {
        self.input.scroll_up(lines);
    }

    /// Scrolls the transcript forward.
    pub fn scroll_down(&mut self, lines: u16)
        ensures
            final(self)@ == (UiView {
                input: PromptView {
                    scroll_from_bottom: crate::keys::sub_floored(old(self)@.input.scroll_from_bottom, lines as nat),
                    ..old(self)@.input
                },
                ..old(self)@
            }),
    {
        self.input.scroll_down(lines);
    }

    fn flush_run(&mut self, run: &str, answer: Option<(String, String)>)
        ensures
            final(self)@ == flushed(old(self)@, run@, crate::transcript::opt_pair(answer)),
    {
        flush_child_stream_messages(&mut self.child_streams, &mut self.messages, run, answer);
    }

    fn note(&mut self, kind: MessageKind, title: String, content: String)
        ensures
            final(self)@ == noted(old(self)@, kind, title@, content@),
    {
        self.finish_stream();
        let m = Message::new(kind, title, content, None);
        let ghost before = views(self.messages@);
        self.messages.push(m);
        assert(views(self.messages@) =~= before.push(m@));
    }

    /// Applies a session event to the screen; tells whether it ends the session.
    pub fn apply_session_output(&mut self, event: SessionOutput) -> (terminal: bool)
        ensures
            terminal == event.ends_session(),
            final(self)@ == at_end(event_applied(old(self)@, event)),
    {
        let terminal = event.is_terminal();
        let nested = event.parament_plan_id.is_some();
        let source = opt_text(&event.runtime_id);
        let agent = match &event.agent_name {
            Some(a) => a.clone(),
            None => self.agent_name.clone(),
        };
        let mut run = opt_text(&event.node_id);
        run.append(":");
        run.append(opt_text(&event.plan_id).as_str());
        run.append(":");
        run.append(agent.as_str());
        let mut stream = run.clone();
        stream.append(":");
        stream.append(source.as_str());
        proof {
            reveal_strlit(":");
            assert(run@ =~= event_run(old(self)@, event));
            assert(stream@ =~= event_stream(old(self)@, event));
        }
        let ghost u = self@;
        match event.event.data {
            SessionEventData::ModelReasoning { content } => {
                let title = agent_title(agent.as_str(), "Thinking");
                if nested {
                    self.child_streams.buffer(run, MessageKind::Reasoning, title, content);
                } else {
                    append_stream_message(&mut self.messages, MessageKind::Reasoning, title.as_str(), stream, content);
                }
            },
            SessionEventData::ModelOutput { content } => {
                let title = agent_title(agent.as_str(), "Assistant");
                if nested {
                    self.child_streams.buffer(run, MessageKind::Assistant, title, content);
                } else {
                    append_stream_message(&mut self.messages, MessageKind::Assistant, title.as_str(), stream, content);
                }
            },
            SessionEventData::CompressionStarted { estimated_tokens, trigger_compression_size } => {
                self.flush_run(run.as_str(), None);
                let mut text = String::from_str("Estimated tokens: ");
                text.append(chars_string(decimal_chars(estimated_tokens).as_slice()).as_str());
                text.append(", trigger: ");
                text.append(chars_string(decimal_chars(trigger_compression_size).as_slice()).as_str());
                self.note(MessageKind::Notice, agent_title(agent.as_str(), "Compressing context"), text);
            },
            SessionEventData::CompressionCompleted { content } => {
                self.flush_run(run.as_str(), None);
                self.note(MessageKind::Notice, agent_title(agent.as_str(), "Context compressed"), content);
            },
            SessionEventData::ToolCall { arguments, .. } => {
                self.flush_run(run.as_str(), None);
                let label = String::from_str("Called ").concat(source.as_str());
                self.note(MessageKind::Tool, agent_title(agent.as_str(), label.as_str()), pretty_json_text(arguments.as_str()));
            },
            SessionEventData::ToolOutput { output, completed, .. } => {
                self.flush_run(run.as_str(), None);
                let label = if completed {
                    String::from_str("Completed ")
                } else {
                    String::from_str("Running ")
                }.concat(source.as_str());
                self.note(MessageKind::Tool, agent_title(agent.as_str(), label.as_str()), pretty_json_text(output.as_str()));
            },
            SessionEventData::NodeCompleted { output, finished } => {
                self.flush_run(run.as_str(), None);
                let label = if finished {
                    String::from_str("Workflow complete")
                } else {
                    let node = match &event.node_id {
                        Some(n) => n.clone(),
                        None => source.clone(),
                    };
                    String::from_str("Completed ").concat(node.as_str())
                };
                let content = match &output {
                    Some(j) => pretty_json_text(j.as_str()),
                    None => String::new(),
                };
                self.note(MessageKind::Workflow, agent_title(agent.as_str(), label.as_str()), content);
            },
            SessionEventData::Failed { error } => {
                self.flush_run(run.as_str(), None);
                self.push_error(error);
            },
            SessionEventData::Custom { event_type, content } => {
                self.flush_run(run.as_str(), None);
                self.note(MessageKind::System, agent_title(agent.as_str(), event_type.as_str()), content);
            },
            SessionEventData::Completed { content } => {
                let title = agent_title(agent.as_str(), "Assistant");
                if nested {
                    self.flush_run(run.as_str(), Some((title, content)));
                } else {
                    finalize_assistant_message(&mut self.messages, title.as_str(), content);
                }
            },
            _ => {},
        }
        self.input.reset_scroll();
        terminal
    }
}

impl PromptEditor {
    /// The state of a new prompt.
    pub open spec fn new_view() -> PromptView {
        PromptView {
            composer: crate::composer::emptied(),
            history: Seq::empty(),
            index: None,
            draft: Seq::empty(),
            scroll_from_bottom: 0,
        }
    }
}

} // verus!

verus! {

/// What the mouse did.
#[derive(Debug, Clone, Copy, PartialEq, Eq, Structural)]
pub enum MouseKind {
    ScrollUp,
    ScrollDown,
    LeftDown,
    Other,
}

/// What a mouse event comes to once the screen took it in.
#[derive(Debug, Clone, Copy, PartialEq, Eq, Structural)]
pub enum MouseOutcome {
    /// Nothing more to do.
    Done,
    /// A click at this position: the message under it may fold or unfold.
    Click { column: u16, row: u16 },
}

/// Whether the wheel scrolls the composer: it can be edited, has rows
/// hidden, and the pointer is over it.
pub open spec fn over_composer(editable_now: bool, max_composer_scroll: u16, row: u16, composer_top: u16, composer_bottom: u16) -> bool {
    editable_now && max_composer_scroll > 0 && composer_top <= row < composer_bottom
}

/// The screen after a mouse event.
pub open spec fn moused(u: UiView, kind: MouseKind, over: bool, max_composer_scroll: u16) -> UiView {
    match kind {
        MouseKind::ScrollUp => if over {
            UiView {
                input: PromptView {
                    composer: crate::composer::ComposerView {
                        scroll_back: vstd::math::min(
                            vstd::math::min(u.input.composer.scroll_back + 3int, u16::MAX as int),
                            max_composer_scroll as int,
                        ) as nat,
                        ..u.input.composer
                    },
                    ..u.input
                },
                ..u
            }
        } else {
            UiView {
                input: PromptView { scroll_from_bottom: crate::keys::add_capped(u.input.scroll_from_bottom, 3), ..u.input },
                ..u
            }
        },
        MouseKind::ScrollDown => if over {
            UiView {
                input: PromptView {
                    composer: crate::composer::ComposerView {
                        scroll_back: vstd::math::max(u.input.composer.scroll_back - 3int, 0) as nat,
                        ..u.input.composer
                    },
                    ..u.input
                },
                ..u
            }
        } else {
            UiView {
                input: PromptView { scroll_from_bottom: crate::keys::sub_floored(u.input.scroll_from_bottom, 3), ..u.input },
                ..u
            }
        },
        _ => u,
    }
}

impl TerminalUi {
    /// Takes in a mouse event: the wheel scrolls the composer when it is
    /// over a composer that can be edited and has rows hidden, and the
    /// transcript otherwise; a left click is handed back with its position.
    pub fn handle_mouse(
        &mut self,
        kind: MouseKind,
        column: u16,
        row: u16,
        mode: Mode,
        composer_top: u16,
        composer_bottom: u16,
        max_composer_scroll: u16,
    ) -> (r: MouseOutcome)
        ensures
            final(self)@ == moused(
                old(self)@,
                kind,
                over_composer(editable(old(self)@.state, mode), max_composer_scroll, row, composer_top, composer_bottom),
                max_composer_scroll,
            ),
            kind == MouseKind::LeftDown ==> r == (MouseOutcome::Click { column, row }),
            kind != MouseKind::LeftDown ==> r == MouseOutcome::Done,
    {
        let over = composer_is_editable(self.state, mode) && max_composer_scroll > 0 && row >= composer_top
            && row < composer_bottom;
        match kind {
            MouseKind::ScrollUp => {
                if over {
                    self.input.scroll_composer_up(crate::keys::MOUSE_SCROLL_LINES, max_composer_scroll);
                } else {
                    self.input.scroll_up(crate::keys::MOUSE_SCROLL_LINES);
                }
                MouseOutcome::Done
            },
            MouseKind::ScrollDown => {
                if over {
                    self.input.scroll_composer_down(crate::keys::MOUSE_SCROLL_LINES);
                } else {
                    self.input.scroll_down(crate::keys::MOUSE_SCROLL_LINES);
                }
                MouseOutcome::Done
            },
            MouseKind::LeftDown => MouseOutcome::Click { column, row },
            MouseKind::Other => MouseOutcome::Done,
        }
    }
}

/// The composer's height on screen: its rows plus the border, between three
/// and eight rows.
pub open spec fn composer_rows(visual_lines: usize) -> u16 {
    let h = (visual_lines as u16) + 2;
    if h < 3 {
        3
    } else if h > 8 {
        8
    } else {
        h as u16
    }
}

/// The composer's height on screen.
pub fn composer_height(visual_lines: usize) -> (r: u16)
    requires
        (visual_lines as u16) < 65534,
    ensures
        r == composer_rows(visual_lines),
{
    let h = (visual_lines as u16) + 2;
    if h < 3 {
        3
    } else if h > 8 {
        8
    } else {
        h
    }
}

} // verus!

verus! {

/// What the user is told after a steer command without a message.
pub open spec fn invalid_steer_text() -> Seq<char> {
    "Invalid steer command\nUse `/steer <message>` while the agent is running."@
}

/// What a key does to copy mode (where the terminal selects text and the
/// screen stops redrawing): F2 enters it, F2 or Esc leaves it, and while it
/// is on every key is taken by it. The pair is whether the key was taken,
/// and whether copy mode is on afterwards.
pub open spec fn copy_mode_step(copy_mode: bool, code: KeyCode) -> (bool, bool) {
    if copy_mode {
        (true, !(code == KeyCode::F(2) || code == KeyCode::Esc))
    } else if code == KeyCode::F(2) {
        (true, true)
    } else {
        (false, false)
    }
}

/// What a key does to copy mode.
pub fn copy_mode_key(copy_mode: bool, code: KeyCode) -> (r: (bool, bool))
    ensures
        r == copy_mode_step(copy_mode, code),
{
    if copy_mode {
        let leave = code == KeyCode::F(2) || code == KeyCode::Esc;
        (true, !leave)
    } else if code == KeyCode::F(2) {
        (true, true)
    } else {
        (false, false)
    }
}

/// The key hints in the footer, by what the screen is doing.
pub open spec fn footer_text(copy_mode: bool, state: RunState, mode: Mode) -> Seq<char> {
    if copy_mode {
        " COPY MODE  Drag to select  Use terminal copy shortcut  F2/Esc resume "@
    } else if state == RunState::Running && mode == Mode::Agent {
        " Enter steer  Esc interrupt  F2 copy  Wheel/PgUp/PgDn scroll "@
    } else if state == RunState::Running {
        " Esc interrupt  F2 copy  Wheel/PgUp/PgDn scroll "@
    } else if state == RunState::Completed {
        " Enter close  F2 copy  Wheel/PgUp/PgDn scroll "@
    } else {
        " Enter send  Shift+Enter newline  F2 copy  Wheel/PgUp/PgDn scroll  Ctrl+C quit "@
    }
}

/// The key hints in the footer.
pub fn footer_hint(copy_mode: bool, state: RunState, mode: Mode) -> (r: String)
    ensures
        r@ == footer_text(copy_mode, state, mode),
{
    if copy_mode {
        String::from_str(" COPY MODE  Drag to select  Use terminal copy shortcut  F2/Esc resume ")
    } else if state == RunState::Running && mode == Mode::Agent {
        String::from_str(" Enter steer  Esc interrupt  F2 copy  Wheel/PgUp/PgDn scroll ")
    } else if state == RunState::Running {
        String::from_str(" Esc interrupt  F2 copy  Wheel/PgUp/PgDn scroll ")
    } else if state == RunState::Completed {
        String::from_str(" Enter close  F2 copy  Wheel/PgUp/PgDn scroll ")
    } else {
        String::from_str(" Enter send  Shift+Enter newline  F2 copy  Wheel/PgUp/PgDn scroll  Ctrl+C quit ")
    }
}

/// How bright a letter of the `Outputting...` status is: the highlight
/// runs from left to right, leaving a fading trail.
#[derive(Debug, Clone, Copy, PartialEq, Eq, Structural)]
pub enum Shade {
    /// The highlight itself (yellow, bold).
    Head,
    /// One letter behind it (white).
    Near,
    /// Two letters behind it (grey).
    Fading,
    /// Everything else (dark grey, dim).
    Dim,
}

/// The steps of the highlight's run: the status's thirteen letters and
/// three more.
pub const OUTPUT_ANIMATION_STEPS: usize = 16;

/// The shade of letter `index` at a tick.
pub open spec fn shade_at(tick: nat, index: nat) -> Shade {
    let head = tick % 16;
    if head < index {
        Shade::Dim
    } else if head - index == 0 {
        Shade::Head
    } else if head - index == 1 {
        Shade::Near
    } else if head - index == 2 {
        Shade::Fading
    } else {
        Shade::Dim
    }
}

/// The shades of the status's letters at a tick.
pub fn output_status_shades(tick: usize) -> (r: Vec<Shade>)
    ensures
        r@.len() == 13,
        forall|i: int| 0 <= i < 13 ==> #[trigger] r@[i] == shade_at(tick as nat, i as nat),
{
    let head = tick % OUTPUT_ANIMATION_STEPS;
    let mut r: Vec<Shade> = Vec::new();
    let mut i: usize = 0;
    while i < 13
        invariant
            i <= 13,
            head == tick % 16,
            r@.len() == i,
            forall|j: int| 0 <= j < i ==> #[trigger] r@[j] == shade_at(tick as nat, j as nat),
        decreases 13 - i,
    {
        let s = if head < i {
            Shade::Dim
        } else if head - i == 0 {
            Shade::Head
        } else if head - i == 1 {
            Shade::Near
        } else if head - i == 2 {
            Shade::Fading
        } else {
            Shade::Dim
        };
        r.push(s);
        i = i + 1;
    }
    r
}

/// The next frame of the status animation.
pub fn next_spinner(spinner: usize) -> (r: usize)
    ensures
        r == (spinner + 1) % 16,
{
    if spinner >= OUTPUT_ANIMATION_STEPS - 1 {
        (spinner - (OUTPUT_ANIMATION_STEPS - 1)) % OUTPUT_ANIMATION_STEPS
    } else {
        spinner + 1
    }
}

impl TerminalUi {
    /// The user interrupted the run: `Interrupted` is noted, and the screen
    /// is idle.
    pub fn interrupted(&mut self)
        ensures
            final(self)@ == (UiView {
                state: RunState::Idle,
                ..at_end(
                    noted(
                        old(self)@,
                        MessageKind::System,
                        titled(old(self)@.agent_name, split_title("Interrupted"@).0),
                        split_title("Interrupted"@).1,
                    ),
                )
            }),
    {
        self.push_system(String::from_str("Interrupted"));
        self.state = RunState::Idle;
    }

    /// A steer command without a message: the user is told how to steer.
    pub fn invalid_steer(&mut self)
        ensures
            final(self)@ == at_end(
                noted(
                    old(self)@,
                    MessageKind::System,
                    titled(old(self)@.agent_name, split_title(invalid_steer_text()).0),
                    split_title(invalid_steer_text()).1,
                ),
            ),
    {
        self.push_system(String::from_str("Invalid steer command\nUse `/steer <message>` while the agent is running."));
    }

    /// The session's last event came: the screen is idle again unless the
    /// run failed.
    pub fn session_ended(&mut self)
        ensures
            old(self)@.state == RunState::Failed ==> final(self)@ == old(self)@,
            old(self)@.state != RunState::Failed ==> final(self)@ == (UiView { state: RunState::Idle, ..old(self)@ }),
    {
        if self.state != RunState::Failed {
            self.state = RunState::Idle;
        }
    }
}

} // verus!

verus! {

/// The colour of the composer's border.
#[derive(Debug, Clone, Copy, PartialEq, Eq, Structural)]
pub enum BorderColor {
    Accent,
    Yellow,
    Green,
    Red,
}

/// How the composer looks: its title, its border, what it shows, and
/// whether that is a placeholder (shown dimmed).
#[derive(Debug, Clone, PartialEq, Eq)]
pub struct ComposerFace {
    pub title: String,
    pub border: BorderColor,
    pub content: String,
    pub placeholder: bool,
}

/// The spinner's frames while a run goes on.
pub open spec fn run_spinner(frame: nat) -> char {
    if frame % 4 == 0 {
        '-'
    } else if frame % 4 == 1 {
        '\\'
    } else if frame % 4 == 2 {
        '|'
    } else {
        '/'
    }
}

/// The composer's title, border and text by the screen's state: idle it
/// asks for a message, running it offers to steer an agent (or says a
/// workflow works), done it asks to close, failed it keeps the message.
pub open spec fn face_of(state: RunState, mode: Mode, text: Seq<char>, spinner: nat) -> (Seq<char>, BorderColor, Seq<char>, bool) {
    match state {
        RunState::Idle => (
            " Message "@,
            BorderColor::Accent,
            if text.len() == 0 {
                "Ask FAE to work in this repository"@
            } else {
                text
            },
            text.len() == 0,
        ),
        RunState::Running => if mode == Mode::Agent {
            (
                " Steer "@,
                BorderColor::Yellow,
                if text.len() == 0 {
                    seq![run_spinner(spinner)] + " Running... /steer <message>"@
                } else {
                    text
                },
                text.len() == 0,
            )
        } else {
            (" Working "@, BorderColor::Yellow, seq![run_spinner(spinner)] + " Running... Esc to interrupt"@, false)
        },
        RunState::Completed => (" Done "@, BorderColor::Green, "Press Enter to close"@, false),
        RunState::Failed => (" Message "@, BorderColor::Red, text, false),
    }
}

/// How the composer looks.
pub fn composer_face(state: RunState, mode: Mode, text: &str, spinner: usize) -> (r: ComposerFace)
    ensures
        (r.title@, r.border, r.content@, r.placeholder) == face_of(state, mode, text@, spinner as nat),
{
    let empty = text.unicode_len() == 0;
    let sp = if spinner % 4 == 0 {
        '-'
    } else if spinner % 4 == 1 {
        '\\'
    } else if spinner % 4 == 2 {
        '|'
    } else {
        '/'
    };
    match state {
        RunState::Idle => ComposerFace {
            title: String::from_str(" Message "),
            border: BorderColor::Accent,
            content: if empty {
                String::from_str("Ask FAE to work in this repository")
            } else {
                String::from_str(text)
            },
            placeholder: empty,
        },
        RunState::Running => {
            if mode == Mode::Agent {
                let content = if empty {
                    let mut v: Vec<char> = Vec::new();
                    v.push(sp);
                    crate::text::extend_str(&mut v, " Running... /steer <message>");
                    chars_string(v.as_slice())
                } else {
                    String::from_str(text)
                };
                ComposerFace { title: String::from_str(" Steer "), border: BorderColor::Yellow, content, placeholder: empty }
            } else {
                let mut v: Vec<char> = Vec::new();
                v.push(sp);
                crate::text::extend_str(&mut v, " Running... Esc to interrupt");
                ComposerFace {
                    title: String::from_str(" Working "),
                    border: BorderColor::Yellow,
                    content: chars_string(v.as_slice()),
                    placeholder: false,
                }
            }
        },
        RunState::Completed => ComposerFace {
            title: String::from_str(" Done "),
            border: BorderColor::Green,
            content: String::from_str("Press Enter to close"),
            placeholder: false,
        },
        RunState::Failed => ComposerFace {
            title: String::from_str(" Message "),
            border: BorderColor::Red,
            content: String::from_str(text),
            placeholder: false,
        },
    }
}

/// Where the terminal cursor goes in the composer: inside its border, at the
/// composer's cursor, when it can be edited, copy mode is off, and the
/// cursor's row is in view.
pub open spec fn cursor_spot(
    editable_now: bool,
    copy_mode: bool,
    cursor_x: u16,
    cursor_y: u16,
    scroll: u16,
    inner_height: u16,
    area_x: u16,
    area_y: u16,
) -> Option<(int, int)> {
    let bottom = if scroll + inner_height > 65535 {
        65535
    } else {
        scroll + inner_height
    };
    if !copy_mode && editable_now && scroll <= cursor_y && cursor_y < bottom {
        Some((area_x + 2 + cursor_x, area_y + 1 + cursor_y - scroll))
    } else {
        None
    }
}

/// Where the terminal cursor goes in the composer.
pub fn composer_cursor(
    editable_now: bool,
    copy_mode: bool,
    cursor_x: u16,
    cursor_y: u16,
    scroll: u16,
    inner_height: u16,
    area_x: u16,
    area_y: u16,
) -> (r: Option<(u16, u16)>)
    requires
        area_x + 2 + cursor_x <= 65535,
        area_y + 1 + inner_height <= 65535,
    ensures
        match cursor_spot(editable_now, copy_mode, cursor_x, cursor_y, scroll, inner_height, area_x, area_y) {
            Some((x, y)) => r matches Some((a, b)) && a == x && b == y,
            None => r is None,
        },
{
    if !copy_mode && editable_now && cursor_y >= scroll && cursor_y < scroll.saturating_add(inner_height) {
        Some((area_x + 2 + cursor_x, area_y + 1 + (cursor_y - scroll)))
    } else {
        None
    }
}

} // verus!
