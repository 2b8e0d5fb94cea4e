//! The conversation transcript shown by the terminal client: its messages,
//! how streamed model output merges into them, how the output of nested
//! agents is buffered per run until that run finishes, and the plain-text
//! form printed when the client closes.
use crate::text::{
    str_chars, chars_string, extend_chars, extend_str, join, join_rows, lines, split_lines,
    char_rows,
};
use vstd::prelude::*;
use vstd::string::StringExecFns;

verus! {

/// What a transcript message is about.
#[derive(Debug, Clone, Copy, PartialEq, Eq, Structural)]
pub enum MessageKind {
    User,
    Assistant,
    Reasoning,
    Tool,
    Workflow,
    Notice,
    System,
    Error,
}

impl MessageKind {
    /// Kinds other than the user's and the model's words and errors are folded.
    pub open spec fn folds(self) -> bool {
        !(self is User || self is Assistant || self is Error)
    }

    /// Whether messages of this kind start folded.
    pub fn folds_by_default(self) -> (b: bool)
        ensures
            b == self.folds(),
    {
        match self {
            MessageKind::User | MessageKind::Assistant | MessageKind::Error => false,
            _ => true,
        }
    }
}

/// A transcript message.
#[derive(Debug)]
pub struct Message {
    pub kind: MessageKind,
    pub title: String,
    pub content: String,
    /// The stream still writing into this message, if any.
    pub stream_id: Option<String>,
    pub expanded: bool,
    pub render_markdown: bool,
}

/// A message with its texts taken by their characters.
pub struct MessageView {
    pub kind: MessageKind,
    pub title: Seq<char>,
    pub content: Seq<char>,
    pub stream_id: Option<Seq<char>>,
    pub expanded: bool,
    pub render_markdown: bool,
}

/// The characters of an optional string.
pub open spec fn opt_chars(o: Option<String>) -> Option<Seq<char>> {
    match o {
        Some(s) => Some(s@),
        None => None,
    }
}

impl View for Message {
    type V = MessageView;

    open spec fn view(&self) -> MessageView {
        MessageView {
            kind: self.kind,
            title: self.title@,
            content: self.content@,
            stream_id: opt_chars(self.stream_id),
            expanded: self.expanded,
            render_markdown: self.render_markdown,
        }
    }
}

/// A new message: folded kinds start folded unless they have no content.
pub open spec fn new_message(
    kind: MessageKind,
    title: Seq<char>,
    content: Seq<char>,
    stream_id: Option<Seq<char>>,
) -> MessageView {
    MessageView {
        kind,
        title,
        content,
        stream_id,
        expanded: !kind.folds() || content.len() == 0,
        render_markdown: false,
    }
}

/// A message of a folded kind with content can be folded and unfolded.
pub open spec fn collapsible(m: MessageView) -> bool {
    m.kind.folds() && m.content.len() > 0
}

/// Whether the content of a message is on screen.
pub open spec fn shows(m: MessageView) -> bool {
    !collapsible(m) || m.expanded
}

/// The views of a list of messages.
pub open spec fn views(ms: Seq<Message>) -> Seq<MessageView> {
    ms.map_values(|m: Message| m@)
}

impl Message {
    pub fn new(kind: MessageKind, title: String, content: String, stream_id: Option<String>) -> (m: Message)
        ensures
            m@ == new_message(kind, title@, content@, opt_chars(stream_id)),
    {
        let expanded = !kind.folds_by_default() || content.as_str().is_empty();
        Message { kind, title, content, stream_id, expanded, render_markdown: false }
    }

    /// Whether the message can be folded and unfolded.
    pub fn is_collapsible(&self) -> (b: bool)
        ensures
            b == collapsible(self@),
    {
        self.kind.folds_by_default() && !self.content.as_str().is_empty()
    }

    /// Whether the content of the message is on screen.
    pub fn shows_content(&self) -> (b: bool)
        ensures
            b == shows(self@),
    {
        !self.is_collapsible() || self.expanded
    }
}

/// `agent: label`, the title of a message of an agent.
pub open spec fn titled(agent: Seq<char>, label: Seq<char>) -> Seq<char> {
    agent + seq![':', ' '] + label
}

/// The title of a message of an agent.
pub fn agent_title(agent_name: &str, title: &str) -> (r: String)
    ensures
        r@ == titled(agent_name@, title@),
{
    let mut r = String::from_str(agent_name);
    let sep = chars_string(&[':', ' ']);
    assert(sep@ =~= seq![':', ' ']);
    r.append(sep.as_str());
    r.append(title);
    r
}

/// The messages with the last one no longer streaming.
pub open spec fn finished(ms: Seq<MessageView>) -> Seq<MessageView> {
    if ms.len() > 0 {
        ms.update(ms.len() - 1, MessageView { stream_id: None, ..ms.last() })
    } else {
        ms
    }
}

/// The messages after a chunk of a stream: the chunk extends the last message
/// when that message has the kind and is still written by the stream;
/// otherwise it starts a new streaming message.
pub open spec fn stream_appended(
    ms: Seq<MessageView>,
    kind: MessageKind,
    title: Seq<char>,
    stream_id: Seq<char>,
    content: Seq<char>,
) -> Seq<MessageView> {
    if ms.len() > 0 && ms.last().kind == kind && ms.last().stream_id == Some(stream_id) {
        ms.update(ms.len() - 1, MessageView { content: ms.last().content + content, ..ms.last() })
    } else {
        finished(ms).push(new_message(kind, title, content, Some(stream_id)))
    }
}

/// Marks the last message as no longer streaming.
pub fn finish_stream(messages: &mut Vec<Message>)
    ensures
        views(final(messages)@) == finished(views(old(messages)@)),
{
    if messages.len() > 0 {
        let mut m = messages.pop().unwrap();
        m.stream_id = None;
        messages.push(m);
        assert(views(messages@) =~= finished(views(old(messages)@)));
    }
}

/// Adds a chunk of streamed output to the messages.
pub fn append_stream_message(
    messages: &mut Vec<Message>,
    kind: MessageKind,
    title: &str,
    stream_id: String,
    content: String,
)
    ensures
        views(final(messages)@) == stream_appended(
            views(old(messages)@),
            kind,
            title@,
            stream_id@,
            content@,
        ),
{
    let n = messages.len();
    let current_matches = n > 0 && messages[n - 1].kind == kind && match &messages[n - 1].stream_id {
        Some(s) => *s == stream_id,
        None => false,
    };
    if current_matches {
        let mut m = messages.pop().unwrap();
        m.content.append(content.as_str());
        messages.push(m);
        assert(views(messages@) =~= stream_appended(
            views(old(messages)@),
            kind,
            title@,
            stream_id@,
            content@,
        ));
    } else {
        finish_stream(messages);
        let ghost mid = views(messages@);
        let m = Message::new(kind, String::from_str(title), content, Some(stream_id));
        messages.push(m);
        assert(views(messages@) =~= mid.push(m@));
        assert(views(messages@) =~= stream_appended(
            views(old(messages)@),
            kind,
            title@,
            stream_id@,
            content@,
        ));
    }
}

/// Index of the last assistant message with the title, or -1.
pub open spec fn last_assistant(ms: Seq<MessageView>, title: Seq<char>) -> int
    decreases ms.len(),
{
    if ms.len() == 0 {
        -1
    } else if ms.last().kind == MessageKind::Assistant && ms.last().title == title {
        ms.len() - 1
    } else {
        last_assistant(ms.drop_last(), title)
    }
}

pub proof fn lemma_last_assistant(ms: Seq<MessageView>, title: Seq<char>)
    ensures
        -1 <= last_assistant(ms, title) < ms.len(),
        last_assistant(ms, title) >= 0 ==> ms[last_assistant(ms, title)].kind == MessageKind::Assistant
            && ms[last_assistant(ms, title)].title == title,
        forall|j: int|
            last_assistant(ms, title) < j < ms.len() ==> !(#[trigger] ms[j].kind == MessageKind::Assistant
                && ms[j].title == title),
    decreases ms.len(),
{
    if ms.len() > 0 && !(ms.last().kind == MessageKind::Assistant && ms.last().title == title) {
        lemma_last_assistant(ms.drop_last(), title);
        assert forall|j: int| last_assistant(ms, title) < j < ms.len() implies !(
        #[trigger] ms[j].kind == MessageKind::Assistant && ms[j].title == title) by {
            if j < ms.len() - 1 {
                assert(ms[j] == ms.drop_last()[j]);
            }
        }
    }
}

/// The messages once a model's final answer is known: the latest assistant
/// message with the title stops streaming, takes the answer when it differs
/// (and is not empty), and is shown as Markdown; with no such message a
/// non-empty answer becomes a new one.
pub open spec fn finalized(ms: Seq<MessageView>, title: Seq<char>, content: Seq<char>) -> Seq<MessageView> {
    let i = last_assistant(ms, title);
    if i >= 0 {
        let m = ms[i];
        ms.update(
            i,
            MessageView {
                stream_id: None,
                content: if content.len() > 0 && m.content != content {
                    content
                } else {
                    m.content
                },
                render_markdown: true,
                ..m
            },
        )
    } else if content.len() > 0 {
        ms.push(MessageView { render_markdown: true, ..new_message(MessageKind::Assistant, title, content, None) })
    } else {
        ms
    }
}

/// Records a model's final answer.
pub fn finalize_assistant_message(messages: &mut Vec<Message>, title: &str, content: String)
    ensures
        views(final(messages)@) == finalized(views(old(messages)@), title@, content@),
{
    proof {
        lemma_last_assistant(views(messages@), title@);
    }
    let ghost ms = views(messages@);
    let ghost c0 = content@;
    let wanted = String::from_str(title);
    let mut i = messages.len();
    while i > 0
        invariant
            i <= messages@.len(),
            ms == views(messages@),
            ms == views(old(messages)@),
            wanted@ == title@,
            c0 == content@,
            -1 <= last_assistant(ms, title@) < ms.len(),
            forall|j: int| last_assistant(ms, title@) < j < ms.len() ==> !(#[trigger] ms[j].kind == MessageKind::Assistant && ms[j].title == title@),
            last_assistant(ms, title@) >= 0 ==> ms[last_assistant(ms, title@)].kind == MessageKind::Assistant && ms[last_assistant(ms, title@)].title == title@,
            forall|j: int| i <= j < ms.len() ==> !(#[trigger] ms[j].kind == MessageKind::Assistant && ms[j].title == title@),
        decreases i,
    {
        let k = i - 1;
        assert(ms[k as int] == messages@[k as int]@);
        if messages[k].kind == MessageKind::Assistant && messages[k].title == wanted {
            assert(ms[k as int].kind == MessageKind::Assistant && ms[k as int].title == title@);
            proof {
                let la = last_assistant(ms, title@);
                if la < k {
                    assert(!(ms[k as int].kind == MessageKind::Assistant && ms[k as int].title == title@));
                }
                if la > k {
                    assert(ms[la].kind == MessageKind::Assistant && ms[la].title == title@);
                }
            }
            assert(last_assistant(ms, title@) == k);
            let ghost before = messages@;
            let mut m = messages.remove(k);
            assert(m@ == ms[k as int]);
            m.stream_id = None;
            let nonempty = !content.as_str().is_empty();
            let same = m.content == content;
            if nonempty && !same {
                m.content = content;
            }
            m.render_markdown = true;
            let ghost mv = m@;
            assert(mv == (MessageView {
                stream_id: None,
                content: if c0.len() > 0 && ms[k as int].content != c0 {
                    c0
                } else {
                    ms[k as int].content
                },
                render_markdown: true,
                ..ms[k as int]
            }));
            messages.insert(k, m);
            assert(messages@ =~= before.update(k as int, messages@[k as int]));
            assert(views(messages@) =~= ms.update(k as int, mv));
            assert(views(messages@) =~= finalized(ms, title@, c0));
            return;
        }
        i = k;
    }
    assert(last_assistant(ms, title@) == -1);
    if !content.as_str().is_empty() {
        let mut m = Message::new(MessageKind::Assistant, String::from_str(title), content, None);
        m.render_markdown = true;
        messages.push(m);
        assert(views(messages@) =~= ms.push(m@));
    }
}

/// The marker that starts the heading of a message of the kind.
pub open spec fn marker(kind: MessageKind) -> char {
    match kind {
        MessageKind::User => '>',
        MessageKind::Assistant => '*',
        MessageKind::Tool => '$',
        MessageKind::Workflow => '+',
        MessageKind::Error => '!',
        _ => '-',
    }
}

fn kind_marker(kind: MessageKind) -> (c: char)
    ensures
        c == marker(kind),
{
    match kind {
        MessageKind::User => '>',
        MessageKind::Assistant => '*',
        MessageKind::Tool => '$',
        MessageKind::Workflow => '+',
        MessageKind::Error => '!',
        _ => '-',
    }
}

/// A colour of the terminal's palette; `Reset` is the terminal's own colour.
#[derive(Debug, Clone, Copy, PartialEq, Eq, Structural)]
pub enum TermColor {
    Cyan,
    Green,
    DarkGray,
    Yellow,
    Blue,
    Red,
    Reset,
}

/// How the heading's letters are set.
#[derive(Debug, Clone, Copy, PartialEq, Eq, Structural)]
pub enum Emphasis {
    Bold,
    Italic,
    Dim,
}

/// The colour of the heading of a message of the kind, before colours are
/// switched off.
pub open spec fn kind_color(kind: MessageKind) -> TermColor {
    match kind {
        MessageKind::User => TermColor::Cyan,
        MessageKind::Assistant => TermColor::Green,
        MessageKind::Reasoning => TermColor::DarkGray,
        MessageKind::Tool => TermColor::Yellow,
        MessageKind::Workflow => TermColor::Green,
        MessageKind::Notice => TermColor::Blue,
        MessageKind::System => TermColor::DarkGray,
        MessageKind::Error => TermColor::Red,
    }
}

/// How the heading of a message of the kind is set.
pub open spec fn kind_emphasis(kind: MessageKind) -> Emphasis {
    match kind {
        MessageKind::Reasoning => Emphasis::Italic,
        MessageKind::System => Emphasis::Dim,
        _ => Emphasis::Bold,
    }
}

/// The style of the heading of a message of the kind: its colour (the
/// terminal's own when colours are off) and its emphasis.
pub fn heading_style(kind: MessageKind, use_color: bool) -> (r: (TermColor, Emphasis))
    ensures
        r.0 == (if use_color { kind_color(kind) } else { TermColor::Reset }),
        r.1 == kind_emphasis(kind),
{
    let (c, e) = match kind {
        MessageKind::User => (TermColor::Cyan, Emphasis::Bold),
        MessageKind::Assistant => (TermColor::Green, Emphasis::Bold),
        MessageKind::Reasoning => (TermColor::DarkGray, Emphasis::Italic),
        MessageKind::Tool => (TermColor::Yellow, Emphasis::Bold),
        MessageKind::Workflow => (TermColor::Green, Emphasis::Bold),
        MessageKind::Notice => (TermColor::Blue, Emphasis::Bold),
        MessageKind::System => (TermColor::DarkGray, Emphasis::Dim),
        MessageKind::Error => (TermColor::Red, Emphasis::Bold),
    };
    if use_color {
        (c, e)
    } else {
        (TermColor::Reset, e)
    }
}

/// The marker, then the title after a space when there is one.
pub open spec fn marked_title(m: MessageView) -> Seq<char> {
    if m.title.len() == 0 {
        seq![marker(m.kind)]
    } else {
        seq![marker(m.kind), ' '] + m.title
    }
}

/// `[-] ` or `[+] ` before a foldable message, as it is unfolded or not.
pub open spec fn disclosure(m: MessageView) -> Seq<char> {
    if collapsible(m) {
        if m.expanded {
            seq!['[', '-', ']', ' ']
        } else {
            seq!['[', '+', ']', ' ']
        }
    } else {
        Seq::empty()
    }
}

/// The text shown after the heading of a message that is still streaming.
pub open spec fn output_status() -> Seq<char> {
    seq![' ', 'O', 'u', 't', 'p', 'u', 't', 't', 'i', 'n', 'g', '.', '.', '.']
}

/// The heading line of a message.
pub open spec fn heading(m: MessageView, include_output_status: bool) -> Seq<char> {
    disclosure(m) + marked_title(m) + if include_output_status && m.stream_id is Some {
        output_status()
    } else {
        Seq::empty()
    }
}

fn marked_title_chars(m: &Message) -> (r: Vec<char>)
    ensures
        r@ == marked_title(m@),
{
    let mut r: Vec<char> = Vec::new();
    r.push(kind_marker(m.kind));
    if !m.title.as_str().is_empty() {
        r.push(' ');
        extend_str(&mut r, m.title.as_str());
    }
    assert(r@ =~= marked_title(m@));
    r
}

/// The heading line of a message, with the streaming status when asked.
pub fn message_heading(message: &Message, include_output_status: bool) -> (r: String)
    ensures
        r@ == heading(message@, include_output_status),
{
    let mut r: Vec<char> = Vec::new();
    if message.is_collapsible() {
        r.push('[');
        r.push(if message.expanded {
            '-'
        } else {
            '+'
        });
        r.push(']');
        r.push(' ');
    }
    assert(r@ =~= disclosure(message@));
    let t = marked_title_chars(message);
    extend_chars(&mut r, t.as_slice());
    if include_output_status && message.stream_id.is_some() {
        let status = [' ', 'O', 'u', 't', 'p', 'u', 't', 't', 'i', 'n', 'g', '.', '.', '.'];
        extend_chars(&mut r, &status);
        assert(status@ =~= output_status());
        assert(r@ =~= heading(message@, include_output_status));
    } else {
        assert(r@ =~= heading(message@, include_output_status));
    }
    chars_string(r.as_slice())
}

/// A line of content as printed: indented by one space.
pub open spec fn indented(line: Seq<char>) -> Seq<char> {
    seq![' '] + line
}

/// A message as plain text: its heading, then each line of its content
/// indented by one space.
pub open spec fn plain_message(m: MessageView) -> Seq<char> {
    if m.content.len() == 0 {
        marked_title(m)
    } else {
        marked_title(m) + seq!['\n'] + join(lines(m.content).map_values(|l: Seq<char>| indented(l)), seq!['\n'])
    }
}

/// The whole transcript as plain text, messages separated by an empty line.
pub open spec fn plain(ms: Seq<MessageView>) -> Seq<char> {
    join(ms.map_values(|m: MessageView| plain_message(m)), seq!['\n', '\n'])
}

fn plain_message_chars(m: &Message) -> (r: Vec<char>)
    ensures
        r@ == plain_message(m@),
{
    let mut r = marked_title_chars(m);
    if m.content.as_str().is_empty() {
        return r;
    }
    r.push('\n');
    let content = str_chars(m.content.as_str());
    let ls = split_lines(content.as_slice());
    let mut rows: Vec<Vec<char>> = Vec::new();
    let mut i: usize = 0;
    while i < ls.len()
        invariant
            i <= ls@.len(),
            char_rows(ls@) == lines(m.content@),
            char_rows(rows@) == lines(m.content@).take(i as int).map_values(|l: Seq<char>| indented(l)),
        decreases ls@.len() - i,
    {
        let mut row: Vec<char> = Vec::new();
        row.push(' ');
        extend_chars(&mut row, ls[i].as_slice());
        assert(row@ =~= indented(lines(m.content@)[i as int]));
        let ghost before = char_rows(rows@);
        rows.push(row);
        assert(char_rows(rows@) =~= before.push(row@));
        assert(lines(m.content@).take(i + 1).map_values(|l: Seq<char>| indented(l)) =~= lines(
            m.content@,
        ).take(i as int).map_values(|l: Seq<char>| indented(l)).push(indented(lines(m.content@)[i as int])));
        i = i + 1;
    }
    assert(lines(m.content@).take(ls@.len() as int) =~= lines(m.content@));
    let body = join_rows(&rows, &['\n']);
    assert(seq!['\n'] =~= ['\n']@);
    let ghost head = r@;
    extend_chars(&mut r, body.as_slice());
    assert(r@ =~= plain_message(m@));
    r
}

/// The transcript as plain text, printed when the client closes.
pub fn plain_transcript(messages: &Vec<Message>) -> (r: String)
    ensures
        r@ == plain(views(messages@)),
{
    let mut parts: Vec<Vec<char>> = Vec::new();
    let mut i: usize = 0;
    while i < messages.len()
        invariant
            i <= messages@.len(),
            char_rows(parts@) == views(messages@).take(i as int).map_values(|m: MessageView| plain_message(m)),
        decreases messages@.len() - i,
    {
        let part = plain_message_chars(&messages[i]);
        let ghost before = char_rows(parts@);
        parts.push(part);
        assert(char_rows(parts@) =~= before.push(part@));
        assert(views(messages@).take(i + 1).map_values(|m: MessageView| plain_message(m)) =~= views(
            messages@,
        ).take(i as int).map_values(|m: MessageView| plain_message(m)).push(plain_message(messages@[i as int]@)));
        i = i + 1;
    }
    assert(views(messages@).take(messages@.len() as int) =~= views(messages@));
    let text = join_rows(&parts, &['\n', '\n']);
    assert(['\n', '\n']@ =~= seq!['\n', '\n']);
    chars_string(text.as_slice())
}

/// Output of a nested agent held back until its run finishes.
#[derive(Debug)]
pub struct BufferedMessage {
    pub kind: MessageKind,
    pub title: String,
    pub content: String,
}

/// A held-back message with its texts taken by their characters.
pub struct BufferedView {
    pub kind: MessageKind,
    pub title: Seq<char>,
    pub content: Seq<char>,
}

impl View for BufferedMessage {
    type V = BufferedView;

    open spec fn view(&self) -> BufferedView {
        BufferedView { kind: self.kind, title: self.title@, content: self.content@ }
    }
}

/// The views of a list of held-back messages.
pub open spec fn buffered_views(ms: Seq<BufferedMessage>) -> Seq<BufferedView> {
    ms.map_values(|m: BufferedMessage| m@)
}

/// The held-back messages of a run after one more chunk: a chunk of the same
/// kind as the last message extends it, any other starts a new message.
pub open spec fn buffered(ms: Seq<BufferedView>, kind: MessageKind, title: Seq<char>, content: Seq<char>) -> Seq<BufferedView> {
    if ms.len() > 0 && ms.last().kind == kind {
        ms.update(ms.len() - 1, BufferedView { content: ms.last().content + content, ..ms.last() })
    } else {
        ms.push(BufferedView { kind, title, content })
    }
}

struct ChildRun {
    run_id: String,
    messages: Vec<BufferedMessage>,
}

/// Held-back output of nested agents, by run.
pub struct ChildStreams {
    runs: Vec<ChildRun>,
}

spec fn has_run(runs: Seq<ChildRun>, id: Seq<char>) -> bool {
    exists|i: int| 0 <= i < runs.len() && (#[trigger] runs[i]).run_id@ == id
}

spec fn run_at(runs: Seq<ChildRun>, id: Seq<char>) -> int {
    choose|i: int| 0 <= i < runs.len() && (#[trigger] runs[i]).run_id@ == id
}

spec fn unique_runs(runs: Seq<ChildRun>) -> bool {
    forall|i: int, j: int|
        0 <= i < runs.len() && 0 <= j < runs.len() && i != j ==> (#[trigger] runs[i]).run_id@
            != (#[trigger] runs[j]).run_id@
}

spec fn runs_map(runs: Seq<ChildRun>) -> Map<Seq<char>, Seq<BufferedView>> {
    Map::new(|id: Seq<char>| has_run(runs, id), |id: Seq<char>| buffered_views(runs[run_at(runs, id)].messages@))
}

proof fn lemma_run_at(runs: Seq<ChildRun>, i: int)
    requires
        unique_runs(runs),
        0 <= i < runs.len(),
    ensures
        has_run(runs, runs[i].run_id@),
        run_at(runs, runs[i].run_id@) == i,
{
    assert(has_run(runs, runs[i].run_id@));
}

impl View for ChildStreams {
    type V = Map<Seq<char>, Seq<BufferedView>>;

    closed spec fn view(&self) -> Map<Seq<char>, Seq<BufferedView>> {
        runs_map(self.runs@)
    }
}

/// What a run holds back (nothing when it has no entry).
pub open spec fn held(m: Map<Seq<char>, Seq<BufferedView>>, id: Seq<char>) -> Seq<BufferedView> {
    if m.contains_key(id) {
        m[id]
    } else {
        Seq::empty()
    }
}

impl ChildStreams {
    #[verifier::type_invariant]
    spec fn inv(self) -> bool {
        unique_runs(self.runs@)
    }

    /// No run holds anything back.
    pub fn new() -> (r: ChildStreams)
        ensures
            r@ == Map::<Seq<char>, Seq<BufferedView>>::empty(),
    {
        let r = ChildStreams { runs: Vec::new() };
        assert(r@ =~= Map::<Seq<char>, Seq<BufferedView>>::empty());
        r
    }

    /// Index of the run's entry, if it has one.
    fn find(&self, run_id: &String) -> (r: Option<usize>)
        ensures
            match r {
                Some(i) => i < self.runs@.len() && self.runs@[i as int].run_id@ == run_id@,
                None => !has_run(self.runs@, run_id@),
            },
    {
        let mut i: usize = 0;
        while i < self.runs.len()
            invariant
                i <= self.runs@.len(),
                forall|j: int| 0 <= j < i ==> (#[trigger] self.runs@[j]).run_id@ != run_id@,
            decreases self.runs@.len() - i,
        {
            if self.runs[i].run_id == *run_id {
                return Some(i);
            }
            i = i + 1;
        }
        None
    }

    /// Holds back one more chunk of a run's output.
    pub fn buffer(&mut self, run_id: String, kind: MessageKind, title: String, content: String)
        ensures
            final(self)@ == old(self)@.insert(
                run_id@,
                buffered(held(old(self)@, run_id@), kind, title@, content@),
            ),
    {
        proof {
            use_type_invariant(&*self);
        }
        let ghost old_runs = self.runs@;
        let ghost key = run_id@;
        let ghost new_held = buffered(held(old(self)@, run_id@), kind, title@, content@);
        match self.find(&run_id) {
            Some(i) => {
                proof {
                    lemma_run_at(old_runs, i as int);
                }
                let mut runs: Vec<ChildRun> = Vec::new();
                std::mem::swap(&mut runs, &mut self.runs);
                let mut run = runs.remove(i);
                let n = run.messages.len();
                let ghost before = buffered_views(run.messages@);
                if n > 0 && run.messages[n - 1].kind == kind {
                    let mut last = run.messages.pop().unwrap();
                    last.content.append(content.as_str());
                    run.messages.push(last);
                } else {
                    run.messages.push(BufferedMessage { kind, title, content });
                }
                assert(buffered_views(run.messages@) =~= new_held);
                runs.insert(i, run);
                assert(runs@ =~= old_runs.update(i as int, runs@[i as int]));
                self.runs = runs;
                proof {
                    assert forall|id: Seq<char>| has_run(self.runs@, id) == has_run(old_runs, id) by {
                        if has_run(old_runs, id) {
                            let j = run_at(old_runs, id);
                            assert(self.runs@[j].run_id@ == id);
                        }
                        if has_run(self.runs@, id) {
                            let j = run_at(self.runs@, id);
                            assert(old_runs[j].run_id@ == id);
                        }
                    }
                    assert forall|a: int, b: int|
                        0 <= a < self.runs@.len() && 0 <= b < self.runs@.len() && a != b implies (
                        #[trigger] self.runs@[a]).run_id@ != (#[trigger] self.runs@[b]).run_id@ by {
                        assert(self.runs@[a].run_id@ == old_runs[a].run_id@);
                        assert(self.runs@[b].run_id@ == old_runs[b].run_id@);
                    }
                    assert forall|id: Seq<char>| #[trigger] has_run(self.runs@, id) implies run_at(self.runs@, id) == run_at(old_runs, id) by {
                        let j = run_at(old_runs, id);
                        lemma_run_at(self.runs@, j);
                        assert(self.runs@[j].run_id@ == id);
                    }
                    assert(self@ =~= old(self)@.insert(key, new_held));
                }
            },
            None => {
                let mut msgs: Vec<BufferedMessage> = Vec::new();
                msgs.push(BufferedMessage { kind, title, content });
                assert(buffered_views(msgs@) =~= new_held);
                let mut runs: Vec<ChildRun> = Vec::new();
                std::mem::swap(&mut runs, &mut self.runs);
                runs.push(ChildRun { run_id, messages: msgs });
                self.runs = runs;
                proof {
                    let n = old_runs.len() as int;
                    lemma_run_at(self.runs@, n);
                    assert forall|id: Seq<char>| id != key implies has_run(self.runs@, id) == has_run(old_runs, id) by {
                        if has_run(old_runs, id) {
                            let j = run_at(old_runs, id);
                            assert(self.runs@[j].run_id@ == id);
                        }
                        if has_run(self.runs@, id) {
                            let j = run_at(self.runs@, id);
                            assert(old_runs[j].run_id@ == id);
                        }
                    }
                    assert forall|id: Seq<char>| id != key && #[trigger] has_run(self.runs@, id) implies run_at(self.runs@, id) == run_at(old_runs, id) by {
                        let j = run_at(old_runs, id);
                        lemma_run_at(self.runs@, j);
                    }
                    assert(self@ =~= old(self)@.insert(key, new_held));
                }
            },
        }
    }

    /// Removes a run's entry and hands out what it held back.
    pub fn take(&mut self, run_id: &str) -> (r: Vec<BufferedMessage>)
        ensures
            final(self)@ == old(self)@.remove(run_id@),
            buffered_views(r@) == held(old(self)@, run_id@),
    {
        proof {
            use_type_invariant(&*self);
        }
        let ghost old_runs = self.runs@;
        let ghost key = run_id@;
        let wanted = String::from_str(run_id);
        match self.find(&wanted) {
            Some(i) => {
                proof {
                    lemma_run_at(old_runs, i as int);
                }
                let mut runs: Vec<ChildRun> = Vec::new();
                std::mem::swap(&mut runs, &mut self.runs);
                let run = runs.remove(i);
                self.runs = runs;
                proof {
                    assert forall|a: int, b: int|
                        0 <= a < self.runs@.len() && 0 <= b < self.runs@.len() && a != b implies (
                        #[trigger] self.runs@[a]).run_id@ != (#[trigger] self.runs@[b]).run_id@ by {
                        let a0 = if a < i { a } else { a + 1 };
                        let b0 = if b < i { b } else { b + 1 };
                        assert(self.runs@[a] == old_runs[a0]);
                        assert(self.runs@[b] == old_runs[b0]);
                    }
                    assert forall|id: Seq<char>| id != key implies has_run(self.runs@, id) == has_run(old_runs, id) by {
                        if has_run(old_runs, id) {
                            let j = run_at(old_runs, id);
                            let j2 = if j < i { j } else { j - 1 };
                            assert(self.runs@[j2] == old_runs[j]);
                        }
                        if has_run(self.runs@, id) {
                            let j = run_at(self.runs@, id);
                            let j0 = if j < i { j } else { j + 1 };
                            assert(self.runs@[j] == old_runs[j0]);
                        }
                    }
                    if has_run(self.runs@, key) {
                        let j = run_at(self.runs@, key);
                        let j0 = if j < i { j } else { j + 1 };
                        assert(self.runs@[j] == old_runs[j0]);
                    }
                    assert forall|id: Seq<char>| id != key && #[trigger] has_run(self.runs@, id) implies self.runs@[run_at(self.runs@, id)] == old_runs[run_at(old_runs, id)] by {
                        let j = run_at(self.runs@, id);
                        let j0 = if j < i { j } else { j + 1 };
                        assert(self.runs@[j] == old_runs[j0]);
                        lemma_run_at(old_runs, j0);
                    }
                    assert(self@ =~= old(self)@.remove(key));
                }
                run.messages
            },
            None => {
                assert(old(self)@.remove(key) =~= old(self)@);
                let r: Vec<BufferedMessage> = Vec::new();
                assert(buffered_views(r@) =~= Seq::<BufferedView>::empty());
                r
            },
        }
    }

    /// Drops everything held back.
    pub fn clear(&mut self)
        ensures
            final(self)@ == Map::<Seq<char>, Seq<BufferedView>>::empty(),
    {
        self.runs = Vec::new();
        assert(self@ =~= Map::<Seq<char>, Seq<BufferedView>>::empty());
    }

    /// Whether the run has an entry.
    pub fn contains_run(&self, run_id: &str) -> (b: bool)
        ensures
            b == self@.contains_key(run_id@),
    {
        let wanted = String::from_str(run_id);
        self.find(&wanted).is_some()
    }
}

/// The messages a run's held-back output becomes, in order; the model's words
/// are left out when its final answer replaces them.
pub open spec fn released(bs: Seq<BufferedView>, skip_assistant: bool) -> Seq<MessageView>
    decreases bs.len(),
{
    if bs.len() == 0 {
        Seq::empty()
    } else {
        let rest = released(bs.drop_last(), skip_assistant);
        let b = bs.last();
        if skip_assistant && b.kind == MessageKind::Assistant {
            rest
        } else {
            rest.push(
                MessageView {
                    render_markdown: b.kind == MessageKind::Assistant,
                    ..new_message(b.kind, b.title, b.content, None)
                },
            )
        }
    }
}

/// The message of a nested agent's final answer, when it is not empty.
pub open spec fn completion(c: Option<(Seq<char>, Seq<char>)>) -> Seq<MessageView> {
    match c {
        Some((title, content)) => if content.len() > 0 {
            seq![MessageView { render_markdown: true, ..new_message(MessageKind::Assistant, title, content, None) }]
        } else {
            Seq::empty()
        },
        None => Seq::empty(),
    }
}

/// The characters of an optional pair of strings.
pub open spec fn opt_pair(c: Option<(String, String)>) -> Option<(Seq<char>, Seq<char>)> {
    match c {
        Some((a, b)) => Some((a@, b@)),
        None => None,
    }
}

/// Moves a finished run's held-back output into the transcript, followed by
/// its final answer when one is given.
pub fn flush_child_stream_messages(
    child_streams: &mut ChildStreams,
    messages: &mut Vec<Message>,
    run_id: &str,
    completed_assistant: Option<(String, String)>,
)
    ensures
        final(child_streams)@ == old(child_streams)@.remove(run_id@),
        views(final(messages)@) == views(old(messages)@) + released(
            held(old(child_streams)@, run_id@),
            completed_assistant is Some,
        ) + completion(opt_pair(completed_assistant)),
{
    let buffered = child_streams.take(run_id);
    let ghost bs = buffered_views(buffered@);
    let skip = completed_assistant.is_some();
    let ghost start = views(messages@);
    let mut i: usize = 0;
    while i < buffered.len()
        invariant
            i <= buffered@.len(),
            bs == buffered_views(buffered@),
            skip == completed_assistant is Some,
            views(messages@) == start + released(bs.take(i as int), skip),
        decreases buffered@.len() - i,
    {
        let b = &buffered[i];
        assert(bs.take(i + 1).drop_last() =~= bs.take(i as int));
        assert(bs.take(i + 1).last() == b@);
        if !(skip && b.kind == MessageKind::Assistant) {
            let mut m = Message::new(b.kind, b.title.clone(), b.content.clone(), None);
            m.render_markdown = b.kind == MessageKind::Assistant;
            let ghost before = views(messages@);
            messages.push(m);
            assert(views(messages@) =~= before.push(m@));
        }
        i = i + 1;
    }
    assert(bs.take(buffered@.len() as int) =~= bs);
    let ghost mid = views(messages@);
    match completed_assistant {
        Some((title, content)) => {
            if !content.as_str().is_empty() {
                let mut m = Message::new(MessageKind::Assistant, title, content, None);
                m.render_markdown = true;
                messages.push(m);
                assert(views(messages@) =~= mid + seq![m@]);
            } else {
                assert(mid + Seq::<MessageView>::empty() =~= mid);
            }
        },
        None => {
            assert(mid + Seq::<MessageView>::empty() =~= mid);
        },
    }
}

} // verus!

verus! {

/// The largest line number a terminal row can hold.
pub open spec fn line_cap() -> int {
    65535
}

/// A line number, saturated at the largest a terminal row can hold.
pub open spec fn capped(n: int) -> int {
    if n > line_cap() {
        line_cap()
    } else {
        n
    }
}

/// The line (counted without saturation) at which message `i`'s heading
/// starts: one blank line between messages, and before it the headings and
/// contents of the earlier messages.
pub open spec fn heading_start(heading_lines: Seq<u16>, content_lines: Seq<u16>, i: int) -> int
    decreases i,
{
    if i <= 0 {
        0
    } else {
        heading_start(heading_lines, content_lines, i - 1) + heading_lines[i - 1] + content_lines[i - 1] + 1
    }
}

/// The lines of the whole transcript (without saturation).
pub open spec fn transcript_lines(heading_lines: Seq<u16>, content_lines: Seq<u16>) -> int {
    let n = heading_lines.len() as int;
    if n == 0 {
        0
    } else {
        heading_start(heading_lines, content_lines, n - 1) + heading_lines[n - 1] + content_lines[n - 1]
    }
}

/// Whether message `i`'s heading covers transcript line `line`.
pub open spec fn heading_covers(heading_lines: Seq<u16>, content_lines: Seq<u16>, i: int, line: int) -> bool {
    capped(heading_start(heading_lines, content_lines, i)) <= line < capped(
        heading_start(heading_lines, content_lines, i) + heading_lines[i],
    )
}

/// The transcript line a click at `row` lands on: the view shows the last
/// `height` lines, scrolled back by `scroll_from_bottom` (at most to the top).
pub open spec fn clicked_line(total: int, area_y: int, area_height: int, scroll_from_bottom: int, row: int) -> int {
    let max_scroll = if total > area_height {
        total - area_height
    } else {
        0
    };
    let back = if scroll_from_bottom < max_scroll {
        scroll_from_bottom
    } else {
        max_scroll
    };
    capped((max_scroll - back) + (row - area_y))
}

/// Whether a click at (`column`, `row`) falls inside the transcript's
/// borders.
pub open spec fn inside_transcript(area_x: int, area_y: int, area_width: int, area_height: int, column: int, row: int) -> bool {
    let bottom = capped(area_y + area_height);
    let right = capped(area_x + area_width);
    let inner_right = if right >= 1 {
        right - 1
    } else {
        0
    };
    area_y <= row < bottom && area_x < column < inner_right
}

/// The message whose heading a click hits, given how many wrapped lines
/// each message's heading and (shown) content take: none when the click is
/// outside the transcript or on no heading; otherwise the first message
/// whose heading covers the clicked line.
pub fn message_at_position(
    heading_lines: &Vec<u16>,
    content_lines: &Vec<u16>,
    area_x: u16,
    area_y: u16,
    area_width: u16,
    area_height: u16,
    scroll_from_bottom: u16,
    column: u16,
    row: u16,
) -> (r: Option<usize>)
    requires
        heading_lines@.len() == content_lines@.len(),
    ensures
        ({
            let h = heading_lines@;
            let c = content_lines@;
            let line = clicked_line(capped(transcript_lines(h, c)), area_y as int, area_height as int, scroll_from_bottom as int, row as int);
            match r {
                Some(i) => inside_transcript(area_x as int, area_y as int, area_width as int, area_height as int, column as int, row as int)
                    && i < h.len() && heading_covers(h, c, i as int, line)
                    && forall|j: int| 0 <= j < i ==> !heading_covers(h, c, j, line),
                None => !inside_transcript(area_x as int, area_y as int, area_width as int, area_height as int, column as int, row as int)
                    || forall|j: int| 0 <= j < h.len() ==> !heading_covers(h, c, j, line),
            }
        }),
{
    let bottom = area_y.saturating_add(area_height);
    let right = area_x.saturating_add(area_width);
    if row < area_y || row >= bottom || column <= area_x || column >= right.saturating_sub(1) {
        return None;
    }
    let ghost h = heading_lines@;
    let ghost c = content_lines@;
    let n = heading_lines.len();
    let mut starts: Vec<u16> = Vec::new();
    let mut ends: Vec<u16> = Vec::new();
    let mut total: u16 = 0;
    let mut i: usize = 0;
    while i < n
        invariant
            n == h.len(),
            h.len() == c.len(),
            h == heading_lines@,
            c == content_lines@,
            i <= n,
            starts@.len() == i,
            ends@.len() == i,
            i == 0 ==> total == 0,
            i > 0 ==> total == capped(heading_start(h, c, i - 1) + h[i - 1] + c[i - 1]),
            forall|j: int| 0 <= j < i ==> #[trigger] starts@[j] == capped(heading_start(h, c, j)),
            forall|j: int| 0 <= j < i ==> #[trigger] ends@[j] == capped(heading_start(h, c, j) + h[j]),
        decreases n - i,
    {
        if i > 0 {
            total = total.saturating_add(1);
        }
        assert(total == capped(heading_start(h, c, i as int)));
        starts.push(total);
        total = total.saturating_add(heading_lines[i]);
        ends.push(total);
        total = total.saturating_add(content_lines[i]);
        i = i + 1;
    }
    assert(total == capped(transcript_lines(h, c)));
    let max_scroll = total.saturating_sub(area_height);
    let back = if scroll_from_bottom < max_scroll {
        scroll_from_bottom
    } else {
        max_scroll
    };
    let clicked = (max_scroll - back).saturating_add(row - area_y);
    let ghost line = clicked_line(capped(transcript_lines(h, c)), area_y as int, area_height as int, scroll_from_bottom as int, row as int);
    assert(clicked == line);
    assert(inside_transcript(area_x as int, area_y as int, area_width as int, area_height as int, column as int, row as int));
    let mut k: usize = 0;
    while k < n
        invariant
            n == h.len(),
            starts@.len() == n,
            ends@.len() == n,
            k <= n,
            h == heading_lines@,
            c == content_lines@,
            line == clicked_line(capped(transcript_lines(h, c)), area_y as int, area_height as int, scroll_from_bottom as int, row as int),
            clicked == line,
            inside_transcript(area_x as int, area_y as int, area_width as int, area_height as int, column as int, row as int),
            forall|j: int| 0 <= j < n ==> #[trigger] starts@[j] == capped(heading_start(h, c, j)),
            forall|j: int| 0 <= j < n ==> #[trigger] ends@[j] == capped(heading_start(h, c, j) + h[j]),
            forall|j: int| 0 <= j < k ==> !heading_covers(h, c, j, line),
        decreases n - k,
    {
        if starts[k] <= clicked && clicked < ends[k] {
            assert(heading_covers(h, c, k as int, line));
            return Some(k);
        }
        k = k + 1;
    }
    None
}

} // verus!
