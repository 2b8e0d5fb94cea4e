//! Records of a chat kept in memory: what each record is, its title and
//! content as shown to the user, which records are remembered, and how the
//! chunks of a streamed model response merge into records.
use crate::text::{chars_string, extend_str, str_chars};
use vstd::prelude::*;
use vstd::string::StringExecFns;

verus! {

/// A tool call requested by the model.
#[derive(Debug, Clone, PartialEq, Eq)]
pub struct ToolCall {
    pub index: u32,
    pub tool_call_id: String,
    pub tool_name: String,
    pub arguments: String,
}

/// The output of a tool call.
#[derive(Debug, Clone, PartialEq, Eq)]
pub struct ToolOut {
    pub tool_call_id: String,
    pub tool_name: String,
    pub output: String,
}

impl ToolOut {
    /// The output of a call that has produced nothing yet.
    pub fn new(tool_call_id: String, tool_name: String) -> (r: ToolOut)
        ensures
            r.tool_call_id@ == tool_call_id@,
            r.tool_name@ == tool_name@,
            r.output@ == Seq::<char>::empty(),
    {
        ToolOut { tool_call_id, tool_name, output: String::new() }
    }

    /// Sets the output.
    pub fn set_output(&mut self, output: String)
        ensures
            final(self).output@ == output@,
            final(self).tool_call_id@ == old(self).tool_call_id@,
            final(self).tool_name@ == old(self).tool_name@,
    {
        self.output = output;
    }
}

/// The content of a user message.
#[derive(Debug, Clone, PartialEq, Eq)]
pub enum UserContent {
    Text(String),
    /// Content made of parts (such as images), each as its JSON text.
    Parts(Vec<String>),
}

/// What a record holds.
#[derive(Debug, Clone, PartialEq, Eq)]
pub enum RecordItem {
    Wait,
    UserInput(UserContent),
    ModelThought(String),
    ModelOutput(String),
    ToolCall(ToolCall),
    ToolOutput(ToolOut),
    Custom(String, String),
}

/// A record of a chat.
#[derive(Debug, Clone, PartialEq, Eq)]
pub struct Record {
    pub id: String,
    pub item: RecordItem,
}

/// A record's item with its texts taken by their characters.
pub enum ItemView {
    Wait,
    UserText(Seq<char>),
    UserParts(Seq<Seq<char>>),
    Thought(Seq<char>),
    Output(Seq<char>),
    Call { index: u32, id: Seq<char>, name: Seq<char>, args: Seq<char> },
    Out { id: Seq<char>, name: Seq<char>, output: Seq<char> },
    Custom(Seq<char>, Seq<char>),
}

/// A record with its texts taken by their characters.
pub struct RecordView {
    pub id: Seq<char>,
    pub item: ItemView,
}

/// Texts by their characters.
pub open spec fn texts_of(v: Seq<String>) -> Seq<Seq<char>> {
    v.map_values(|s: String| s@)
}

/// A copy of a list of texts.
pub fn copy_texts(v: &Vec<String>) -> (r: Vec<String>)
    ensures
        texts_of(r@) == texts_of(v@),
{
    let mut r: Vec<String> = Vec::new();
    let mut i: usize = 0;
    while i < v.len()
        invariant
            i <= v@.len(),
            texts_of(r@) == texts_of(v@).take(i as int),
        decreases v@.len() - i,
    {
        let s = v[i].clone();
        let ghost before = r@;
        r.push(s);
        assert(texts_of(r@) =~= texts_of(before).push(s@));
        assert(texts_of(v@).take(i + 1) =~= texts_of(v@).take(i as int).push(v@[i as int]@));
        i = i + 1;
    }
    assert(texts_of(v@).take(v@.len() as int) =~= texts_of(v@));
    r
}

/// The view of an item.
pub open spec fn item_view(i: RecordItem) -> ItemView {
    match i {
        RecordItem::Wait => ItemView::Wait,
        RecordItem::UserInput(UserContent::Text(t)) => ItemView::UserText(t@),
        RecordItem::UserInput(UserContent::Parts(p)) => ItemView::UserParts(texts_of(p@)),
        RecordItem::ModelThought(t) => ItemView::Thought(t@),
        RecordItem::ModelOutput(t) => ItemView::Output(t@),
        RecordItem::ToolCall(c) => ItemView::Call {
            index: c.index,
            id: c.tool_call_id@,
            name: c.tool_name@,
            args: c.arguments@,
        },
        RecordItem::ToolOutput(o) => ItemView::Out { id: o.tool_call_id@, name: o.tool_name@, output: o.output@ },
        RecordItem::Custom(a, b) => ItemView::Custom(a@, b@),
    }
}

impl View for Record {
    type V = RecordView;

    open spec fn view(&self) -> RecordView {
        RecordView { id: self.id@, item: item_view(self.item) }
    }
}

/// The views of a list of records.
pub open spec fn record_views(v: Seq<Record>) -> Seq<RecordView> {
    v.map_values(|r: Record| r@)
}

/// The title a record is shown under.
pub open spec fn record_title(i: ItemView) -> Seq<char> {
    match i {
        ItemView::Wait => "Waiting"@,
        ItemView::UserText(_) => "User"@,
        ItemView::UserParts(_) => "User"@,
        ItemView::Thought(_) => "Thinking"@,
        ItemView::Output(_) => "Outputting"@,
        ItemView::Call { name, .. } => "CallTool("@ + name + ")"@,
        ItemView::Out { name, .. } => "ToolOut("@ + name + ")"@,
        ItemView::Custom(title, _) => title,
    }
}

/// The text a record shows.
pub open spec fn record_content(i: ItemView) -> Seq<char> {
    match i {
        ItemView::UserText(t) => t,
        ItemView::Thought(t) => t,
        ItemView::Output(t) => t,
        ItemView::Call { args, .. } => args,
        ItemView::Out { output, .. } => output,
        ItemView::Custom(_, c) => c,
        _ => Seq::empty(),
    }
}

/// Records kept in long-term memory: the user's input and the model's answers.
pub open spec fn remembered(i: ItemView) -> bool {
    i is UserText || i is UserParts || i is Output
}

impl Record {
    /// A record of what the user typed.
    pub fn from_user_input(query: String) -> (r: Record)
        ensures
            r@ == (RecordView { id: Seq::empty(), item: ItemView::UserText(query@) }),
    {
        Record::from_item(RecordItem::UserInput(UserContent::Text(query)))
    }

    /// A record of an item, with no id.
    pub fn from_item(item: RecordItem) -> (r: Record)
        ensures
            r@ == (RecordView { id: Seq::empty(), item: item_view(item) }),
    {
        Record { id: String::new(), item }
    }

    /// The record that waits for output.
    pub fn waiting() -> (r: Record)
        ensures
            r@ == (RecordView { id: Seq::empty(), item: ItemView::Wait }),
    {
        Record { id: String::new(), item: RecordItem::Wait }
    }

    /// The record under a fresh random id.
    pub fn reset_id_uuid_v4(self) -> (r: Record)
        ensures
            r.item == self.item,
            crate::memory::uuid_v4_text(r.id@),
    {
        Record { id: crate::memory::new_uuid(), item: self.item }
    }

    /// A copy of the record.
    pub fn copy(&self) -> (r: Record)
        ensures
            r@ == self@,
    {
        let item = match &self.item {
            RecordItem::Wait => RecordItem::Wait,
            RecordItem::UserInput(UserContent::Text(t)) => RecordItem::UserInput(UserContent::Text(t.clone())),
            RecordItem::UserInput(UserContent::Parts(p)) => RecordItem::UserInput(UserContent::Parts(copy_texts(p))),
            RecordItem::ModelThought(t) => RecordItem::ModelThought(t.clone()),
            RecordItem::ModelOutput(t) => RecordItem::ModelOutput(t.clone()),
            RecordItem::ToolCall(c) => RecordItem::ToolCall(ToolCall {
                index: c.index,
                tool_call_id: c.tool_call_id.clone(),
                tool_name: c.tool_name.clone(),
                arguments: c.arguments.clone(),
            }),
            RecordItem::ToolOutput(o) => RecordItem::ToolOutput(ToolOut {
                tool_call_id: o.tool_call_id.clone(),
                tool_name: o.tool_name.clone(),
                output: o.output.clone(),
            }),
            RecordItem::Custom(a, b) => RecordItem::Custom(a.clone(), b.clone()),
        };
        Record { id: self.id.clone(), item }
    }

    /// Whether the record waits for output.
    pub fn is_wait(&self) -> (b: bool)
        ensures
            b == self@.item is Wait,
    {
        match self.item {
            RecordItem::Wait => true,
            _ => false,
        }
    }

    /// Whether the record is a tool call.
    pub fn is_tool_call(&self) -> (b: bool)
        ensures
            b == self@.item is Call,
    {
        match self.item {
            RecordItem::ToolCall(_) => true,
            _ => false,
        }
    }

    /// Makes the record the model's output.
    pub fn set_model_output(&mut self, output: String)
        ensures
            final(self)@ == (RecordView { id: old(self)@.id, item: ItemView::Output(output@) }),
    {
        self.item = RecordItem::ModelOutput(output);
    }

    /// Makes the record the model's reasoning.
    pub fn set_model_thought(&mut self, output: String)
        ensures
            final(self)@ == (RecordView { id: old(self)@.id, item: ItemView::Thought(output@) }),
    {
        self.item = RecordItem::ModelThought(output);
    }

    /// The title the record is shown under.
    pub fn title(&self) -> (r: String)
        ensures
            r@ == record_title(self@.item),
    {
        match &self.item {
            RecordItem::Wait => String::from_str("Waiting"),
            RecordItem::UserInput(_) => String::from_str("User"),
            RecordItem::ModelThought(_) => String::from_str("Thinking"),
            RecordItem::ModelOutput(_) => String::from_str("Outputting"),
            RecordItem::ToolCall(tc) => String::from_str("CallTool(").concat(tc.tool_name.as_str()).concat(")"),
            RecordItem::ToolOutput(to) => String::from_str("ToolOut(").concat(to.tool_name.as_str()).concat(")"),
            RecordItem::Custom(title, _) => title.clone(),
        }
    }

    /// The text the record shows.
    pub fn content(&self) -> (r: &str)
        ensures
            r@ == record_content(self@.item),
    {
        match &self.item {
            RecordItem::UserInput(UserContent::Text(t)) => t.as_str(),
            RecordItem::ModelThought(t) => t.as_str(),
            RecordItem::ModelOutput(t) => t.as_str(),
            RecordItem::ToolCall(tc) => tc.arguments.as_str(),
            RecordItem::ToolOutput(to) => to.output.as_str(),
            RecordItem::Custom(_, c) => c.as_str(),
            _ => {
                proof {
                    reveal_strlit("");
                }
                ""
            },
        }
    }

    /// Whether the record is kept in long-term memory.
    pub fn is_remember(&self) -> (b: bool)
        ensures
            b == remembered(self@.item),
    {
        match &self.item {
            RecordItem::UserInput(_) => true,
            RecordItem::ModelOutput(_) => true,
            _ => false,
        }
    }

    /// The tool call the record holds, if it holds one.
    pub fn try_to_tool_call(&self) -> (r: Option<ToolCall>)
        ensures
            self@.item is Call ==> (r matches Some(c) && item_view(RecordItem::ToolCall(c)) == self@.item),
            !(self@.item is Call) ==> r is None,
    {
        match &self.item {
            RecordItem::ToolCall(tc) => Some(ToolCall {
                index: tc.index,
                tool_call_id: tc.tool_call_id.clone(),
                tool_name: tc.tool_name.clone(),
                arguments: tc.arguments.clone(),
            }),
            _ => None,
        }
    }
}

/// The function part of a streamed tool-call chunk.
#[derive(Debug, Clone, PartialEq, Eq)]
pub struct FunctionChunk {
    pub name: Option<String>,
    pub arguments: Option<String>,
}

/// A chunk of a streamed tool call.
#[derive(Debug, Clone, PartialEq, Eq)]
pub struct ToolCallChunk {
    pub index: u32,
    pub id: Option<String>,
    pub function: Option<FunctionChunk>,
}

/// One choice of a streamed model response chunk.
#[derive(Debug, Clone, PartialEq, Eq)]
pub struct StreamChoice {
    pub reasoning_content: Option<String>,
    pub content: Option<String>,
    pub tool_calls: Option<Vec<ToolCallChunk>>,
}

/// A chunk of a streamed model response.
#[derive(Debug, Clone, PartialEq, Eq)]
pub struct StreamChunk {
    pub choices: Vec<StreamChoice>,
}

/// Which record a piece of streamed output belongs to.
pub enum Slot {
    Thought,
    Output,
    Call(u32),
}

/// Whether a record is the one a piece of output belongs to.
pub open spec fn fits(r: RecordView, s: Slot) -> bool {
    match s {
        Slot::Thought => r.item is Thought,
        Slot::Output => r.item is Output,
        Slot::Call(i) => r.item matches ItemView::Call { index, .. } && index == i,
    }
}

/// Index of the first record the output belongs to, or -1.
pub open spec fn first_fit(list: Seq<RecordView>, s: Slot) -> int
    decreases list.len(),
{
    if list.len() == 0 {
        -1
    } else {
        let k = first_fit(list.drop_last(), s);
        if k >= 0 {
            k
        } else if fits(list.last(), s) {
            list.len() - 1
        } else {
            -1
        }
    }
}

pub proof fn lemma_first_fit(list: Seq<RecordView>, s: Slot)
    ensures
        -1 <= first_fit(list, s) < list.len(),
        first_fit(list, s) >= 0 ==> fits(list[first_fit(list, s)], s),
        forall|j: int| 0 <= j < list.len() && (first_fit(list, s) < 0 || j < first_fit(list, s)) ==> !fits(#[trigger] list[j], s),
    decreases list.len(),
{
    if list.len() > 0 {
        lemma_first_fit(list.drop_last(), s);
        assert forall|j: int| 0 <= j < list.len() && (first_fit(list, s) < 0 || j < first_fit(list, s)) implies !fits(#[trigger] list[j], s) by {
            if j < list.len() - 1 {
                assert(list[j] == list.drop_last()[j]);
            }
        }
    }
}

/// The records after streamed reasoning (`thought`) or output text: it
/// extends the first record of its kind, or starts one.
pub open spec fn merged_text(list: Seq<RecordView>, text: Seq<char>, thought: bool) -> Seq<RecordView> {
    let s = if thought {
        Slot::Thought
    } else {
        Slot::Output
    };
    let k = first_fit(list, s);
    if k >= 0 {
        let r = list[k];
        list.update(
            k,
            RecordView {
                item: if thought {
                    ItemView::Thought(record_content(r.item) + text)
                } else {
                    ItemView::Output(record_content(r.item) + text)
                },
                ..r
            },
        )
    } else {
        list.push(
            RecordView {
                id: Seq::empty(),
                item: if thought {
                    ItemView::Thought(text)
                } else {
                    ItemView::Output(text)
                },
            },
        )
    }
}

/// The text of an optional string (empty when absent).
pub open spec fn or_empty(o: Option<String>) -> Seq<char> {
    match o {
        Some(s) => s@,
        None => Seq::empty(),
    }
}

/// The name and argument pieces of a chunk.
pub open spec fn chunk_name(c: ToolCallChunk) -> Seq<char> {
    match c.function {
        Some(f) => or_empty(f.name),
        None => Seq::empty(),
    }
}

pub open spec fn chunk_args(c: ToolCallChunk) -> Seq<char> {
    match c.function {
        Some(f) => or_empty(f.arguments),
        None => Seq::empty(),
    }
}

/// The records after a tool-call chunk: it goes to the first call with its
/// index (a given id replaces the call's id; name and argument pieces are
/// appended), or starts a new call.
pub open spec fn merged_call(list: Seq<RecordView>, c: ToolCallChunk) -> Seq<RecordView> {
    let k = first_fit(list, Slot::Call(c.index));
    if k >= 0 {
        let r = list[k];
        match r.item {
            ItemView::Call { index, id, name, args } => list.update(
                k,
                RecordView {
                    item: ItemView::Call {
                        index,
                        id: match c.id {
                            Some(i) => i@,
                            None => id,
                        },
                        name: name + chunk_name(c),
                        args: args + chunk_args(c),
                    },
                    ..r
                },
            ),
            _ => list,
        }
    } else {
        list.push(
            RecordView {
                id: Seq::empty(),
                item: ItemView::Call { index: c.index, id: or_empty(c.id), name: chunk_name(c), args: chunk_args(c) },
            },
        )
    }
}

/// The records after a list of tool-call chunks, in order.
pub open spec fn merged_calls(list: Seq<RecordView>, cs: Seq<ToolCallChunk>) -> Seq<RecordView>
    decreases cs.len(),
{
    if cs.len() == 0 {
        list
    } else {
        merged_call(merged_calls(list, cs.drop_last()), cs.last())
    }
}

/// Whether an optional text is present and not empty.
pub open spec fn has_text(o: Option<String>) -> bool {
    o matches Some(t) && t@.len() > 0
}

/// The records after one choice: its reasoning, then its output text, then
/// its tool-call chunks.
pub open spec fn merged_choice(list: Seq<RecordView>, ch: StreamChoice) -> Seq<RecordView> {
    let a = if has_text(ch.reasoning_content) {
        merged_text(list, or_empty(ch.reasoning_content), true)
    } else {
        list
    };
    let b = if has_text(ch.content) {
        merged_text(a, or_empty(ch.content), false)
    } else {
        a
    };
    match ch.tool_calls {
        Some(cs) => merged_calls(b, cs@),
        None => b,
    }
}

/// The records after a chunk's choices, in order.
pub open spec fn merged_chunk(list: Seq<RecordView>, chs: Seq<StreamChoice>) -> Seq<RecordView>
    decreases chs.len(),
{
    if chs.len() == 0 {
        list
    } else {
        merged_choice(merged_chunk(list, chs.drop_last()), chs.last())
    }
}

/// The newest text of a chunk: the last non-empty output or reasoning, in
/// the order the choices give them.
pub open spec fn newest_text(chs: Seq<StreamChoice>) -> Option<ItemView>
    decreases chs.len(),
{
    if chs.len() == 0 {
        None
    } else {
        let ch = chs.last();
        if has_text(ch.content) {
            Some(ItemView::Output(or_empty(ch.content)))
        } else if has_text(ch.reasoning_content) {
            Some(ItemView::Thought(or_empty(ch.reasoning_content)))
        } else {
            newest_text(chs.drop_last())
        }
    }
}

proof fn lemma_newest_text(chs: Seq<StreamChoice>)
    ensures
        newest_text(chs) matches Some(item) ==> !(item is Wait),
    decreases chs.len(),
{
    if chs.len() > 0 {
        lemma_newest_text(chs.drop_last());
    }
}

fn find_slot(list: &Vec<Record>, s: Slot) -> (r: Option<usize>)
    ensures
        match r {
            Some(k) => k as int == first_fit(record_views(list@), s),
            None => first_fit(record_views(list@), s) < 0,
        },
{
    proof {
        lemma_first_fit(record_views(list@), s);
    }
    let ghost v = record_views(list@);
    let mut i: usize = 0;
    while i < list.len()
        invariant
            i <= list@.len(),
            v == record_views(list@),
            -1 <= first_fit(v, s) < v.len(),
            first_fit(v, s) >= 0 ==> fits(v[first_fit(v, s)], s),
            forall|j: int| 0 <= j < v.len() && (first_fit(v, s) < 0 || j < first_fit(v, s)) ==> !fits(#[trigger] v[j], s),
            forall|j: int| 0 <= j < i ==> !fits(#[trigger] v[j], s),
        decreases list@.len() - i,
    {
        let hit = match (&list[i].item, &s) {
            (RecordItem::ModelThought(_), Slot::Thought) => true,
            (RecordItem::ModelOutput(_), Slot::Output) => true,
            (RecordItem::ToolCall(tc), Slot::Call(x)) => tc.index == *x,
            _ => false,
        };
        assert(v[i as int] == list@[i as int]@);
        assert(hit == fits(v[i as int], s));
        if hit {
            return Some(i);
        }
        i = i + 1;
    }
    None
}

fn merge_text(list: &mut Vec<Record>, text: &String, thought: bool)
    ensures
        record_views(final(list)@) == merged_text(record_views(old(list)@), text@, thought),
{
    let s = if thought {
        Slot::Thought
    } else {
        Slot::Output
    };
    let ghost v = record_views(list@);
    match find_slot(list, s) {
        Some(k) => {
            proof {
                lemma_first_fit(v, s);
            }
            let ghost before = list@;
            let Record { id, item } = list.remove(k);
            let old_text = match item {
                RecordItem::ModelThought(t) => t,
                RecordItem::ModelOutput(t) => t,
                _ => String::new(),
            };
            let joined = old_text.concat(text.as_str());
            let r = Record {
                id,
                item: if thought {
                    RecordItem::ModelThought(joined)
                } else {
                    RecordItem::ModelOutput(joined)
                },
            };
            let ghost rv = r@;
            list.insert(k, r);
            assert(list@ =~= before.update(k as int, list@[k as int]));
            assert(record_views(list@) =~= v.update(k as int, rv));
        },
        None => {
            let ghost before = record_views(list@);
            let r = Record {
                id: String::new(),
                item: if thought {
                    RecordItem::ModelThought(text.clone())
                } else {
                    RecordItem::ModelOutput(text.clone())
                },
            };
            list.push(r);
            assert(record_views(list@) =~= before.push(r@));
        },
    }
}

fn opt_string(o: &Option<String>) -> (r: String)
    ensures
        r@ == or_empty(*o),
{
    match o {
        Some(s) => s.clone(),
        None => String::new(),
    }
}

fn chunk_parts(c: &ToolCallChunk) -> (r: (String, String))
    ensures
        r.0@ == chunk_name(*c),
        r.1@ == chunk_args(*c),
{
    match &c.function {
        Some(f) => (opt_string(&f.name), opt_string(&f.arguments)),
        None => (String::new(), String::new()),
    }
}

fn merge_call(list: &mut Vec<Record>, c: &ToolCallChunk)
    ensures
        record_views(final(list)@) == merged_call(record_views(old(list)@), *c),
{
    let ghost v = record_views(list@);
    let (name, args) = chunk_parts(c);
    match find_slot(list, Slot::Call(c.index)) {
        Some(k) => {
            proof {
                lemma_first_fit(v, Slot::Call(c.index));
            }
            let ghost before = list@;
            let Record { id, item } = list.remove(k);
            let item2 = match item {
                RecordItem::ToolCall(tc) => RecordItem::ToolCall(ToolCall {
                    index: tc.index,
                    tool_call_id: match &c.id {
                        Some(i) => i.clone(),
                        None => tc.tool_call_id,
                    },
                    tool_name: tc.tool_name.concat(name.as_str()),
                    arguments: tc.arguments.concat(args.as_str()),
                }),
                other => other,
            };
            let r = Record { id, item: item2 };
            let ghost rv = r@;
            list.insert(k, r);
            assert(list@ =~= before.update(k as int, list@[k as int]));
            assert(record_views(list@) =~= v.update(k as int, rv));
        },
        None => {
            let ghost before = record_views(list@);
            let r = Record {
                id: String::new(),
                item: RecordItem::ToolCall(
                    ToolCall { index: c.index, tool_call_id: opt_string(&c.id), tool_name: name, arguments: args },
                ),
            };
            list.push(r);
            assert(record_views(list@) =~= before.push(r@));
        },
    }
}

fn nonempty(o: &Option<String>) -> (b: bool)
    ensures
        b == has_text(*o),
{
    match o {
        Some(t) => !t.as_str().is_empty(),
        None => false,
    }
}

/// Merges a chunk of a streamed model response into the records, and hands
/// out a record of the chunk's newest text, if it has any.
pub fn stream_append(list: &mut Vec<Record>, chunk: StreamChunk) -> (r: Option<Record>)
    ensures
        record_views(final(list)@) == merged_chunk(record_views(old(list)@), chunk.choices@),
        match newest_text(chunk.choices@) {
            Some(item) => r matches Some(x) && x@ == (RecordView { id: Seq::empty(), item }),
            None => r is None,
        },
{
    let ghost start = record_views(list@);
    let choices = &chunk.choices;
    let mut newest: Record = Record::waiting();
    let mut i: usize = 0;
    while i < choices.len()
        invariant
            i <= choices@.len(),
            choices@ == chunk.choices@,
            record_views(list@) == merged_chunk(start, choices@.take(i as int)),
            match newest_text(choices@.take(i as int)) {
                Some(item) => newest@ == (RecordView { id: Seq::empty(), item }),
                None => newest@ == (RecordView { id: Seq::empty(), item: ItemView::Wait }),
            },
        decreases choices@.len() - i,
    {
        let ch = &choices[i];
        proof {
            assert(choices@.take(i + 1).drop_last() =~= choices@.take(i as int));
            assert(choices@.take(i + 1).last() == *ch);
        }
        let ghost l0 = record_views(list@);
        if nonempty(&ch.reasoning_content) {
            let txt = opt_string(&ch.reasoning_content);
            newest.set_model_thought(txt.clone());
            merge_text(list, &txt, true);
        }
        let ghost l1 = record_views(list@);
        if nonempty(&ch.content) {
            let txt = opt_string(&ch.content);
            newest.set_model_output(txt.clone());
            merge_text(list, &txt, false);
        }
        let ghost l2 = record_views(list@);
        match &ch.tool_calls {
            Some(cs) => {
                let mut j: usize = 0;
                while j < cs.len()
                    invariant
                        j <= cs@.len(),
                        record_views(list@) == merged_calls(l2, cs@.take(j as int)),
                    decreases cs@.len() - j,
                {
                    proof {
                        assert(cs@.take(j + 1).drop_last() =~= cs@.take(j as int));
                        assert(cs@.take(j + 1).last() == cs@[j as int]);
                    }
                    merge_call(list, &cs[j]);
                    j = j + 1;
                }
                assert(cs@.take(cs@.len() as int) =~= cs@);
            },
            None => {},
        }
        assert(record_views(list@) == merged_choice(l0, *ch));
        i = i + 1;
    }
    assert(choices@.take(choices@.len() as int) =~= choices@);
    proof {
        lemma_newest_text(choices@);
    }
    if newest.is_wait() {
        None
    } else {
        Some(newest)
    }
}

/// A tool call assembled from streamed chunks.
#[derive(Debug, Clone, PartialEq, Eq)]
pub struct FunctionCall {
    pub id: String,
    pub name: String,
    pub arguments: String,
}

/// The pieces of one streamed tool call gathered so far.
#[derive(Debug)]
pub struct ToolCallAccumulator {
    pub id: String,
    pub name: String,
    pub arguments: String,
}

impl ToolCallAccumulator {
    /// Nothing gathered yet.
    pub fn new() -> (r: ToolCallAccumulator)
        ensures
            r.id@ == Seq::<char>::empty(),
            r.name@ == Seq::<char>::empty(),
            r.arguments@ == Seq::<char>::empty(),
    {
        ToolCallAccumulator { id: String::new(), name: String::new(), arguments: String::new() }
    }

    /// Adds a chunk: each of its pieces is appended to what was gathered.
    pub fn merge(&mut self, chunk: ToolCallChunk)
        ensures
            final(self).id@ == old(self).id@ + or_empty(chunk.id),
            final(self).name@ == old(self).name@ + chunk_name(chunk),
            final(self).arguments@ == old(self).arguments@ + chunk_args(chunk),
    {
        let (name, args) = chunk_parts(&chunk);
        let id = opt_string(&chunk.id);
        self.id.append(id.as_str());
        self.name.append(name.as_str());
        self.arguments.append(args.as_str());
    }

    /// The assembled call; it must have an id and a name.
    pub fn finish(self) -> (r: Result<FunctionCall, String>)
        ensures
            self.id@.len() == 0 ==> (r matches Err(m) && m@ == "streamed tool call is missing id"@),
            self.id@.len() > 0 && self.name@.len() == 0 ==> (r matches Err(m) && m@
                == "streamed tool call is missing name"@),
            self.id@.len() > 0 && self.name@.len() > 0 ==> (r matches Ok(c) && c.id@ == self.id@ && c.name@
                == self.name@ && c.arguments@ == self.arguments@),
    {
        if self.id.as_str().is_empty() {
            return Err(String::from_str("streamed tool call is missing id"));
        }
        if self.name.as_str().is_empty() {
            return Err(String::from_str("streamed tool call is missing name"));
        }
        Ok(FunctionCall { id: self.id, name: self.name, arguments: self.arguments })
    }
}

} // verus!

verus! {

/// One choice of a complete model response: its index, its text if any,
/// and the tools it called.
#[derive(Debug, Clone, PartialEq, Eq)]
pub struct ResponseChoice {
    pub index: u32,
    pub content: Option<String>,
    pub tool_calls: Vec<FunctionCall>,
}

/// A message of a chat, as it comes in.
#[derive(Debug, Clone, PartialEq, Eq)]
pub enum ChatMsg {
    User(UserContent),
    /// A complete model response.
    Response(Vec<ResponseChoice>),
    /// One chunk of a streamed model response.
    Stream(StreamChunk),
    Tool(ToolOut),
    Custom(String, String),
}

/// The record of a choice's text, if it has one.
pub open spec fn choice_text(c: ResponseChoice) -> Seq<RecordView> {
    match c.content {
        Some(t) => seq![RecordView { id: Seq::empty(), item: ItemView::Output(t@) }],
        None => Seq::empty(),
    }
}

/// The records of a choice's tool calls, in order.
pub open spec fn choice_calls(c: ResponseChoice) -> Seq<RecordView> {
    c.tool_calls@.map_values(
        |f: FunctionCall| RecordView {
            id: Seq::empty(),
            item: ItemView::Call { index: c.index, id: f.id@, name: f.name@, args: f.arguments@ },
        },
    )
}

/// The records a complete response becomes: for each choice its text (if
/// any), then its tool calls, in order, all without ids.
pub open spec fn response_records(choices: Seq<ResponseChoice>) -> Seq<RecordView>
    decreases choices.len(),
{
    if choices.len() == 0 {
        Seq::empty()
    } else {
        response_records(choices.drop_last()) + choice_text(choices.last()) + choice_calls(choices.last())
    }
}

fn push_choice(out: &mut Vec<Record>, c: &ResponseChoice)
    ensures
        record_views(final(out)@) == record_views(old(out)@) + choice_text(*c) + choice_calls(*c),
{
    let ghost start = record_views(out@);
    let ghost text = choice_text(*c);
    match &c.content {
        Some(t) => {
            let r = Record::from_item(RecordItem::ModelOutput(t.clone()));
            out.push(r);
            assert(record_views(out@) =~= start + text);
        },
        None => {
            assert(record_views(out@) =~= start + text);
        },
    }
    let ghost calls = choice_calls(*c);
    let mut i: usize = 0;
    while i < c.tool_calls.len()
        invariant
            i <= c.tool_calls@.len(),
            calls == choice_calls(*c),
            record_views(out@) == start + text + calls.take(i as int),
        decreases c.tool_calls@.len() - i,
    {
        let f = &c.tool_calls[i];
        let r = Record::from_item(
            RecordItem::ToolCall(
                ToolCall { index: c.index, tool_call_id: f.id.clone(), tool_name: f.name.clone(), arguments: f.arguments.clone() },
            ),
        );
        let ghost before = record_views(out@);
        out.push(r);
        assert(record_views(out@) =~= before.push(calls[i as int]));
        assert(calls.take(i + 1) =~= calls.take(i as int).push(calls[i as int]));
        i = i + 1;
    }
    assert(calls.take(c.tool_calls@.len() as int) =~= calls);
}

impl Record {
    /// The records a chat message becomes: the user's input gets a fresh id
    /// (a random UUID); a complete response gives its texts and tool
    /// calls; a streamed chunk is merged as `stream_append` does; a tool's
    /// output and a notice become one record each.
    pub fn from_chat_msg(msg: ChatMsg) -> (r: Vec<Record>)
        ensures
            match msg {
                ChatMsg::User(u) => r@.len() == 1 && r@[0]@.item == item_view(RecordItem::UserInput(u)) && crate::memory::uuid_v4_text(r@[0].id@),
                ChatMsg::Response(choices) => record_views(r@) == response_records(choices@),
                ChatMsg::Stream(chunk) => record_views(r@) == merged_chunk(Seq::empty(), chunk.choices@),
                ChatMsg::Tool(o) => record_views(r@) == seq![RecordView { id: Seq::empty(), item: item_view(RecordItem::ToolOutput(o)) }],
                ChatMsg::Custom(a, b) => record_views(r@) == seq![RecordView { id: Seq::empty(), item: ItemView::Custom(a@, b@) }],
            },
    {
        let mut out: Vec<Record> = Vec::new();
        match msg {
            ChatMsg::User(u) => {
                out.push(Record { id: crate::memory::new_uuid(), item: RecordItem::UserInput(u) });
            },
            ChatMsg::Response(choices) => {
                let mut i: usize = 0;
                while i < choices.len()
                    invariant
                        i <= choices@.len(),
                        record_views(out@) == response_records(choices@.take(i as int)),
                    decreases choices@.len() - i,
                {
                    push_choice(&mut out, &choices[i]);
                    assert(choices@.take(i + 1).drop_last() =~= choices@.take(i as int));
                    i = i + 1;
                }
                assert(choices@.take(choices@.len() as int) =~= choices@);
            },
            ChatMsg::Stream(chunk) => {
                assert(record_views(out@) =~= Seq::<RecordView>::empty());
                let _ = stream_append(&mut out, chunk);
            },
            ChatMsg::Tool(o) => {
                out.push(Record::from_item(RecordItem::ToolOutput(o)));
                assert(record_views(out@) =~= seq![out@[0]@]);
            },
            ChatMsg::Custom(a, b) => {
                out.push(Record::from_item(RecordItem::Custom(a, b)));
                assert(record_views(out@) =~= seq![out@[0]@]);
            },
        }
        out
    }
}

} // verus!
