//! The line-oriented chat console: how streamed records of the main agent
//! and of its sub-agents are turned into printed output (sub-agents' output
//! is held back per agent and title until their turn ends or changes), and
//! how the user's lines are gathered into one message.
use crate::text::{chars_string, starts_with, str_chars, trim, trim_chars, extend_str};
use vstd::prelude::*;
use vstd::string::StringExecFns;

verus! {

/// How printed content is coloured.
#[derive(Debug, Clone, Copy, PartialEq, Eq, Structural)]
pub enum TextStyle {
    Plain,
    /// The model's reasoning.
    Dim,
    /// Tool calls and their output.
    Tool,
}

/// One piece of console output.
#[derive(Debug, Clone, PartialEq, Eq)]
pub enum ConsoleLine {
    /// The header naming the agent that speaks from here on.
    Header { agent_id: String, title_suffix: String },
    Text { style: TextStyle, content: String },
}

/// A piece of console output with its texts taken by their characters.
pub enum LineView {
    Header { agent_id: Seq<char>, title_suffix: Seq<char> },
    Text { style: TextStyle, content: Seq<char> },
}

/// The view of a piece of output.
pub open spec fn line_view(l: ConsoleLine) -> LineView {
    match l {
        ConsoleLine::Header { agent_id, title_suffix } => LineView::Header {
            agent_id: agent_id@,
            title_suffix: title_suffix@,
        },
        ConsoleLine::Text { style, content } => LineView::Text { style, content: content@ },
    }
}

/// The views of a list of output.
pub open spec fn line_views(v: Seq<ConsoleLine>) -> Seq<LineView> {
    v.map_values(|l: ConsoleLine| line_view(l))
}

/// The agent and title whose output is being printed.
pub struct OutputCursor {
    pub agent_id: String,
    pub title: String,
}

/// ` [title]` after an agent's name, unless the title is empty or `Waiting`.
pub open spec fn title_suffix(title: Seq<char>) -> Seq<char> {
    if title.len() == 0 || title == "Waiting"@ {
        Seq::empty()
    } else {
        " ["@ + title + "]"@
    }
}

/// How content under a title is coloured.
pub open spec fn style_of(title: Seq<char>) -> TextStyle {
    if title == "Thinking"@ {
        TextStyle::Dim
    } else if starts_with(title, "CallTool"@) || starts_with(title, "ToolOut"@) {
        TextStyle::Tool
    } else {
        TextStyle::Plain
    }
}

/// The output for some content of an agent under a title, given the agent
/// and title printed last: a header when either changed, then the content
/// unless it is empty.
pub open spec fn printed(cur: (Seq<char>, Seq<char>), agent: Seq<char>, title: Seq<char>, content: Seq<char>) -> Seq<LineView> {
    (if cur != (agent, title) {
        seq![LineView::Header { agent_id: agent, title_suffix: title_suffix(title) }]
    } else {
        Seq::empty()
    }) + if content.len() == 0 {
        Seq::empty()
    } else {
        seq![LineView::Text { style: style_of(title), content }]
    }
}

fn same_text(a: &String, b: &str) -> (r: bool)
    ensures
        r == (a@ == b@),
{
    *a == String::from_str(b)
}

fn chars_prefix(s: &str, p: &str) -> (r: bool)
    ensures
        r == starts_with(s@, p@),
{
    crate::text::chars_start_with(str_chars(s).as_slice(), str_chars(p).as_slice())
}

impl OutputCursor {
    /// Nothing printed yet.
    pub fn new() -> (r: OutputCursor)
        ensures
            r.agent_id@ == Seq::<char>::empty(),
            r.title@ == Seq::<char>::empty(),
    {
        OutputCursor { agent_id: String::new(), title: String::new() }
    }

    /// Forgets what was printed last.
    pub fn clear(&mut self)
        ensures
            final(self).agent_id@ == Seq::<char>::empty(),
            final(self).title@ == Seq::<char>::empty(),
    {
        self.agent_id = String::new();
        self.title = String::new();
    }

    /// Prints content of an agent under a title.
    pub fn print(&mut self, agent_id: &str, title: &str, content: &str, out: &mut Vec<ConsoleLine>)
        ensures
            final(self).agent_id@ == agent_id@,
            final(self).title@ == title@,
            line_views(final(out)@) == line_views(old(out)@) + printed(
                (old(self).agent_id@, old(self).title@),
                agent_id@,
                title@,
                content@,
            ),
    {
        let ghost start = line_views(out@);
        if !same_text(&self.agent_id, agent_id) || !same_text(&self.title, title) {
            self.agent_id = String::from_str(agent_id);
            self.title = String::from_str(title);
            let suffix = if title.is_empty() || same_text(&String::from_str(title), "Waiting") {
                proof {
                    reveal_strlit("");
                }
                String::new()
            } else {
                String::from_str(" [").concat(title).concat("]")
            };
            let l = ConsoleLine::Header { agent_id: String::from_str(agent_id), title_suffix: suffix };
            out.push(l);
            assert(line_views(out@) =~= start.push(line_view(l)));
        } else {
            assert(self.agent_id@ == agent_id@ && self.title@ == title@);
        }
        let ghost mid = line_views(out@);
        if !content.is_empty() {
            let style = if same_text(&self.title, "Thinking") {
                TextStyle::Dim
            } else if chars_prefix(title, "CallTool") || chars_prefix(title, "ToolOut") {
                TextStyle::Tool
            } else {
                TextStyle::Plain
            };
            let l = ConsoleLine::Text { style, content: String::from_str(content) };
            out.push(l);
            assert(line_views(out@) =~= mid.push(line_view(l)));
        }
        assert(line_views(out@) =~= start + printed(
            (old(self).agent_id@, old(self).title@),
            agent_id@,
            title@,
            content@,
        ));
    }
}

/// Output of a sub-agent held back.
pub struct PendingOutput {
    pub agent_id: String,
    pub title: String,
    pub content: String,
}

/// Held-back output with its texts taken by their characters.
pub struct PendingView {
    pub agent_id: Seq<char>,
    pub title: Seq<char>,
    pub content: Seq<char>,
}

/// The views of held-back output.
pub open spec fn pending_views(v: Seq<PendingOutput>) -> Seq<PendingView> {
    v.map_values(|p: PendingOutput| PendingView { agent_id: p.agent_id@, title: p.title@, content: p.content@ })
}

/// The output for held-back pieces printed in order, and the cursor after them.
pub open spec fn printed_all(cur: (Seq<char>, Seq<char>), items: Seq<PendingView>) -> ((Seq<char>, Seq<char>), Seq<LineView>)
    decreases items.len(),
{
    if items.len() == 0 {
        (cur, Seq::empty())
    } else {
        let (c, lines) = printed_all(cur, items.drop_last());
        let p = items.last();
        ((p.agent_id, p.title), lines + printed(c, p.agent_id, p.title, p.content))
    }
}

/// The held-back pieces of an agent, in order.
pub open spec fn of_agent(items: Seq<PendingView>, agent: Seq<char>) -> Seq<PendingView>
    decreases items.len(),
{
    if items.len() == 0 {
        Seq::empty()
    } else if items.last().agent_id == agent {
        of_agent(items.drop_last(), agent).push(items.last())
    } else {
        of_agent(items.drop_last(), agent)
    }
}

/// The held-back pieces of other agents, in order.
pub open spec fn not_of_agent(items: Seq<PendingView>, agent: Seq<char>) -> Seq<PendingView>
    decreases items.len(),
{
    if items.len() == 0 {
        Seq::empty()
    } else if items.last().agent_id != agent {
        not_of_agent(items.drop_last(), agent).push(items.last())
    } else {
        not_of_agent(items.drop_last(), agent)
    }
}

/// Index of the first held-back piece of the agent and title, or -1.
pub open spec fn first_pending(items: Seq<PendingView>, agent: Seq<char>, title: Seq<char>) -> int
    decreases items.len(),
{
    if items.len() == 0 {
        -1
    } else {
        let k = first_pending(items.drop_last(), agent, title);
        if k >= 0 {
            k
        } else if items.last().agent_id == agent && items.last().title == title {
            items.len() - 1
        } else {
            -1
        }
    }
}

proof fn lemma_first_pending(items: Seq<PendingView>, agent: Seq<char>, title: Seq<char>)
    ensures
        -1 <= first_pending(items, agent, title) < items.len(),
        first_pending(items, agent, title) >= 0 ==> items[first_pending(items, agent, title)].agent_id == agent
            && items[first_pending(items, agent, title)].title == title,
        forall|j: int|
            0 <= j < items.len() && (first_pending(items, agent, title) < 0 || j < first_pending(items, agent, title))
                ==> !((#[trigger] items[j]).agent_id == agent && items[j].title == title),
    decreases items.len(),
{
    if items.len() > 0 {
        lemma_first_pending(items.drop_last(), agent, title);
        assert forall|j: int|
            0 <= j < items.len() && (first_pending(items, agent, title) < 0 || j < first_pending(items, agent, title))
                implies !((#[trigger] items[j]).agent_id == agent && items[j].title == title) by {
            if j < items.len() - 1 {
                assert(items[j] == items.drop_last()[j]);
            }
        }
    }
}

/// The held-back pieces after more content of an agent under a title: it
/// extends the first piece of that agent and title, or is held as a new piece.
pub open spec fn held_more(items: Seq<PendingView>, agent: Seq<char>, title: Seq<char>, content: Seq<char>) -> Seq<PendingView> {
    let k = first_pending(items, agent, title);
    if k >= 0 {
        items.update(k, PendingView { content: items[k].content + content, ..items[k] })
    } else {
        items.push(PendingView { agent_id: agent, title, content })
    }
}

/// The latest title of each sub-agent whose output is held back.
pub struct TitleMap {
    entries: Vec<(String, String)>,
}

spec fn has_key(e: Seq<(String, String)>, k: Seq<char>) -> bool {
    exists|i: int| 0 <= i < e.len() && (#[trigger] e[i]).0@ == k
}

spec fn key_at(e: Seq<(String, String)>, k: Seq<char>) -> int {
    choose|i: int| 0 <= i < e.len() && (#[trigger] e[i]).0@ == k
}

spec fn unique_keys(e: Seq<(String, String)>) -> bool {
    forall|i: int, j: int|
        0 <= i < e.len() && 0 <= j < e.len() && i != j ==> (#[trigger] e[i]).0@ != (#[trigger] e[j]).0@
}

proof fn lemma_key_at(e: Seq<(String, String)>, i: int)
    requires
        unique_keys(e),
        0 <= i < e.len(),
    ensures
        has_key(e, e[i].0@),
        key_at(e, e[i].0@) == i,
{
    assert(has_key(e, e[i].0@));
}

impl View for TitleMap {
    type V = Map<Seq<char>, Seq<char>>;

    closed spec fn view(&self) -> Map<Seq<char>, Seq<char>> {
        Map::new(|k: Seq<char>| has_key(self.entries@, k), |k: Seq<char>| self.entries@[key_at(self.entries@, k)].1@)
    }
}

impl TitleMap {
    #[verifier::type_invariant]
    spec fn inv(self) -> bool {
        unique_keys(self.entries@)
    }

    /// No titles.
    pub fn new() -> (r: TitleMap)
        ensures
            r@ == Map::<Seq<char>, Seq<char>>::empty(),
    {
        let r = TitleMap { entries: Vec::new() };
        assert(r@ =~= Map::<Seq<char>, Seq<char>>::empty());
        r
    }

    fn find(&self, k: &str) -> (r: Option<usize>)
        ensures
            match r {
                Some(i) => i < self.entries@.len() && self.entries@[i as int].0@ == k@,
                None => !has_key(self.entries@, k@),
            },
    {
        let wanted = String::from_str(k);
        let mut i: usize = 0;
        while i < self.entries.len()
            invariant
                i <= self.entries@.len(),
                wanted@ == k@,
                forall|j: int| 0 <= j < i ==> (#[trigger] self.entries@[j]).0@ != k@,
            decreases self.entries@.len() - i,
        {
            if self.entries[i].0 == wanted {
                return Some(i);
            }
            i = i + 1;
        }
        None
    }

    /// The title of an agent, if it has one.
    pub fn get(&self, k: &str) -> (r: Option<String>)
        ensures
            match r {
                Some(t) => self@.contains_key(k@) && self@[k@] == t@,
                None => !self@.contains_key(k@),
            },
    {
        proof {
            use_type_invariant(self);
        }
        match self.find(k) {
            Some(i) => {
                proof {
                    lemma_key_at(self.entries@, i as int);
                }
                Some(self.entries[i].1.clone())
            },
            None => None,
        }
    }

    /// Sets the title of an agent.
    pub fn insert(&mut self, k: String, v: String)
        ensures
            final(self)@ == old(self)@.insert(k@, v@),
    {
        proof {
            use_type_invariant(&*self);
        }
        let ghost old_e = self.entries@;
        let ghost key = k@;
        let ghost val = v@;
        match self.find(k.as_str()) {
            Some(i) => {
                proof {
                    lemma_key_at(old_e, i as int);
                }
                let mut e: Vec<(String, String)> = Vec::new();
                std::mem::swap(&mut e, &mut self.entries);
                e.remove(i);
                e.insert(i, (k, v));
                self.entries = e;
                proof {
                    assert forall|a: int, b: int|
                        0 <= a < self.entries@.len() && 0 <= b < self.entries@.len() && a != b implies (
                        #[trigger] self.entries@[a]).0@ != (#[trigger] self.entries@[b]).0@ by {
                        assert(self.entries@[a].0@ == old_e[a].0@);
                        assert(self.entries@[b].0@ == old_e[b].0@);
                    }
                    assert forall|id: Seq<char>| has_key(self.entries@, id) == has_key(old_e, id) by {
                        if has_key(old_e, id) {
                            let j = key_at(old_e, id);
                            assert(self.entries@[j].0@ == id);
                        }
                        if has_key(self.entries@, id) {
                            let j = key_at(self.entries@, id);
                            assert(old_e[j].0@ == id);
                        }
                    }
                    assert forall|id: Seq<char>| #[trigger] has_key(self.entries@, id) implies key_at(self.entries@, id) == key_at(old_e, id) by {
                        let j = key_at(old_e, id);
                        lemma_key_at(self.entries@, j);
                        assert(self.entries@[j].0@ == id);
                    }
                    assert(self@ =~= old(self)@.insert(key, val));
                }
            },
            None => {
                let mut e: Vec<(String, String)> = Vec::new();
                std::mem::swap(&mut e, &mut self.entries);
                e.push((k, v));
                self.entries = e;
                proof {
                    let n = old_e.len() as int;
                    lemma_key_at(self.entries@, n);
                    assert forall|id: Seq<char>| id != key implies has_key(self.entries@, id) == has_key(old_e, id) by {
                        if has_key(old_e, id) {
                            let j = key_at(old_e, id);
                            assert(self.entries@[j].0@ == id);
                        }
                        if has_key(self.entries@, id) {
                            let j = key_at(self.entries@, id);
                            assert(old_e[j].0@ == id);
                        }
                    }
                    assert forall|id: Seq<char>| id != key && #[trigger] has_key(self.entries@, id) implies key_at(self.entries@, id) == key_at(old_e, id) by {
                        let j = key_at(old_e, id);
                        lemma_key_at(self.entries@, j);
                    }
                    assert(self@ =~= old(self)@.insert(key, val));
                }
            },
        }
    }

    /// Forgets the title of an agent.
    pub fn remove(&mut self, k: &str)
        ensures
            final(self)@ == old(self)@.remove(k@),
    {
        proof {
            use_type_invariant(&*self);
        }
        let ghost old_e = self.entries@;
        let ghost key = k@;
        match self.find(k) {
            Some(i) => {
                proof {
                    lemma_key_at(old_e, i as int);
                }
                let mut e: Vec<(String, String)> = Vec::new();
                std::mem::swap(&mut e, &mut self.entries);
                e.remove(i);
                self.entries = e;
                proof {
                    assert forall|a: int, b: int|
                        0 <= a < self.entries@.len() && 0 <= b < self.entries@.len() && a != b implies (
                        #[trigger] self.entries@[a]).0@ != (#[trigger] self.entries@[b]).0@ by {
                        let a0 = if a < i { a } else { a + 1 };
                        let b0 = if b < i { b } else { b + 1 };
                        assert(self.entries@[a] == old_e[a0]);
                        assert(self.entries@[b] == old_e[b0]);
                    }
                    assert forall|id: Seq<char>| id != key implies has_key(self.entries@, id) == has_key(old_e, id) by {
                        if has_key(old_e, id) {
                            let j = key_at(old_e, id);
                            let j2 = if j < i { j } else { j - 1 };
                            assert(self.entries@[j2] == old_e[j]);
                        }
                        if has_key(self.entries@, id) {
                            let j = key_at(self.entries@, id);
                            let j0 = if j < i { j } else { j + 1 };
                            assert(self.entries@[j] == old_e[j0]);
                        }
                    }
                    if has_key(self.entries@, key) {
                        let j = key_at(self.entries@, key);
                        let j0 = if j < i { j } else { j + 1 };
                        assert(self.entries@[j] == old_e[j0]);
                    }
                    assert forall|id: Seq<char>| id != key && #[trigger] has_key(self.entries@, id) implies self.entries@[key_at(self.entries@, id)] == old_e[key_at(old_e, id)] by {
                        let j = key_at(self.entries@, id);
                        let j0 = if j < i { j } else { j + 1 };
                        assert(self.entries@[j] == old_e[j0]);
                        lemma_key_at(old_e, j0);
                    }
                    assert(self@ =~= old(self)@.remove(key));
                }
            },
            None => {
                assert(old(self)@.remove(key) =~= old(self)@);
            },
        }
    }

    /// Forgets all titles.
    pub fn clear(&mut self)
        ensures
            final(self)@ == Map::<Seq<char>, Seq<char>>::empty(),
    {
        self.entries = Vec::new();
        assert(self@ =~= Map::<Seq<char>, Seq<char>>::empty());
    }
}

/// The held-back output of sub-agents.
pub struct RecordOutputCache {
    current_titles: TitleMap,
    pending: Vec<PendingOutput>,
}

/// The abstract state of the cache.
pub struct CacheView {
    /// The latest title of each sub-agent whose output is held.
    pub titles: Map<Seq<char>, Seq<char>>,
    /// Held-back pieces, in the order they started.
    pub pending: Seq<PendingView>,
}

impl View for RecordOutputCache {
    type V = CacheView;

    closed spec fn view(&self) -> CacheView {
        CacheView { titles: self.current_titles@, pending: pending_views(self.pending@) }
    }
}

/// What is printed, and what the cursor becomes, when a list is printed.
pub open spec fn cursor_of(c: &OutputCursor) -> (Seq<char>, Seq<char>) {
    (c.agent_id@, c.title@)
}

fn copy_pending(p: &PendingOutput) -> (r: PendingOutput)
    ensures
        r.agent_id@ == p.agent_id@,
        r.title@ == p.title@,
        r.content@ == p.content@,
{
    PendingOutput { agent_id: p.agent_id.clone(), title: p.title.clone(), content: p.content.clone() }
}

impl RecordOutputCache {
    /// Nothing held back.
    pub fn new() -> (r: RecordOutputCache)
        ensures
            r@.titles == Map::<Seq<char>, Seq<char>>::empty(),
            r@.pending == Seq::<PendingView>::empty(),
    {
        let r = RecordOutputCache { current_titles: TitleMap::new(), pending: Vec::new() };
        assert(pending_views(r.pending@) =~= Seq::<PendingView>::empty());
        r
    }

    /// Prints the held-back output of an agent, in order, and forgets its title.
    pub fn flush_agent(&mut self, agent_id: &str, cursor: &mut OutputCursor, out: &mut Vec<ConsoleLine>)
        ensures
            final(self)@.pending == not_of_agent(old(self)@.pending, agent_id@),
            final(self)@.titles == old(self)@.titles.remove(agent_id@),
            cursor_of(final(cursor)) == printed_all(cursor_of(old(cursor)), of_agent(old(self)@.pending, agent_id@)).0,
            line_views(final(out)@) == line_views(old(out)@) + printed_all(
                cursor_of(old(cursor)),
                of_agent(old(self)@.pending, agent_id@),
            ).1,
    {
        let ghost items = pending_views(self.pending@);
        let ghost start = line_views(out@);
        let ghost c0 = cursor_of(cursor);
        let wanted = String::from_str(agent_id);
        let mut rest: Vec<PendingOutput> = Vec::new();
        let mut i: usize = 0;
        while i < self.pending.len()
            invariant
                i <= self.pending@.len(),
                items == pending_views(self.pending@),
                wanted@ == agent_id@,
                pending_views(rest@) == not_of_agent(items.take(i as int), agent_id@),
                cursor_of(cursor) == printed_all(c0, of_agent(items.take(i as int), agent_id@)).0,
                line_views(out@) == start + printed_all(c0, of_agent(items.take(i as int), agent_id@)).1,
            decreases self.pending@.len() - i,
        {
            let p = &self.pending[i];
            proof {
                assert(items.take(i + 1).drop_last() =~= items.take(i as int));
                assert(items.take(i + 1).last() == items[i as int]);
            }
            let ghost lines0 = line_views(out@);
            if p.agent_id == wanted {
                cursor.print(p.agent_id.as_str(), p.title.as_str(), p.content.as_str(), out);
                proof {
                    let prev = of_agent(items.take(i as int), agent_id@);
                    assert(of_agent(items.take(i + 1), agent_id@) == prev.push(items[i as int]));
                    assert(prev.push(items[i as int]).drop_last() =~= prev);
                }
            } else {
                let ghost r0 = pending_views(rest@);
                let q = copy_pending(p);
                rest.push(q);
                assert(pending_views(rest@) =~= r0.push(items[i as int]));
            }
            i = i + 1;
        }
        assert(items.take(self.pending@.len() as int) =~= items);
        self.pending = rest;
        self.current_titles.remove(agent_id);
    }

    /// Prints all held-back output, in order, and forgets all titles.
    pub fn flush_all(&mut self, cursor: &mut OutputCursor, out: &mut Vec<ConsoleLine>)
        ensures
            final(self)@.pending == Seq::<PendingView>::empty(),
            final(self)@.titles == Map::<Seq<char>, Seq<char>>::empty(),
            cursor_of(final(cursor)) == printed_all(cursor_of(old(cursor)), old(self)@.pending).0,
            line_views(final(out)@) == line_views(old(out)@) + printed_all(cursor_of(old(cursor)), old(self)@.pending).1,
    {
        let ghost items = pending_views(self.pending@);
        let ghost start = line_views(out@);
        let ghost c0 = cursor_of(cursor);
        let mut i: usize = 0;
        while i < self.pending.len()
            invariant
                i <= self.pending@.len(),
                items == pending_views(self.pending@),
                cursor_of(cursor) == printed_all(c0, items.take(i as int)).0,
                line_views(out@) == start + printed_all(c0, items.take(i as int)).1,
            decreases self.pending@.len() - i,
        {
            let p = &self.pending[i];
            proof {
                assert(items.take(i + 1).drop_last() =~= items.take(i as int));
                assert(items.take(i + 1).last() == items[i as int]);
            }
            cursor.print(p.agent_id.as_str(), p.title.as_str(), p.content.as_str(), out);
            i = i + 1;
        }
        assert(items.take(self.pending@.len() as int) =~= items);
        self.pending = Vec::new();
        assert(pending_views(self.pending@) =~= Seq::<PendingView>::empty());
        self.current_titles.clear();
    }

    /// Drops everything held back.
    pub fn clear(&mut self)
        ensures
            final(self)@.pending == Seq::<PendingView>::empty(),
            final(self)@.titles == Map::<Seq<char>, Seq<char>>::empty(),
    {
        self.pending = Vec::new();
        assert(pending_views(self.pending@) =~= Seq::<PendingView>::empty());
        self.current_titles.clear();
    }

    /// Holds back output of a sub-agent. When the agent's title changes, what
    /// it held under its previous title is printed first; empty content is
    /// only noted as the agent's title.
    pub fn push(&mut self, agent_id: &str, title: &str, content: &str, cursor: &mut OutputCursor, out: &mut Vec<ConsoleLine>)
        ensures
            ({
                let changed = old(self)@.titles.contains_key(agent_id@) && old(self)@.titles[agent_id@] != title@;
                let items = if changed {
                    not_of_agent(old(self)@.pending, agent_id@)
                } else {
                    old(self)@.pending
                };
                &&& final(self)@.titles == old(self)@.titles.insert(agent_id@, title@)
                &&& final(self)@.pending == if content@.len() == 0 {
                    items
                } else {
                    held_more(items, agent_id@, title@, content@)
                }
                &&& changed ==> cursor_of(final(cursor)) == printed_all(cursor_of(old(cursor)), of_agent(old(self)@.pending, agent_id@)).0
                &&& changed ==> line_views(final(out)@) == line_views(old(out)@) + printed_all(
                    cursor_of(old(cursor)),
                    of_agent(old(self)@.pending, agent_id@),
                ).1
                &&& !changed ==> cursor_of(final(cursor)) == cursor_of(old(cursor))
                &&& !changed ==> final(out)@ == old(out)@
            }),
    {
        let current = self.current_titles.get(agent_id);
        let changed = match &current {
            Some(t) => !same_text(t, title),
            None => false,
        };
        if changed {
            self.flush_agent(agent_id, cursor, out);
        }
        self.current_titles.insert(String::from_str(agent_id), String::from_str(title));
        assert(self.current_titles@ =~= old(self)@.titles.insert(agent_id@, title@));
        let ghost changed_s = old(self)@.titles.contains_key(agent_id@) && old(self)@.titles[agent_id@] != title@;
        assert(changed == changed_s);
        assert(self@.titles == old(self)@.titles.insert(agent_id@, title@));
        assert(changed ==> self@.pending == not_of_agent(old(self)@.pending, agent_id@));
        assert(!changed ==> self@.pending == old(self)@.pending);
        if content.is_empty() {
            return;
        }
        let ghost items = pending_views(self.pending@);
        let ghost cur_after = cursor_of(cursor);
        let ghost out_after = out@;
        let ghost titles_after = self.current_titles@;
        proof {
            lemma_first_pending(items, agent_id@, title@);
        }
        let wanted_agent = String::from_str(agent_id);
        let wanted_title = String::from_str(title);
        let mut i: usize = 0;
        while i < self.pending.len()
            invariant
                i <= self.pending@.len(),
                items == pending_views(self.pending@),
                wanted_agent@ == agent_id@,
                wanted_title@ == title@,
                cursor_of(cursor) == cur_after,
                out@ == out_after,
                self.current_titles@ == titles_after,
                titles_after == old(self)@.titles.insert(agent_id@, title@),
                changed_s == (old(self)@.titles.contains_key(agent_id@) && old(self)@.titles[agent_id@] != title@),
                items == (if changed_s {
                    not_of_agent(old(self)@.pending, agent_id@)
                } else {
                    old(self)@.pending
                }),
                changed_s ==> cur_after == printed_all(cursor_of(old(cursor)), of_agent(old(self)@.pending, agent_id@)).0,
                changed_s ==> line_views(out_after) == line_views(old(out)@) + printed_all(
                    cursor_of(old(cursor)),
                    of_agent(old(self)@.pending, agent_id@),
                ).1,
                !changed_s ==> cur_after == cursor_of(old(cursor)),
                !changed_s ==> out_after == old(out)@,
                content@.len() > 0,
                -1 <= first_pending(items, agent_id@, title@) < items.len(),
                first_pending(items, agent_id@, title@) >= 0 ==> items[first_pending(items, agent_id@, title@)].agent_id == agent_id@
                    && items[first_pending(items, agent_id@, title@)].title == title@,
                forall|j: int|
                    0 <= j < items.len() && (first_pending(items, agent_id@, title@) < 0 || j < first_pending(items, agent_id@, title@))
                        ==> !((#[trigger] items[j]).agent_id == agent_id@ && items[j].title == title@),
                forall|j: int| 0 <= j < i ==> !((#[trigger] items[j]).agent_id == agent_id@ && items[j].title == title@),
            decreases self.pending@.len() - i,
        {
            assert(items[i as int].agent_id == self.pending@[i as int].agent_id@);
            if self.pending[i].agent_id == wanted_agent && self.pending[i].title == wanted_title {
                assert(first_pending(items, agent_id@, title@) == i);
                let ghost before = self.pending@;
                let p = self.pending.remove(i);
                let joined = p.content.concat(content);
                let q = PendingOutput { agent_id: p.agent_id, title: p.title, content: joined };
                self.pending.insert(i, q);
                assert(self.pending@ =~= before.update(i as int, self.pending@[i as int]));
                assert(pending_views(self.pending@) =~= held_more(items, agent_id@, title@, content@));
                return;
            }
            i = i + 1;
        }
        let q = PendingOutput {
            agent_id: String::from_str(agent_id),
            title: String::from_str(title),
            content: String::from_str(content),
        };
        self.pending.push(q);
        assert(pending_views(self.pending@) =~= held_more(items, agent_id@, title@, content@));
    }
}

/// `input` with `line` added as a new line (no separator when it was empty).
pub open spec fn with_line(input: Seq<char>, line: Seq<char>) -> Seq<char> {
    if input.len() == 0 {
        line
    } else {
        input + seq!['\n'] + line
    }
}

/// Adds a line to the message being gathered.
pub fn append_user_input(user_input: &mut String, val: &str)
    ensures
        final(user_input)@ == with_line(old(user_input)@, val@),
{
    if !user_input.as_str().is_empty() {
        let nl = chars_string(&['\n']);
        assert(nl@ =~= seq!['\n']);
        user_input.append(nl.as_str());
    }
    user_input.append(val);
}

/// A line of the user's message to print back, under the "You" header when
/// it starts the message.
#[derive(Debug, Clone, PartialEq, Eq)]
pub struct Echo {
    pub text: String,
    pub header: bool,
}

/// What Enter asks for.
#[derive(Debug, Clone, PartialEq, Eq)]
pub enum EnterAction {
    /// Nothing to do.
    Nothing,
    /// Leave the console.
    Quit,
    /// Reset the session.
    Reset,
    /// Print the line back; the message goes on (a stream is running).
    Gather(Echo),
    /// Send the gathered message, after printing the line back if there is one.
    Send { echo: Option<Echo>, message: String },
}

/// What Ctrl+C asks for.
#[derive(Debug, Clone, PartialEq, Eq)]
pub enum InterruptAction {
    /// Leave the console.
    Quit,
    /// The running stream was dropped: print the notice and start a new session.
    Abort(String),
}

/// The state of the chat console around one session.
pub struct ChatConsole {
    agent_id: String,
    user_input: String,
    stream_active: bool,
    current_title: String,
    cache: RecordOutputCache,
    cursor: OutputCursor,
}

/// The abstract state of the console.
pub struct ConsoleView {
    pub agent_id: Seq<char>,
    /// The message being gathered from the user's lines.
    pub user_input: Seq<char>,
    pub stream_active: bool,
    /// The title shown beside the spinner.
    pub current_title: Seq<char>,
    pub cache: CacheView,
    pub cursor: (Seq<char>, Seq<char>),
}

impl View for ChatConsole {
    type V = ConsoleView;

    closed spec fn view(&self) -> ConsoleView {
        ConsoleView {
            agent_id: self.agent_id@,
            user_input: self.user_input@,
            stream_active: self.stream_active,
            current_title: self.current_title@,
            cache: self.cache@,
            cursor: cursor_of(&self.cursor),
        }
    }
}

/// What holding back a sub-agent's output does: the cache it leaves, the
/// cursor after what it prints, and what it prints (the agent's output under
/// its previous title, when the title changes).
pub open spec fn cache_pushed(
    c: CacheView,
    cur: (Seq<char>, Seq<char>),
    agent_id: Seq<char>,
    title: Seq<char>,
    content: Seq<char>,
) -> (CacheView, (Seq<char>, Seq<char>), Seq<LineView>) {
    let changed = c.titles.contains_key(agent_id) && c.titles[agent_id] != title;
    let items = if changed {
        not_of_agent(c.pending, agent_id)
    } else {
        c.pending
    };
    let pending = if content.len() == 0 {
        items
    } else {
        held_more(items, agent_id, title, content)
    };
    let flushed = printed_all(cur, of_agent(c.pending, agent_id));
    (
        CacheView { titles: c.titles.insert(agent_id, title), pending },
        if changed { flushed.0 } else { cur },
        if changed { flushed.1 } else { Seq::empty() },
    )
}

/// The console with the stream dropped and nothing held back or printed.
pub open spec fn quiet(c: ConsoleView) -> ConsoleView {
    ConsoleView {
        stream_active: false,
        cache: CacheView { titles: Map::empty(), pending: Seq::empty() },
        cursor: (Seq::empty(), Seq::empty()),
        ..c
    }
}

/// The notice printed when a running stream is interrupted.
pub open spec fn abort_notice() -> Seq<char> {
    "\n[Session aborted. Starting a new session...]\n\n"@
}

/// The console after Enter on a line, and what it asks for.
pub open spec fn entered(c: ConsoleView, line: Seq<char>) -> ConsoleView {
    let val = trim(line);
    if starts_with(val, "/exit"@) {
        c
    } else if starts_with(val, "/reset"@) {
        if c.stream_active {
            quiet(c)
        } else {
            c
        }
    } else if val.len() > 0 || c.user_input.len() > 0 {
        let gathered = if val.len() > 0 {
            with_line(c.user_input, val)
        } else {
            c.user_input
        };
        if c.stream_active {
            ConsoleView { user_input: gathered, ..c }
        } else {
            ConsoleView { user_input: Seq::empty(), ..c }
        }
    } else {
        c
    }
}

impl ChatConsole {
    /// A console for the main agent, with no stream running.
    pub fn new(agent_id: String) -> (r: ChatConsole)
        ensures
            r@ == (ConsoleView {
                agent_id: agent_id@,
                user_input: Seq::empty(),
                stream_active: false,
                current_title: Seq::empty(),
                cache: CacheView { titles: Map::empty(), pending: Seq::empty() },
                cursor: (Seq::empty(), Seq::empty()),
            }),
    {
        ChatConsole {
            agent_id,
            user_input: String::new(),
            stream_active: false,
            current_title: String::new(),
            cache: RecordOutputCache::new(),
            cursor: OutputCursor::new(),
        }
    }

    /// Whether a stream is running.
    pub fn stream_active(&self) -> (b: bool)
        ensures
            b == self@.stream_active,
    {
        self.stream_active
    }

    /// The title shown beside the spinner.
    pub fn current_title(&self) -> (r: &String)
        ensures
            r@ == self@.current_title,
    {
        &self.current_title
    }

    fn quiet_down(&mut self)
        ensures
            final(self)@ == quiet(old(self)@),
    {
        self.stream_active = false;
        self.cache.clear();
        self.cursor.clear();
    }

    /// Ctrl+C: a running stream is dropped, otherwise the console closes.
    pub fn on_interrupt(&mut self) -> (r: InterruptAction)
        ensures
            old(self)@.stream_active ==> final(self)@ == quiet(old(self)@) && (r matches InterruptAction::Abort(t) && t@ == abort_notice()),
            !old(self)@.stream_active ==> final(self)@ == old(self)@ && r == InterruptAction::Quit,
    {
        if self.stream_active {
            self.quiet_down();
            InterruptAction::Abort(String::from_str("\n[Session aborted. Starting a new session...]\n\n"))
        } else {
            InterruptAction::Quit
        }
    }

    /// Ctrl+J: the trimmed line joins the message and is printed back.
    pub fn on_line_break(&mut self, line: &str) -> (r: Echo)
        ensures
            final(self)@ == (ConsoleView { user_input: with_line(old(self)@.user_input, trim(line@)), ..old(self)@ }),
            r.text@ == trim(line@),
            r.header == (old(self)@.user_input.len() == 0),
    {
        let val = chars_string(trim_chars(str_chars(line).as_slice()).as_slice());
        self.push_line(val.as_str())
    }

    /// A line that joins the message as it is (a pasted line), printed back.
    pub fn push_line(&mut self, line: &str) -> (r: Echo)
        ensures
            final(self)@ == (ConsoleView { user_input: with_line(old(self)@.user_input, line@), ..old(self)@ }),
            r.text@ == line@,
            r.header == (old(self)@.user_input.len() == 0),
    {
        let header = self.user_input.as_str().is_empty();
        append_user_input(&mut self.user_input, line);
        Echo { text: String::from_str(line), header }
    }

    /// Enter: `/exit` quits, `/reset` resets the session (dropping a running
    /// stream); any other line joins the message, which is sent unless a
    /// stream is running.
    pub fn on_enter(&mut self, line: &str) -> (r: EnterAction)
        ensures
            final(self)@ == entered(old(self)@, line@),
            ({
                let c = old(self)@;
                let val = trim(line@);
                if starts_with(val, "/exit"@) {
                    r == EnterAction::Quit
                } else if starts_with(val, "/reset"@) {
                    r == EnterAction::Reset
                } else if val.len() > 0 || c.user_input.len() > 0 {
                    let gathered = if val.len() > 0 {
                        with_line(c.user_input, val)
                    } else {
                        c.user_input
                    };
                    if c.stream_active {
                        if val.len() > 0 {
                            r matches EnterAction::Gather(e) && e.text@ == val && e.header == (c.user_input.len() == 0)
                        } else {
                            r == EnterAction::Nothing
                        }
                    } else {
                        r matches EnterAction::Send { echo, message } && message@ == gathered && (val.len() > 0
                            ==> (echo matches Some(e) && e.text@ == val && e.header == (c.user_input.len() == 0)))
                            && (val.len() == 0 ==> echo is None)
                    }
                } else {
                    r == EnterAction::Nothing
                }
            }),
    {
        let val = chars_string(trim_chars(str_chars(line).as_slice()).as_slice());
        if chars_prefix(val.as_str(), "/exit") {
            return EnterAction::Quit;
        }
        if chars_prefix(val.as_str(), "/reset") {
            if self.stream_active {
                self.quiet_down();
            }
            return EnterAction::Reset;
        }
        if val.as_str().is_empty() && self.user_input.as_str().is_empty() {
            return EnterAction::Nothing;
        }
        let echo = if !val.as_str().is_empty() {
            Some(self.push_line(val.as_str()))
        } else {
            None
        };
        if self.stream_active {
            match echo {
                Some(e) => EnterAction::Gather(e),
                None => EnterAction::Nothing,
            }
        } else {
            let message = self.user_input.clone();
            self.user_input = String::new();
            EnterAction::Send { echo, message }
        }
    }

    /// A stream of the message's answer has started.
    pub fn on_stream_started(&mut self)
        ensures
            final(self)@ == (ConsoleView { stream_active: true, current_title: "Waiting"@, ..quiet(old(self)@) }),
    {
        self.quiet_down();
        self.stream_active = true;
        self.current_title = String::from_str("Waiting");
    }

    /// A record of the stream: the main agent's output is printed at once
    /// (after everything held back); a sub-agent's is held back.
    pub fn on_record(&mut self, agent_id: &str, title: &str, content: &str) -> (r: Vec<ConsoleLine>)
        ensures
            agent_id@ == old(self)@.agent_id ==> ({
                let flushed = printed_all(old(self)@.cursor, old(self)@.cache.pending);
                &&& final(self)@ == (ConsoleView {
                    current_title: title@,
                    cache: CacheView { titles: Map::empty(), pending: Seq::empty() },
                    cursor: (agent_id@, title@),
                    ..old(self)@
                })
                &&& line_views(r@) == flushed.1 + printed(flushed.0, agent_id@, title@, content@)
            }),
            agent_id@ != old(self)@.agent_id ==> ({
                let pushed = cache_pushed(old(self)@.cache, old(self)@.cursor, agent_id@, title@, content@);
                &&& final(self)@ == (ConsoleView { cache: pushed.0, cursor: pushed.1, ..old(self)@ })
                &&& line_views(r@) == pushed.2
            }),
    {
        let mut out: Vec<ConsoleLine> = Vec::new();
        assert(line_views(out@) =~= Seq::<LineView>::empty());
        if same_text(&self.agent_id, agent_id) {
            self.current_title = String::from_str(title);
            self.cache.flush_all(&mut self.cursor, &mut out);
            self.cursor.print(agent_id, title, content, &mut out);
        } else {
            self.cache.push(agent_id, title, content, &mut self.cursor, &mut out);
            assert(line_views(out@) =~= cache_pushed(old(self)@.cache, old(self)@.cursor, agent_id@, title@, content@).2);
        }
        out
    }

    /// The stream ended: everything held back is printed, then an empty line.
    pub fn on_stream_end(&mut self) -> (r: Vec<ConsoleLine>)
        ensures
            ({
                let flushed = printed_all(old(self)@.cursor, old(self)@.cache.pending);
                &&& final(self)@ == (ConsoleView {
                    stream_active: false,
                    cache: CacheView { titles: Map::empty(), pending: Seq::empty() },
                    cursor: flushed.0,
                    ..old(self)@
                })
                &&& line_views(r@) == flushed.1.push(LineView::Text { style: TextStyle::Plain, content: "\n\n"@ })
            }),
    {
        let mut out: Vec<ConsoleLine> = Vec::new();
        assert(line_views(out@) =~= Seq::<LineView>::empty());
        self.cache.flush_all(&mut self.cursor, &mut out);
        self.stream_active = false;
        let ghost before = line_views(out@);
        let l = ConsoleLine::Text { style: TextStyle::Plain, content: String::from_str("\n\n") };
        out.push(l);
        assert(line_views(out@) =~= before.push(line_view(l)));
        out
    }
}

/// The line printed after the session is reset: the text centred between
/// dashes in a console `cols` columns wide.
pub open spec fn reset_banner(cols: nat) -> Seq<char> {
    let text = " Session reset successfully "@;
    let inner = if cols >= 4 {
        (cols - 4) as nat
    } else {
        0
    };
    let n = if inner >= 28 {
        ((inner - 28) / 2) as nat
    } else {
        0
    };
    "\n"@ + Seq::new(n, |i: int| '-') + text + Seq::new(n, |i: int| '-') + "\n\n"@
}

fn dashes(n: usize) -> (r: Vec<char>)
    ensures
        r@ == Seq::new(n as nat, |i: int| '-'),
{
    let mut r: Vec<char> = Vec::new();
    let mut i: usize = 0;
    while i < n
        invariant
            i <= n,
            r@ == Seq::new(i as nat, |k: int| '-'),
        decreases n - i,
    {
        r.push('-');
        i = i + 1;
        assert(r@ =~= Seq::new(i as nat, |k: int| '-'));
    }
    r
}

/// The line printed after the session is reset.
pub fn session_reset_banner(cols: usize) -> (r: String)
    ensures
        r@ == reset_banner(cols as nat),
{
    let inner = cols.saturating_sub(4);
    let n = inner.saturating_sub(28) / 2;
    let d = dashes(n);
    let mut v: Vec<char> = Vec::new();
    extend_str(&mut v, "\n");
    crate::text::extend_chars(&mut v, d.as_slice());
    extend_str(&mut v, " Session reset successfully ");
    crate::text::extend_chars(&mut v, d.as_slice());
    extend_str(&mut v, "\n\n");
    proof {
        reveal_strlit(" Session reset successfully ");
    }
    chars_string(v.as_slice())
}

/// Which of the ten spinner frames shows at a tick (each frame lasts two ticks).
pub fn spinner_frame(tick: usize) -> (r: usize)
    ensures
        r == (tick / 2) % 10,
        r < 10,
{
    (tick / 2) % 10
}

} // verus!

verus! {

/// A pasted text with each carriage return (alone, or before a line feed)
/// made a single line feed.
pub open spec fn unix_newlines(s: Seq<char>) -> Seq<char>
    decreases s.len(),
{
    if s.len() == 0 {
        Seq::empty()
    } else if s[0] == '\r' && s.len() > 1 && s[1] == '\n' {
        seq!['\n'] + unix_newlines(s.skip(2))
    } else if s[0] == '\r' {
        seq!['\n'] + unix_newlines(s.skip(1))
    } else {
        seq![s[0]] + unix_newlines(s.skip(1))
    }
}

/// The lines of a pasted text: all but the last go out as lines of the
/// message; the last stays in the input.
pub open spec fn pasted_lines(s: Seq<char>) -> Seq<Seq<char>> {
    crate::text::split_on(unix_newlines(s), '\n')
}

/// The lines of a pasted text.
pub fn paste_lines(pasted: &str) -> (r: Vec<Vec<char>>)
    ensures
        crate::text::char_rows(r@) == pasted_lines(pasted@),
        r@.len() >= 1,
{
    let v = str_chars(pasted);
    let n = v.len();
    let mut out: Vec<char> = Vec::new();
    let mut i: usize = 0;
    assert(v@.skip(0) =~= v@);
    while i < n
        invariant
            i <= n,
            n == v@.len(),
            v@ == pasted@,
            out@ + unix_newlines(v@.skip(i as int)) == unix_newlines(v@),
        decreases n - i,
    {
        let ghost rest = v@.skip(i as int);
        if v[i] == '\r' && i + 1 < n && v[i + 1] == '\n' {
            assert(rest.skip(2) =~= v@.skip(i + 2));
            let ghost before = out@;
            out.push('\n');
            assert(out@ + unix_newlines(v@.skip(i + 2)) =~= before + unix_newlines(rest));
            i = i + 2;
        } else if v[i] == '\r' {
            assert(rest.skip(1) =~= v@.skip(i + 1));
            let ghost before = out@;
            out.push('\n');
            assert(out@ + unix_newlines(v@.skip(i + 1)) =~= before + unix_newlines(rest));
            i = i + 1;
        } else {
            assert(rest.skip(1) =~= v@.skip(i + 1));
            let ghost before = out@;
            out.push(v[i]);
            assert(out@ + unix_newlines(v@.skip(i + 1)) =~= before + unix_newlines(rest));
            i = i + 1;
        }
    }
    assert(v@.skip(n as int) =~= Seq::<char>::empty());
    assert(out@ =~= unix_newlines(v@));
    let r = crate::text::split_pieces(out.as_slice(), '\n');
    proof {
        crate::text::lemma_split_on_nonempty(out@, '\n');
    }
    r
}

/// A directory as the banner shows it: under the home directory it starts
/// with `~`.
pub open spec fn shown_directory(dir: Seq<char>, home: Option<Seq<char>>) -> Seq<char> {
    match home {
        Some(h) => if starts_with(dir, h) {
            seq!['~'] + dir.skip(h.len() as int)
        } else {
            dir
        },
        None => dir,
    }
}

/// A directory as the banner shows it.
pub fn display_directory(dir: &str, home: Option<&str>) -> (r: String)
    ensures
        r@ == shown_directory(dir@, match home {
            Some(h) => Some(h@),
            None => None,
        }),
{
    match home {
        Some(h) => {
            let d = str_chars(dir);
            let hv = str_chars(h);
            if crate::text::chars_start_with(d.as_slice(), hv.as_slice()) {
                let mut r: Vec<char> = Vec::new();
                r.push('~');
                let rest = crate::text::slice_range(d.as_slice(), hv.len(), d.len());
                crate::text::extend_chars(&mut r, rest.as_slice());
                assert(r@ =~= seq!['~'] + d@.skip(hv@.len() as int));
                chars_string(r.as_slice())
            } else {
                String::from_str(dir)
            }
        },
        None => String::from_str(dir),
    }
}

/// A character repeated.
pub open spec fn repeated(c: char, n: nat) -> Seq<char> {
    Seq::new(n, |i: int| c)
}

fn repeat_char(c: char, n: usize) -> (r: Vec<char>)
    ensures
        r@ == repeated(c, n as nat),
{
    let mut r: Vec<char> = Vec::new();
    let mut i: usize = 0;
    while i < n
        invariant
            i <= n,
            r@ == repeated(c, i as nat),
        decreases n - i,
    {
        r.push(c);
        i = i + 1;
        assert(r@ =~= repeated(c, i as nat));
    }
    r
}

/// The widest of some lines, in characters.
pub open spec fn widest(lines: Seq<Seq<char>>) -> nat
    decreases lines.len(),
{
    if lines.len() == 0 {
        0
    } else {
        let w = widest(lines.drop_last());
        if lines.last().len() > w {
            lines.last().len()
        } else {
            w
        }
    }
}

proof fn lemma_widest(lines: Seq<Seq<char>>)
    ensures
        forall|i: int| 0 <= i < lines.len() ==> (#[trigger] lines[i]).len() <= widest(lines),
    decreases lines.len(),
{
    if lines.len() > 0 {
        lemma_widest(lines.drop_last());
        assert forall|i: int| 0 <= i < lines.len() implies (#[trigger] lines[i]).len() <= widest(lines) by {
            if i < lines.len() - 1 {
                assert(lines.drop_last()[i] == lines[i]);
            }
        }
    }
}

proof fn lemma_widest_bound(lines: Seq<Seq<char>>, b: nat)
    requires
        forall|i: int| 0 <= i < lines.len() ==> (#[trigger] lines[i]).len() <= b,
    ensures
        widest(lines) <= b,
    decreases lines.len(),
{
    if lines.len() > 0 {
        assert forall|i: int| 0 <= i < lines.drop_last().len() implies (#[trigger] lines.drop_last()[i]).len() <= b by {
            assert(lines.drop_last()[i] == lines[i]);
        }
        lemma_widest_bound(lines.drop_last(), b);
    }
}

/// The lines of the welcome banner's text: the title with the version, a
/// blank line, the agent and model, and the directory.
pub open spec fn banner_text(version: Seq<char>, agent_id: Seq<char>, model: Seq<char>, directory: Seq<char>) -> Seq<Seq<char>> {
    seq![
        ">_ Free Agent Engine CLI (v"@ + version + ")"@,
        Seq::empty(),
        "agent: "@ + agent_id + "    model: "@ + model,
        "directory: "@ + directory,
    ]
}

/// A banner row: the line between borders, padded to the widest line with
/// one space on either side.
pub open spec fn banner_row(line: Seq<char>, width: nat) -> Seq<char> {
    seq!['│', ' '] + line + repeated(' ', (width - line.len()) as nat) + seq![' ', '│']
}

/// The welcome banner, row by row: a rounded box around its text.
pub open spec fn banner_rows(text: Seq<Seq<char>>) -> Seq<Seq<char>> {
    let w = widest(text);
    seq![seq!['╭'] + repeated('─', w + 2) + seq!['╮']] + text.map_values(|l: Seq<char>| banner_row(l, w)) + seq![
        seq!['╰'] + repeated('─', w + 2) + seq!['╯'],
    ]
}

/// The welcome banner, row by row.
pub fn welcome_banner(version: &str, agent_id: &str, model: &str, directory: &str) -> (r: Vec<Vec<char>>)
    requires
        version@.len() + agent_id@.len() + model@.len() + directory@.len() + 64 <= usize::MAX,
    ensures
        crate::text::char_rows(r@) == banner_rows(banner_text(version@, agent_id@, model@, directory@)),
{
    let mut title: Vec<char> = Vec::new();
    extend_str(&mut title, ">_ Free Agent Engine CLI (v");
    extend_str(&mut title, version);
    extend_str(&mut title, ")");
    let blank: Vec<char> = Vec::new();
    let mut model_line: Vec<char> = Vec::new();
    extend_str(&mut model_line, "agent: ");
    extend_str(&mut model_line, agent_id);
    extend_str(&mut model_line, "    model: ");
    extend_str(&mut model_line, model);
    let mut dir_line: Vec<char> = Vec::new();
    extend_str(&mut dir_line, "directory: ");
    extend_str(&mut dir_line, directory);
    let mut lines: Vec<Vec<char>> = Vec::new();
    lines.push(title);
    lines.push(blank);
    lines.push(model_line);
    lines.push(dir_line);
    let ghost text = banner_text(version@, agent_id@, model@, directory@);
    assert(crate::text::char_rows(lines@) =~= text);
    let mut width: usize = 0;
    let mut i: usize = 0;
    while i < lines.len()
        invariant
            i <= lines@.len(),
            crate::text::char_rows(lines@) == text,
            width == widest(text.take(i as int)),
        decreases lines@.len() - i,
    {
        assert(text.take(i + 1).drop_last() =~= text.take(i as int));
        assert(text.take(i + 1).last() == lines@[i as int]@);
        if lines[i].len() > width {
            width = lines[i].len();
        }
        i = i + 1;
    }
    assert(text.take(lines@.len() as int) =~= text);
    proof {
        lemma_widest(text);
    }
    proof {
        let b = (version@.len() + agent_id@.len() + model@.len() + directory@.len() + 40) as nat;
        assert forall|i: int| 0 <= i < text.len() implies (#[trigger] text[i]).len() <= b by {
            reveal_strlit(">_ Free Agent Engine CLI (v");
            reveal_strlit(")");
            reveal_strlit("agent: ");
            reveal_strlit("    model: ");
            reveal_strlit("directory: ");
        }
        lemma_widest_bound(text, b);
    }
    let mut rows: Vec<Vec<char>> = Vec::new();
    let mut top: Vec<char> = Vec::new();
    top.push('╭');
    let bar = repeat_char('─', width + 2);
    crate::text::extend_chars(&mut top, bar.as_slice());
    top.push('╮');
    assert(top@ =~= seq!['╭'] + repeated('─', width as nat + 2) + seq!['╮']);
    rows.push(top);
    let ghost body = text.map_values(|l: Seq<char>| banner_row(l, width as nat));
    let mut k: usize = 0;
    while k < lines.len()
        invariant
            k <= lines@.len(),
            lines@.len() == text.len(),
            crate::text::char_rows(lines@) == text,
            width == widest(text),
            forall|j: int| 0 <= j < text.len() ==> (#[trigger] text[j]).len() <= width,
            body == text.map_values(|l: Seq<char>| banner_row(l, width as nat)),
            crate::text::char_rows(rows@) == seq![seq!['╭'] + repeated('─', width as nat + 2) + seq!['╮']] + body.take(k as int),
        decreases lines@.len() - k,
    {
        assert(lines@[k as int]@ == text[k as int]);
        let mut row: Vec<char> = Vec::new();
        row.push('│');
        row.push(' ');
        crate::text::extend_chars(&mut row, lines[k].as_slice());
        let pad = repeat_char(' ', width - lines[k].len());
        crate::text::extend_chars(&mut row, pad.as_slice());
        row.push(' ');
        row.push('│');
        assert(row@ =~= banner_row(text[k as int], width as nat));
        let ghost before = crate::text::char_rows(rows@);
        rows.push(row);
        assert(crate::text::char_rows(rows@) =~= before.push(row@));
        assert(body.take(k + 1) =~= body.take(k as int).push(body[k as int]));
        k = k + 1;
    }
    assert(body.take(lines@.len() as int) =~= body);
    let mut bottom: Vec<char> = Vec::new();
    bottom.push('╰');
    crate::text::extend_chars(&mut bottom, bar.as_slice());
    bottom.push('╯');
    assert(bottom@ =~= seq!['╰'] + repeated('─', width as nat + 2) + seq!['╯']);
    let ghost before = crate::text::char_rows(rows@);
    rows.push(bottom);
    assert(crate::text::char_rows(rows@) =~= before.push(bottom@));
    assert(crate::text::char_rows(rows@) =~= banner_rows(text));
    rows
}

} // verus!

verus! {

/// The spinner's frames.
pub open spec fn spinner_char(frame: nat) -> char {
    if frame == 0 {
        '⠋'
    } else if frame == 1 {
        '⠙'
    } else if frame == 2 {
        '⠹'
    } else if frame == 3 {
        '⠸'
    } else if frame == 4 {
        '⠼'
    } else if frame == 5 {
        '⠴'
    } else if frame == 6 {
        '⠦'
    } else if frame == 7 {
        '⠧'
    } else if frame == 8 {
        '⠇'
    } else {
        '⠏'
    }
}

/// The line shown under the prompt while a stream runs: the spinner's
/// frame, then what the agent is doing.
pub open spec fn spinner_text(tick: nat, title: Seq<char>) -> Seq<char> {
    seq![spinner_char((tick / 2) % 10), ' '] + title + "..."@
}

/// The line shown under the prompt while a stream runs.
pub fn spinner_line(tick: usize, title: &str) -> (r: String)
    ensures
        r@ == spinner_text(tick as nat, title@),
{
    let frame = spinner_frame(tick);
    let c = if frame == 0 {
        '⠋'
    } else if frame == 1 {
        '⠙'
    } else if frame == 2 {
        '⠹'
    } else if frame == 3 {
        '⠸'
    } else if frame == 4 {
        '⠼'
    } else if frame == 5 {
        '⠴'
    } else if frame == 6 {
        '⠦'
    } else if frame == 7 {
        '⠧'
    } else if frame == 8 {
        '⠇'
    } else {
        '⠏'
    };
    let mut v: Vec<char> = Vec::new();
    v.push(c);
    v.push(' ');
    extend_str(&mut v, title);
    extend_str(&mut v, "...");
    proof {
        reveal_strlit("...");
    }
    assert(v@ =~= spinner_text(tick as nat, title@));
    chars_string(v.as_slice())
}

/// A line the user typed, as the console prints it: the first line of a
/// message comes under a rule as wide as the terminal and a `❯ You` label;
/// line feeds are printed as carriage return and line feed.
pub open spec fn user_echo(val: Seq<char>, is_header: bool, cols: nat) -> Seq<char> {
    if is_header {
        repeated('─', cols) + "\r\n"@ + "❯ You\r\n"@ + crate::planner::crlf(val) + "\r\n"@
    } else {
        crate::planner::crlf(val) + "\r\n"@
    }
}

/// A line the user typed, as the console prints it.
pub fn user_message_text(val: &str, is_header: bool, cols: usize) -> (r: String)
    ensures
        r@ == user_echo(val@, is_header, cols as nat),
{
    let mut v: Vec<char> = Vec::new();
    if is_header {
        let rule = repeat_char('─', cols);
        crate::text::extend_chars(&mut v, rule.as_slice());
        extend_str(&mut v, "\r\n");
        extend_str(&mut v, "❯ You\r\n");
    }
    let body = crate::planner::to_crlf(val);
    extend_str(&mut v, body.as_str());
    extend_str(&mut v, "\r\n");
    assert(v@ =~= user_echo(val@, is_header, cols as nat));
    chars_string(v.as_slice())
}

} // verus!
