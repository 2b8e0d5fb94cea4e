//! Properties that hold across the library's operations.
use crate::agent_task::AgentTask;
use crate::composer::{backspaced, deleted, holding, inserted, moved_right, ComposerView};
use crate::keys::{navigated, recorded};
use crate::planner::{first_sep, sep_at, tool_channel};
use crate::planner::{finished_task_text, task_input_is, TaskInput, TaskInputError};
use crate::prompt::{mcp_line, mcp_text, McpToolInfo};
use crate::record::{
    chunk_args, chunk_name, first_fit, fits, lemma_first_fit, merged_call, merged_calls, ItemView, RecordView, Slot,
    ToolCallChunk,
};
use crate::screen::{event_agent, event_applied, UiView};
use crate::session_event::SessionOutput;
use crate::text::{concat_all, lemma_concat_all_push};
use crate::transcript::MessageKind;
use crate::session_store::{log_of, pushed, well_formed, window, LogView};
use crate::transcript::{held, BufferedView};
use crate::text::trim;
use crate::turn::{
    after_model, answered, finish_refusal, history_start, last_summary, opening_messages, system_only, ChatView,
    FinishReason, ModelStep, Role, SessionMessage, Stage, TurnView,
};
use vstd::prelude::*;

verus! {

/// A session never keeps more than a hundred records, nor counts more as
/// written than it keeps; the record just added is the newest one.
pub proof fn law_push_keeps_capacity(v: LogView, x: RecordView)
    requires
        well_formed(v),
    ensures
        well_formed(pushed(v, x)),
        pushed(v, x).items.last() == x,
        pushed(v, x).items.len() == if v.items.len() < 100 {
            v.items.len() + 1
        } else {
            100
        },
{
}

/// In a session with room left, loading one record at the old length
/// gives back exactly the record just added.
pub proof fn law_load_after_push(v: LogView, x: RecordView)
    requires
        well_formed(v),
        v.items.len() < 100,
    ensures
        window(pushed(v, x).items, v.items.len(), 1) == seq![x],
{
    assert(window(pushed(v, x).items, v.items.len(), 1) =~= seq![x]);
}

/// A record that is changed or removed after the written ones leaves the
/// written records as they were.
pub proof fn law_written_records_stay(v: LogView, k: int, x: RecordView)
    requires
        well_formed(v),
        v.flushed <= k < v.items.len(),
    ensures
        v.items.update(k, x).take(v.flushed as int) == v.items.take(v.flushed as int),
        v.items.remove(k).take(v.flushed as int) == v.items.take(v.flushed as int),
{
    assert(v.items.update(k, x).take(v.flushed as int) =~= v.items.take(v.flushed as int));
    assert(v.items.remove(k).take(v.flushed as int) =~= v.items.take(v.flushed as int));
}

/// What happens to one session leaves every other session's memory as it was.
pub proof fn law_sessions_are_separate(
    m: Map<(Seq<char>, Seq<char>), LogView>,
    k: (Seq<char>, Seq<char>),
    other: (Seq<char>, Seq<char>),
    v: LogView,
)
    requires
        k != other,
    ensures
        log_of(m.insert(k, v), other) == log_of(m, other),
        log_of(m.remove(k), other) == log_of(m, other),
{
}

/// The output a nested agent run holds back is its own: holding back or
/// releasing another run's output leaves it as it was.
pub proof fn law_child_runs_are_separate(
    m: Map<Seq<char>, Seq<BufferedView>>,
    run: Seq<char>,
    other: Seq<char>,
    b: Seq<BufferedView>,
)
    requires
        run != other,
    ensures
        held(m.insert(run, b), other) == held(m, other),
        held(m.remove(run), other) == held(m, other),
{
}

/// A tool named `channel__name` is found again in its channel under its
/// name, when the channel holds no `__` and does not end with `_`.
pub proof fn law_tool_name_round_trip(channel: Seq<char>, name: Seq<char>)
    requires
        forall|i: int| !#[trigger] sep_at(channel, i),
        channel.len() == 0 || channel.last() != '_',
    ensures
        tool_channel(channel + "__"@ + name) == (channel, name),
{
    reveal_strlit("__");
    let s = channel + "__"@ + name;
    let n = channel.len() as int;
    assert(("__"@).len() == 2);
    assert(s[n] == '_' && s[n + 1] == '_');
    assert(sep_at(s, n));
    assert forall|j: int| 0 <= j < n implies !#[trigger] sep_at(s, j) by {
        if j + 1 < n {
            assert(s[j] == channel[j] && s[j + 1] == channel[j + 1]);
            assert(!sep_at(channel, j));
        } else {
            assert(s[j] == channel[j]);
            assert(channel.last() == channel[j]);
        }
    }
    let k = first_sep(s);
    assert(sep_at(s, k) && forall|j: int| 0 <= j < k ==> !#[trigger] sep_at(s, j));
    if k < n {
        assert(!sep_at(s, k));
    }
    if k > n {
        assert(!sep_at(s, n));
    }
    assert(k == n);
    assert(s.take(n) =~= channel);
    assert(s.skip(n + 2) =~= name);
}

/// Typing one character and erasing it with Backspace gives back the text
/// and the cursor.
pub proof fn law_backspace_undoes_typing(v: ComposerView, c: char)
    requires
        v.cursor <= v.text.len(),
    ensures
        backspaced(inserted(v, seq![c])) == (ComposerView { text: v.text, cursor: v.cursor, scroll_back: 0 }),
{
    let t = v.text.take(v.cursor as int) + seq![c] + v.text.skip(v.cursor as int);
    assert(t.remove(v.cursor as int) =~= v.text);
}

/// The model is never sent a stored message from before the latest summary,
/// and the user's input always comes last.
pub proof fn law_history_starts_at_latest_summary(
    prompt: Seq<char>,
    history: Seq<SessionMessage>,
    history_turns: nat,
    input: Seq<char>,
)
    ensures
        history_start(history, history_turns) >= last_summary(history),
        forall|i: int|
            0 <= i < history.len() && (#[trigger] history[i]).role == Role::Summary ==> i <= last_summary(history),
        opening_messages(prompt, history, history_turns, input).last() == ChatView::User(input),
    decreases history.len(),
{
    if history.len() > 0 {
        law_history_starts_at_latest_summary(prompt, history.drop_last(), history_turns, input);
        assert forall|i: int|
            0 <= i < history.len() && (#[trigger] history[i]).role == Role::Summary implies i <= last_summary(history) by {
            if i < history.len() - 1 && history.last().role != Role::Summary {
                assert(history.drop_last()[i] == history[i]);
            }
        }
    }
}

/// A compression keeps nothing but the system prompt.
pub proof fn law_compression_keeps_only_system(m: Seq<ChatView>)
    ensures
        forall|i: int| 0 <= i < system_only(m).len() ==> #[trigger] system_only(m)[i] is System,
        system_only(system_only(m)) == system_only(m),
    decreases m.len(),
{
    if m.len() > 0 {
        law_compression_keeps_only_system(m.drop_last());
        let s = system_only(m.drop_last());
        if m.last() is System {
            assert(s.push(m.last()).drop_last() =~= s);
        }
    }
}

} // verus!

verus! {

/// The stage after `k` tool answers.
pub open spec fn after_answers(s: Stage, k: nat) -> Stage
    decreases k,
{
    if k == 0 {
        s
    } else {
        answered(after_answers(s, (k - 1) as nat))
    }
}

/// A turn that called `n` tools waits for all `n` answers: after fewer it
/// still waits for the rest, and the last one hands it to the model.
pub proof fn law_tool_answers_are_counted(n: usize, k: nat)
    requires
        0 < k <= n,
    ensures
        k < n ==> after_answers(Stage::Tools { remaining: n }, k) == (Stage::Tools { remaining: (n - k) as usize }),
        k == n ==> after_answers(Stage::Tools { remaining: n }, k) == Stage::Model,
    decreases k,
{
    let s = Stage::Tools { remaining: n };
    assert(after_answers(s, 0) == s);
    if k > 1 {
        law_tool_answers_are_counted(n, (k - 1) as nat);
    }
    assert(after_answers(s, k) == answered(after_answers(s, (k - 1) as nat)));
}

/// An empty answer is asked for again once; a second empty answer fails
/// the turn.
pub proof fn law_empty_answer_retried_once(
    t: TurnView,
    content: Seq<char>,
    finish: Option<FinishReason>,
    r: Result<ModelStep, Seq<char>>,
    t2: TurnView,
)
    requires
        trim(content).len() == 0,
        finish_refusal(finish, 0).is_none(),
        after_model(t, content, Seq::empty(), finish, r, t2),
    ensures
        t.empty_model_retries == 0 ==> r == Ok::<ModelStep, Seq<char>>(ModelStep::Retry) && t2.empty_model_retries == 1,
        t.empty_model_retries >= 1 ==> r is Err,
{
}

} // verus!

verus! {

/// Browsing the history one entry back and one forward gives back what was
/// being typed, with the cursor at its end.
pub proof fn law_history_round_trip(p: crate::keys::PromptView)
    requires
        p.index is None,
        p.history.len() > 0,
    ensures
        navigated(navigated(p, true), false).composer == holding(p.composer.text),
        navigated(navigated(p, true), false).index is None,
        navigated(navigated(p, true), false).history == p.history,
{
}

/// A submitted input is the newest history entry, and is not stored twice
/// in a row.
pub proof fn law_submitted_input_is_newest(history: Seq<Seq<char>>, input: Seq<char>)
    ensures
        recorded(history, input).last() == input,
        recorded(history, input).len() <= history.len() + 1,
        recorded(recorded(history, input), input) == recorded(history, input),
{
}

} // verus!

verus! {

/// Reading a session right after adding a record to it (while it has room)
/// gives that record back at the end of what was there.
pub proof fn law_store_reads_back_a_push(
    m: Map<(Seq<char>, Seq<char>), LogView>,
    k: (Seq<char>, Seq<char>),
    x: RecordView,
)
    requires
        well_formed(log_of(m, k)),
        log_of(m, k).items.len() < 100,
    ensures
        window(log_of(m.insert(k, pushed(log_of(m, k), x)), k).items, log_of(m, k).items.len(), 1) == seq![x],
        window(log_of(m.insert(k, pushed(log_of(m, k), x)), k).items, 0, log_of(m, k).items.len()) == log_of(m, k).items,
{
    law_load_after_push(log_of(m, k), x);
    let v = log_of(m, k);
    assert(window(pushed(v, x).items, 0, v.items.len()) =~= v.items);
}


/// A streamed tool-call chunk whose index is that of a call already under
/// way extends that call: its name and its arguments each grow by the
/// chunk's piece, after what the call held; no record is added or dropped.
pub proof fn law_call_pieces_are_appended(list: Seq<RecordView>, c: ToolCallChunk, k: int)
    requires
        0 <= k < list.len(),
        list[k].item matches ItemView::Call { index, .. } && index == c.index,
        forall|j: int| 0 <= j < k ==> !((#[trigger] list[j]).item matches ItemView::Call { index, .. } && index == c.index),
    ensures
        merged_call(list, c).len() == list.len(),
        ({
            let old_item = list[k].item;
            let new_item = merged_call(list, c)[k].item;
            &&& new_item matches ItemView::Call { index: i2, name: n2, args: a2, .. }
            &&& old_item matches ItemView::Call { name: n1, args: a1, .. }
            &&& i2 == c.index
            &&& n2 == n1 + chunk_name(c)
            &&& a2 == a1 + chunk_args(c)
        }),
{
    lemma_first_fit(list, Slot::Call(c.index));
    let f = first_fit(list, Slot::Call(c.index));
    if f != k {
        if f < k {
            assert(fits(list[f], Slot::Call(c.index)));
        } else {
            assert(fits(list[k], Slot::Call(c.index)));
        }
    }
    assert(f == k);
}

/// The name pieces of a list of tool-call chunks, one after another.
pub open spec fn name_pieces(cs: Seq<ToolCallChunk>) -> Seq<char>
    decreases cs.len(),
{
    if cs.len() == 0 {
        Seq::empty()
    } else {
        name_pieces(cs.drop_last()) + chunk_name(cs.last())
    }
}

/// The argument pieces of a list of tool-call chunks, one after another.
pub open spec fn args_pieces(cs: Seq<ToolCallChunk>) -> Seq<char>
    decreases cs.len(),
{
    if cs.len() == 0 {
        Seq::empty()
    } else {
        args_pieces(cs.drop_last()) + chunk_args(cs.last())
    }
}

/// Chunks of one tool call (all of one index), streamed into no records,
/// become one call whose name and arguments are all their pieces, in order.
pub proof fn law_one_call_from_its_chunks(cs: Seq<ToolCallChunk>, index: u32)
    requires
        cs.len() > 0,
        forall|j: int| 0 <= j < cs.len() ==> (#[trigger] cs[j]).index == index,
    ensures
        merged_calls(Seq::empty(), cs).len() == 1,
        merged_calls(Seq::empty(), cs)[0].item matches ItemView::Call { index: i, name, args, .. }
            && i == index && name == name_pieces(cs) && args == args_pieces(cs),
    decreases cs.len(),
{
    let prev = cs.drop_last();
    let c = cs.last();
    if prev.len() == 0 {
        assert(merged_calls(Seq::empty(), prev) =~= Seq::<RecordView>::empty());
        lemma_first_fit(Seq::<RecordView>::empty(), Slot::Call(c.index));
        assert(name_pieces(prev) =~= Seq::<char>::empty());
        assert(args_pieces(prev) =~= Seq::<char>::empty());
        assert(name_pieces(cs) =~= chunk_name(c));
        assert(args_pieces(cs) =~= chunk_args(c));
    } else {
        assert forall|j: int| 0 <= j < prev.len() implies (#[trigger] prev[j]).index == index by {
            assert(prev[j] == cs[j]);
        }
        law_one_call_from_its_chunks(prev, index);
        law_call_pieces_are_appended(merged_calls(Seq::empty(), prev), c, 0);
    }
}

/// Every MCP tool gets its own bullet, after those of the tools before it:
/// the name the model calls it by, its description, then its server and
/// tool names.
pub proof fn law_mcp_bullet_carries_the_description(tools: Seq<McpToolInfo>, t: McpToolInfo)
    ensures
        mcp_text(tools.push(t)) == mcp_text(tools) + "- "@ + t.server@ + "__"@ + t.name@ + ": "@ + t.description@
            + " (server: "@ + t.server@ + ", tool: "@ + t.name@ + ")\n"@,
{
    let f = |x: McpToolInfo| mcp_line(x);
    assert(tools.push(t).map_values(f) =~= tools.map_values(f).push(mcp_line(t)));
    lemma_concat_all_push(tools.map_values(f), mcp_line(t));
    reveal_strlit("__");
    assert(t.spec_model_name() =~= t.server@ + "__"@ + t.name@);
    assert(mcp_text(tools.push(t)) =~= mcp_text(tools) + "- "@ + t.server@ + "__"@ + t.name@ + ": "@ + t.description@
        + " (server: "@ + t.server@ + ", tool: "@ + t.name@ + ")\n"@);
}

/// Delete removes the character at the cursor, keeping everything before
/// and after it and the cursor where it was; it is the same as moving right
/// and erasing with Backspace. At the end of the text it changes nothing.
pub proof fn law_delete_takes_the_character_at_the_cursor(v: ComposerView)
    requires
        v.cursor <= v.text.len(),
    ensures
        v.cursor < v.text.len() ==> deleted(v).text == v.text.take(v.cursor as int) + v.text.skip(v.cursor as int + 1)
            && deleted(v).cursor == v.cursor && deleted(v) == backspaced(moved_right(v)),
        v.cursor == v.text.len() ==> deleted(v) == v,
        v.cursor == 0 && v.text.len() > 0 ==> deleted(v).text == v.text.skip(1) && deleted(v).cursor == 0,
{
    if v.cursor < v.text.len() {
        assert(v.text.remove(v.cursor as int) =~= v.text.take(v.cursor as int) + v.text.skip(v.cursor as int + 1));
        assert(deleted(v) =~= backspaced(moved_right(v)));
    }
    if v.cursor == 0 && v.text.len() > 0 {
        assert(v.text.remove(0) =~= v.text.skip(1));
    }
}

/// A tool's output is added to the transcript as a tool message titled
/// with the agent, then `Completed` or `Running` (as the tool has finished
/// or not) and the tool's runtime.
pub proof fn law_tool_output_is_titled_by_its_state(u: UiView, o: SessionOutput)
    requires
        o.event.data is ToolOutput,
    ensures
        ({
            let ms = event_applied(u, o).messages;
            let label = if o.event.data->ToolOutput_completed {
                "Completed "@
            } else {
                "Running "@
            };
            &&& ms.len() > 0
            &&& ms.last().kind == MessageKind::Tool
            &&& ms.last().title == event_agent(u, o) + ": "@ + label + crate::screen::or_empty(o.runtime_id)
        }),
{
    reveal_strlit(": ");
    assert(seq![':', ' '] =~= ": "@);
}

/// Only a task under way asks for nothing. A finished task (completed or
/// failed) always goes back to its author's user and session, telling the
/// executor, the status and, at the end, the result.
pub proof fn law_finished_tasks_reach_their_author(task: AgentTask, r: Result<Option<TaskInput>, TaskInputError>)
    requires
        task_input_is(task, r),
    ensures
        (r == Ok::<Option<TaskInput>, TaskInputError>(None)) <==> task.status@ == "executing"@,
        task.status@ == "completed"@ || task.status@ == "failed"@ ==> (r matches Ok(Some(i))
            && i.user_id@ == task.author.user_id@ && i.session_id@ == task.author.session_id@
            && i.text@.len() >= task.result@.len()
            && i.text@.skip(i.text@.len() - task.result@.len()) == task.result@
            && i.text@.take(39) == "The task you posted has been completed."@),
{
    reveal_strlit("executing");
    reveal_strlit("create");
    reveal_strlit("completed");
    reveal_strlit("failed");
    reveal_strlit("The task you posted has been completed.");
    reveal_strlit("The task you posted has been completed. \nTask Details: ");
    assert("create"@.len() == 6 && "create"@[0] == 'c');
    assert("executing"@.len() == 9 && "executing"@[0] == 'e');
    assert("completed"@.len() == 9 && "completed"@[0] == 'c');
    assert("failed"@.len() == 6 && "failed"@[0] == 'f');
    assert("create"@ != "executing"@ && "create"@ != "completed"@ && "create"@ != "failed"@);
    assert("executing"@ != "completed"@ && "executing"@ != "failed"@);
    if task.status@ == "completed"@ || task.status@ == "failed"@ {
        let t = finished_task_text(task.content@, task.executor.agent_id@, task.status@, task.result@);
        let head = "The task you posted has been completed. \nTask Details: "@ + task.content@ + "\n---\nExecutor: "@
            + task.executor.agent_id@ + "\n Task Status: "@ + task.status@ + "\n Result:\n"@;
        assert(t =~= head + task.result@);
        assert(t.skip(t.len() - task.result@.len()) =~= task.result@);
        assert(t.take(39) =~= "The task you posted has been completed."@);
    }
}

} // verus!
