use fae_agent::composer::Composer;
use fae_agent::keys::{parse_steer, KeyCode, KeyModifiers, PromptAction, PromptEditor, RunningAction};
use fae_agent::screen::{RunState, TerminalUi};
use fae_agent::session_event::{SessionEvent, SessionEventData, SessionOutput};
use fae_agent::transcript::{
    append_stream_message, flush_child_stream_messages, finalize_assistant_message,
    heading_style, message_heading, plain_transcript, ChildStreams, Emphasis, Message, MessageKind,
    TermColor,
};

fn plain() -> KeyModifiers {
    KeyModifiers { control: false, shift: false, alt: false }
}

fn control() -> KeyModifiers {
    KeyModifiers { control: true, shift: false, alt: false }
}

#[test]
fn composer_edits_unicode_at_character_boundaries() {
    let mut composer = Composer::default();
    composer.insert("a你");
    composer.move_left();
    composer.backspace();
    composer.insert("b");

    assert_eq!(composer.text(), "b你");
    assert_eq!(composer.cursor(), 1);
}

#[test]
fn composer_scroll_follows_cursor_and_allows_scrolling_back() {
    let mut composer = Composer::default();
    composer.insert("one\ntwo\nthree\nfour\nfive\nsix\nseven\neight");

    assert_eq!(composer.vertical_scroll(40, 6), 2);

    composer.scroll_up(1, 2);
    assert_eq!(composer.vertical_scroll(40, 6), 1);

    composer.insert("!");
    assert_eq!(composer.vertical_scroll(40, 6), 2);
}

#[test]
fn steer_command_requires_fixed_prefix_and_content() {
    assert_eq!(
        parse_steer("/steer  use the new constraint"),
        Some("use the new constraint".to_string())
    );
    assert_eq!(parse_steer("/steer\nsecond line"), Some("second line".to_string()));
    assert_eq!(parse_steer("/steer"), None);
    assert_eq!(parse_steer("/steering elsewhere"), None);
    assert_eq!(parse_steer(" /steer too late"), None);
}

#[test]
fn terminal_event_marks_failed_state() {
    let event = SessionEvent::single_agent(
        1,
        "fae",
        SessionEventData::Failed {
            error: "boom".to_string(),
        },
    );
    assert!(event.is_terminal());
}

#[test]
fn streaming_chunks_merge_into_one_message() {
    let mut messages = Vec::new();
    append_stream_message(
        &mut messages,
        MessageKind::Assistant,
        "Assistant",
        "stream".to_string(),
        "hel".to_string(),
    );
    append_stream_message(
        &mut messages,
        MessageKind::Assistant,
        "Assistant",
        "stream".to_string(),
        "lo".to_string(),
    );

    assert_eq!(messages.len(), 1);
    assert_eq!(messages[0].content, "hello");
}

#[test]
fn child_assistant_streams_are_buffered_and_isolated_by_run() {
    let mut child_streams = ChildStreams::new();
    let mut messages = Vec::new();
    child_streams.buffer(
        "researcher:1".to_string(),
        MessageKind::Assistant,
        "researcher: Assistant".to_string(),
        "par".to_string(),
    );
    child_streams.buffer(
        "auditor:1".to_string(),
        MessageKind::Assistant,
        "auditor: Assistant".to_string(),
        "dra".to_string(),
    );
    child_streams.buffer(
        "researcher:1".to_string(),
        MessageKind::Assistant,
        "researcher: Assistant".to_string(),
        "tial".to_string(),
    );

    assert!(messages.is_empty());
    flush_child_stream_messages(
        &mut child_streams,
        &mut messages,
        "auditor:1",
        Some(("auditor: Assistant".to_string(), "draft".to_string())),
    );
    assert_eq!(messages.len(), 1);
    assert_eq!(messages[0].title, "auditor: Assistant");
    assert_eq!(messages[0].content, "draft");
    assert!(child_streams.contains_run("researcher:1"));

    flush_child_stream_messages(
        &mut child_streams,
        &mut messages,
        "researcher:1",
        Some(("researcher: Assistant".to_string(), "partial".to_string())),
    );
    assert_eq!(messages.len(), 2);
    assert_eq!(messages[1].title, "researcher: Assistant");
    assert_eq!(messages[1].content, "partial");
    assert!(messages.iter().all(|message| message.stream_id.is_none()));
}

#[test]
fn non_model_details_are_collapsed_by_default() {
    let tool = Message::new(
        MessageKind::Tool,
        "Called shell".to_string(),
        "{\"cmd\":\"pwd\"}".to_string(),
        None,
    );
    let assistant = Message::new(
        MessageKind::Assistant,
        "Assistant".to_string(),
        "Answer".to_string(),
        None,
    );

    assert!(tool.is_collapsible());
    assert!(!tool.expanded);
    assert!(!tool.shows_content());
    assert!(assistant.expanded);
    assert!(assistant.shows_content());
}

#[test]
fn collapsed_details_are_hidden_and_output_status_is_visible() {
    let message = Message::new(
        MessageKind::Reasoning,
        "Thinking".to_string(),
        "private details".to_string(),
        Some("stream".to_string()),
    );

    let heading = message_heading(&message, true);

    assert!(heading.contains("[+] - Thinking Outputting..."));
    assert!(!heading.contains("private details"));
    assert!(!message.shows_content());
}

#[test]
fn plain_transcript_preserves_visible_conversation() {
    let messages = vec![
        Message::new(MessageKind::User, "You".to_string(), "Question".to_string(), None),
        Message::new(
            MessageKind::Assistant,
            "Assistant".to_string(),
            "First line\nSecond line".to_string(),
            None,
        ),
    ];

    assert_eq!(
        plain_transcript(&messages),
        "> You\n Question\n\n* Assistant\n First line\n Second line"
    );
}

#[test]
fn error_is_expanded_and_preserved_in_plain_transcript() {
    let message = Message::new(
        MessageKind::Error,
        "ERROR".to_string(),
        "request failed\nconnection reset".to_string(),
        None,
    );

    assert!(message.expanded);
    assert!(message.shows_content());
    assert_eq!(
        plain_transcript(&vec![message]),
        "! ERROR\n request failed\n connection reset"
    );
}

#[test]
fn final_answer_replaces_streamed_text_and_renders_markdown() {
    let mut messages = Vec::new();
    append_stream_message(
        &mut messages,
        MessageKind::Assistant,
        "Assistant",
        "stream".to_string(),
        "**partial**".to_string(),
    );
    finalize_assistant_message(&mut messages, "Assistant", "**final**".to_string());

    assert_eq!(messages.len(), 1);
    assert_eq!(messages[0].content, "**final**");
    assert_eq!(messages[0].stream_id, None);
    assert!(messages[0].render_markdown);
}

#[test]
fn empty_final_answer_keeps_streamed_text() {
    let mut messages = Vec::new();
    append_stream_message(
        &mut messages,
        MessageKind::Assistant,
        "Assistant",
        "stream".to_string(),
        "kept".to_string(),
    );
    finalize_assistant_message(&mut messages, "Assistant", String::new());
    assert_eq!(messages[0].content, "kept");
    assert!(messages[0].render_markdown);

    let mut none = Vec::new();
    finalize_assistant_message(&mut none, "Assistant", String::new());
    assert!(none.is_empty());
}

#[test]
fn a_new_stream_closes_the_previous_one() {
    let mut messages = Vec::new();
    append_stream_message(&mut messages, MessageKind::Reasoning, "Thinking", "s".to_string(), "a".to_string());
    append_stream_message(&mut messages, MessageKind::Assistant, "Assistant", "s".to_string(), "b".to_string());
    assert_eq!(messages.len(), 2);
    assert_eq!(messages[0].stream_id, None);
    assert_eq!(messages[1].stream_id, Some("s".to_string()));
}

#[test]
fn plain_transcript_of_crlf_and_trailing_newline() {
    let messages = vec![Message::new(
        MessageKind::Notice,
        String::new(),
        "a\r\nb\n".to_string(),
        None,
    )];
    assert_eq!(plain_transcript(&messages), "-\n a\n b");
}

#[test]
fn prompt_history_walks_back_and_restores_the_draft() {
    let mut prompt = PromptEditor::new();
    for c in "first".chars() {
        prompt.handle_prompt_key(KeyCode::Char(c), plain());
    }
    assert_eq!(
        prompt.handle_prompt_key(KeyCode::Enter, plain()),
        Some(PromptAction::Submit("first".to_string()))
    );
    for c in " second ".chars() {
        prompt.handle_prompt_key(KeyCode::Char(c), plain());
    }
    assert_eq!(
        prompt.handle_prompt_key(KeyCode::Enter, plain()),
        Some(PromptAction::Submit("second".to_string()))
    );
    for c in "dra".chars() {
        prompt.handle_prompt_key(KeyCode::Char(c), plain());
    }
    prompt.handle_prompt_key(KeyCode::Up, plain());
    assert_eq!(prompt.composer().text(), "second");
    prompt.handle_prompt_key(KeyCode::Up, plain());
    assert_eq!(prompt.composer().text(), "first");
    prompt.handle_prompt_key(KeyCode::Up, plain());
    assert_eq!(prompt.composer().text(), "first");
    prompt.handle_prompt_key(KeyCode::Down, plain());
    assert_eq!(prompt.composer().text(), "second");
    prompt.handle_prompt_key(KeyCode::Down, plain());
    assert_eq!(prompt.composer().text(), "dra");
}

#[test]
fn ctrl_d_exits_only_on_an_empty_prompt() {
    let mut prompt = PromptEditor::new();
    prompt.handle_prompt_key(KeyCode::Char('x'), plain());
    assert_eq!(prompt.handle_prompt_key(KeyCode::Char('d'), control()), None);
    assert_eq!(prompt.composer().text(), "x");
    prompt.handle_prompt_key(KeyCode::Backspace, plain());
    assert_eq!(
        prompt.handle_prompt_key(KeyCode::Char('d'), control()),
        Some(PromptAction::Exit)
    );
    assert_eq!(
        prompt.handle_prompt_key(KeyCode::Char('c'), control()),
        Some(PromptAction::Exit)
    );
}

#[test]
fn running_keys_steer_or_refuse() {
    let mut prompt = PromptEditor::new();
    for c in "/steer go left".chars() {
        assert_eq!(prompt.handle_running_key(KeyCode::Char(c), plain(), true), RunningAction::Nothing);
    }
    assert_eq!(
        prompt.handle_running_key(KeyCode::Enter, plain(), true),
        RunningAction::Steer("go left".to_string())
    );
    for c in "hello".chars() {
        prompt.handle_running_key(KeyCode::Char(c), plain(), true);
    }
    assert_eq!(
        prompt.handle_running_key(KeyCode::Enter, plain(), true),
        RunningAction::InvalidSteer
    );
    assert_eq!(prompt.handle_running_key(KeyCode::Esc, plain(), false), RunningAction::Interrupt);
    prompt.handle_running_key(KeyCode::Char('z'), plain(), false);
    assert_eq!(prompt.composer().text(), "");
}

#[test]
fn page_keys_scroll_the_transcript() {
    let mut prompt = PromptEditor::new();
    prompt.handle_prompt_key(KeyCode::PageUp, plain());
    prompt.handle_prompt_key(KeyCode::PageUp, plain());
    assert_eq!(prompt.scroll_from_bottom(), 16);
    prompt.handle_prompt_key(KeyCode::PageDown, plain());
    assert_eq!(prompt.scroll_from_bottom(), 8);
}

fn output(data: SessionEventData) -> SessionOutput {
    SessionOutput {
        parament_plan_id: None,
        runtime_id: Some("shell".to_string()),
        agent_name: None,
        node_id: None,
        plan_id: None,
        event: SessionEvent::single_agent(1, "shell", data),
    }
}

#[test]
fn session_events_build_the_transcript() {
    let mut ui = TerminalUi::new("fae".to_string(), "session".to_string());
    assert!(!ui.apply_session_output(output(SessionEventData::ModelOutput {
        content: "Hel".to_string()
    })));
    ui.apply_session_output(output(SessionEventData::ModelOutput {
        content: "lo".to_string(),
    }));
    assert_eq!(ui.messages().len(), 1);
    assert_eq!(ui.messages()[0].title, "fae: Assistant");
    assert_eq!(ui.messages()[0].content, "Hello");
    assert_eq!(ui.messages()[0].stream_id, Some("::fae:shell".to_string()));

    ui.apply_session_output(output(SessionEventData::ToolCall {
        call_id: "1".to_string(),
        arguments: "{\"a\":1}".to_string(),
    }));
    assert_eq!(ui.messages().len(), 2);
    assert_eq!(ui.messages()[0].stream_id, None);
    assert_eq!(ui.messages()[1].title, "fae: Called shell");
    assert_eq!(ui.messages()[1].content, "{\n  \"a\": 1\n}");

    ui.apply_session_output(output(SessionEventData::CompressionStarted {
        estimated_tokens: 40000,
        trigger_compression_size: 32000,
    }));
    assert_eq!(ui.messages()[2].content, "Estimated tokens: 40000, trigger: 32000");

    assert!(ui.apply_session_output(output(SessionEventData::Completed {
        content: "Hello!".to_string()
    })));
    assert_eq!(ui.messages()[0].content, "Hello!");
    assert!(ui.messages()[0].render_markdown);
}

#[test]
fn repeated_errors_are_shown_once_and_fail_the_run() {
    let mut ui = TerminalUi::new("fae".to_string(), "session".to_string());
    ui.push_error("boom".to_string());
    ui.push_error("boom".to_string());
    assert_eq!(ui.messages().len(), 1);
    assert_eq!(ui.messages()[0].title, "ERROR");
    assert_eq!(ui.state(), RunState::Failed);
}

#[test]
fn system_messages_split_title_and_details() {
    let mut ui = TerminalUi::new("fae".to_string(), "session".to_string());
    ui.push_system("Steer rejected\nbusy".to_string());
    assert_eq!(ui.messages()[0].title, "fae: Steer rejected");
    assert_eq!(ui.messages()[0].content, "busy");
    ui.push_notice("Interrupted".to_string());
    assert_eq!(ui.messages()[1].title, "fae: Interrupted");
    assert_eq!(ui.messages()[1].content, "");
}

#[test]
fn nested_agent_output_waits_for_its_run() {
    let mut ui = TerminalUi::new("fae".to_string(), "session".to_string());
    let mut event = output(SessionEventData::ModelOutput { content: "sub".to_string() });
    event.parament_plan_id = Some("coordinator".to_string());
    event.agent_name = Some("researcher".to_string());
    ui.apply_session_output(event.clone());
    assert!(ui.messages().is_empty());
    let mut done = event.clone();
    done.event.data = SessionEventData::Completed { content: "final".to_string() };
    assert!(!ui.apply_session_output(done));
    assert_eq!(ui.messages().len(), 1);
    assert_eq!(ui.messages()[0].title, "researcher: Assistant");
    assert_eq!(ui.messages()[0].content, "final");
}

#[test]
fn only_the_agents_own_output_is_printed() {
    let own = output(SessionEventData::ModelOutput { content: "hello".to_string() });
    assert_eq!(own.printed_text(), Some("hello"));
    let mut nested = own.clone();
    nested.parament_plan_id = Some("parent".to_string());
    assert_eq!(nested.printed_text(), None);
    let reasoning = output(SessionEventData::ModelReasoning { content: "hmm".to_string() });
    assert_eq!(reasoning.printed_text(), None);
}

#[test]
fn notice_messages_use_blue_headings() {
    let message = Message::new(MessageKind::Notice, "Context compressed".to_string(), String::new(), None);

    let (color, emphasis) = heading_style(message.kind, true);

    assert_eq!(color, TermColor::Blue);
    assert_eq!(emphasis, Emphasis::Bold);
    assert_eq!(heading_style(MessageKind::Reasoning, true), (TermColor::DarkGray, Emphasis::Italic));
    assert_eq!(heading_style(MessageKind::Error, false), (TermColor::Reset, Emphasis::Bold));
}
