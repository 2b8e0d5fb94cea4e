use fae_agent::console::{
    append_user_input, session_reset_banner, spinner_frame, ChatConsole, ConsoleLine,
    EnterAction, InterruptAction, OutputCursor, RecordOutputCache, TextStyle,
};
use fae_agent::record::{
    stream_append, FunctionChunk, Record, RecordItem, StreamChoice, StreamChunk, ToolCall,
    ToolCallAccumulator, ToolCallChunk, ToolOut, UserContent,
};

fn text_choice(reasoning: Option<&str>, content: Option<&str>) -> StreamChoice {
    StreamChoice {
        reasoning_content: reasoning.map(|s| s.to_string()),
        content: content.map(|s| s.to_string()),
        tool_calls: None,
    }
}

#[test]
fn streamed_tool_call_chunks_are_assembled() {
    let mut call = ToolCallAccumulator::new();
    call.merge(ToolCallChunk {
        index: 0,
        id: Some("call-1".to_string()),
        function: Some(FunctionChunk {
            name: Some("read_".to_string()),
            arguments: Some("{\"path\":\"".to_string()),
        }),
    });
    call.merge(ToolCallChunk {
        index: 0,
        id: None,
        function: Some(FunctionChunk {
            name: Some("file".to_string()),
            arguments: Some("Cargo.toml\"}".to_string()),
        }),
    });

    let call = call.finish().unwrap();
    assert_eq!(call.id, "call-1");
    assert_eq!(call.name, "read_file");
    assert_eq!(call.arguments, "{\"path\":\"Cargo.toml\"}");
}

#[test]
fn unnamed_tool_call_is_refused() {
    let mut call = ToolCallAccumulator::new();
    call.merge(ToolCallChunk { index: 0, id: Some("x".to_string()), function: None });
    assert_eq!(call.finish().unwrap_err(), "streamed tool call is missing name");
    assert_eq!(
        ToolCallAccumulator::new().finish().unwrap_err(),
        "streamed tool call is missing id"
    );
}

#[test]
fn stream_chunks_merge_into_records() {
    let mut list = Vec::new();
    let first = stream_append(
        &mut list,
        StreamChunk { choices: vec![text_choice(Some("think"), Some("Hel"))] },
    );
    assert_eq!(first, Some(Record::from_item(RecordItem::ModelOutput("Hel".to_string()))));
    let second = stream_append(
        &mut list,
        StreamChunk { choices: vec![text_choice(Some(""), Some("lo"))] },
    );
    assert_eq!(second, Some(Record::from_item(RecordItem::ModelOutput("lo".to_string()))));
    assert_eq!(list.len(), 2);
    assert_eq!(list[0].item, RecordItem::ModelThought("think".to_string()));
    assert_eq!(list[1].item, RecordItem::ModelOutput("Hello".to_string()));

    let calls = StreamChoice {
        reasoning_content: None,
        content: None,
        tool_calls: Some(vec![
            ToolCallChunk {
                index: 0,
                id: Some("c1".to_string()),
                function: Some(FunctionChunk { name: Some("read".to_string()), arguments: Some("{".to_string()) }),
            },
            ToolCallChunk {
                index: 0,
                id: None,
                function: Some(FunctionChunk { name: None, arguments: Some("}".to_string()) }),
            },
        ]),
    };
    assert_eq!(stream_append(&mut list, StreamChunk { choices: vec![calls] }), None);
    assert_eq!(
        list[2].item,
        RecordItem::ToolCall(ToolCall {
            index: 0,
            tool_call_id: "c1".to_string(),
            tool_name: "read".to_string(),
            arguments: "{}".to_string()
        })
    );
}

#[test]
fn record_titles_and_contents() {
    let user = Record::from_user_input("hi".to_string());
    assert_eq!(user.title(), "User");
    assert_eq!(user.content(), "hi");
    assert!(user.is_remember());
    let call = Record::from_item(RecordItem::ToolCall(ToolCall {
        index: 1,
        tool_call_id: "id".to_string(),
        tool_name: "shell".to_string(),
        arguments: "{}".to_string(),
    }));
    assert_eq!(call.title(), "CallTool(shell)");
    assert_eq!(call.content(), "{}");
    assert!(call.is_tool_call());
    assert!(!call.is_remember());
    assert_eq!(call.try_to_tool_call().unwrap().tool_name, "shell");
    let mut out = ToolOut::new("id".to_string(), "shell".to_string());
    out.set_output("done".to_string());
    let out = Record::from_item(RecordItem::ToolOutput(out));
    assert_eq!(out.title(), "ToolOut(shell)");
    assert_eq!(out.content(), "done");
    assert_eq!(Record::waiting().title(), "Waiting");
    assert!(Record::waiting().is_wait());
    let parts = Record::from_item(RecordItem::UserInput(UserContent::Parts(vec!["{}".to_string()])));
    assert_eq!(parts.content(), "");
    let custom = Record::from_item(RecordItem::Custom("Note".to_string(), "body".to_string()));
    assert_eq!(custom.title(), "Note");
    assert_eq!(custom.content(), "body");
}

#[test]
fn user_lines_gather_into_one_message() {
    let mut input = String::new();
    append_user_input(&mut input, "one");
    append_user_input(&mut input, "two");
    assert_eq!(input, "one\ntwo");
}

#[test]
fn printed_output_names_each_new_speaker() {
    let mut cursor = OutputCursor::new();
    let mut out = Vec::new();
    cursor.print("main", "Thinking", "hmm", &mut out);
    cursor.print("main", "Thinking", "", &mut out);
    cursor.print("main", "CallTool(ls)", "{}", &mut out);
    cursor.print("main", "Waiting", "", &mut out);
    assert_eq!(
        out,
        vec![
            ConsoleLine::Header { agent_id: "main".to_string(), title_suffix: " [Thinking]".to_string() },
            ConsoleLine::Text { style: TextStyle::Dim, content: "hmm".to_string() },
            ConsoleLine::Header { agent_id: "main".to_string(), title_suffix: " [CallTool(ls)]".to_string() },
            ConsoleLine::Text { style: TextStyle::Tool, content: "{}".to_string() },
            ConsoleLine::Header { agent_id: "main".to_string(), title_suffix: String::new() },
        ]
    );
}

#[test]
fn sub_agent_output_is_held_until_its_title_changes() {
    let mut cache = RecordOutputCache::new();
    let mut cursor = OutputCursor::new();
    let mut out = Vec::new();
    cache.push("sub", "Outputting", "par", &mut cursor, &mut out);
    cache.push("sub", "Outputting", "tial", &mut cursor, &mut out);
    assert!(out.is_empty());
    cache.push("sub", "Thinking", "x", &mut cursor, &mut out);
    assert_eq!(
        out,
        vec![
            ConsoleLine::Header { agent_id: "sub".to_string(), title_suffix: " [Outputting]".to_string() },
            ConsoleLine::Text { style: TextStyle::Plain, content: "partial".to_string() },
        ]
    );
    let mut rest = Vec::new();
    cache.flush_all(&mut cursor, &mut rest);
    assert_eq!(rest.len(), 2);
}

#[test]
fn console_gathers_lines_and_sends_once() {
    let mut console = ChatConsole::new("main".to_string());
    let echo = console.on_line_break("  first  ");
    assert_eq!(echo.text, "first");
    assert!(echo.header);
    match console.on_enter("second") {
        EnterAction::Send { echo, message } => {
            assert_eq!(message, "first\nsecond");
            let echo = echo.unwrap();
            assert_eq!(echo.text, "second");
            assert!(!echo.header);
        }
        other => panic!("unexpected {other:?}"),
    }
    assert_eq!(console.on_enter("   "), EnterAction::Nothing);
    assert_eq!(console.on_enter("/exit now"), EnterAction::Quit);
    assert_eq!(console.on_interrupt(), InterruptAction::Quit);
}

#[test]
fn console_streams_and_aborts() {
    let mut console = ChatConsole::new("main".to_string());
    console.on_stream_started();
    assert!(console.stream_active());
    assert_eq!(console.current_title(), "Waiting");
    assert!(console.on_record("sub", "Outputting", "held").is_empty());
    let lines = console.on_record("main", "Outputting", "now");
    assert_eq!(lines.len(), 4);
    assert!(matches!(console.on_enter("more"), EnterAction::Gather(_)));
    match console.on_interrupt() {
        InterruptAction::Abort(text) => {
            assert_eq!(text, "\n[Session aborted. Starting a new session...]\n\n")
        }
        other => panic!("unexpected {other:?}"),
    }
    assert!(!console.stream_active());
    console.on_stream_started();
    let end = console.on_stream_end();
    assert_eq!(
        end,
        vec![ConsoleLine::Text { style: TextStyle::Plain, content: "\n\n".to_string() }]
    );
}

#[test]
fn reset_banner_is_centred() {
    assert_eq!(
        session_reset_banner(40),
        "\n---- Session reset successfully ----\n\n"
    );
    assert_eq!(session_reset_banner(0), "\n Session reset successfully \n\n");
    assert_eq!(spinner_frame(0), 0);
    assert_eq!(spinner_frame(21), 0);
    assert_eq!(spinner_frame(5), 2);
}
