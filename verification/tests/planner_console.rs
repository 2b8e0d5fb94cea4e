use fae_agent::agent_config::{agent_metadata, initial_agent_config, prompt_path_of, sort_texts};
use fae_agent::agent_task::{AgentInfo, AgentTask};
use fae_agent::cli::{with_default_agent, workflow_input_json, workflow_input_source, WorkflowInput};
use fae_agent::console::{display_directory, paste_lines, welcome_banner};
use fae_agent::engine::{accept_callback, accept_kill, accept_task, Error, NonePlan, PlanningResult, RuntimeNull};
use fae_agent::planner::{
    agent_task_input, compaction_messages, parse_tool_channel, reasoning_effort, request_messages,
    route_tool_call, session_title, should_compact, task_session_id, timed_task_input, to_crlf,
    tool_success_message, ConsoleEcho, ReasoningEffort, RequestMessage, TaskInput, TaskInputError,
    ToolKind, ToolRoute,
};
use fae_agent::record::{ChatMsg, FunctionCall, Record, RecordItem, ResponseChoice, ToolCall, ToolOut, UserContent};
use fae_agent::screen::{composer_height, MouseKind, MouseOutcome, Mode, RunState, TerminalUi};
use fae_agent::mcp::McpQuery;
use fae_agent::tools::{agent_call_session_over_key, AgentCallSessionOver, SkillConfig, ToolConfig};
use fae_agent::transcript::{message_at_position, Message, MessageKind};

fn s(t: &str) -> String {
    t.to_string()
}

fn chars(rows: &[Vec<char>]) -> Vec<String> {
    rows.iter().map(|r| r.iter().collect()).collect()
}

fn task(status: &str) -> AgentTask {
    AgentTask {
        task_id: s("t1"),
        author: AgentInfo { agent_id: s("boss"), session_id: s("bs"), user_id: s("bu") },
        executor: AgentInfo { agent_id: s("worker"), session_id: s("ws"), user_id: s("wu") },
        status: s(status),
        content: s("write docs"),
        result: s("done"),
        update_timestamp: 0,
    }
}

#[test]
fn a_new_task_goes_to_its_executor() {
    let input = agent_task_input(&task("create")).unwrap().unwrap();
    assert_eq!(
        input,
        TaskInput {
            user_id: s("wu"),
            session_id: s("ws"),
            text: s("You receive a task from another agent, which you must complete and update the task status upon completion.\n-Task ID：t1\n-Task Details：\nwrite docs"),
        }
    );
}

#[test]
fn a_finished_task_goes_back_to_its_author() {
    let input = agent_task_input(&task("failed")).unwrap().unwrap();
    assert_eq!(input.user_id, "bu");
    assert_eq!(input.session_id, "bs");
    assert_eq!(
        input.text,
        "The task you posted has been completed. \nTask Details: write docs\n---\nExecutor: worker\n Task Status: failed\n Result:\ndone"
    );
    assert_eq!(agent_task_input(&task("executing")), Ok(None));
    assert_eq!(agent_task_input(&task("lost")), Err(TaskInputError::UnsupportedStatus(s("lost"))));
}

#[test]
fn task_sessions_and_titles() {
    assert_eq!(task_session_id(s("ws")), "ws");
    assert_eq!(task_session_id(s("")).chars().count(), 36);
    let fresh: Vec<char> = task_session_id(s("")).chars().collect();
    for (i, c) in fresh.iter().enumerate() {
        if i == 8 || i == 13 || i == 18 || i == 23 {
            assert_eq!(*c, '-');
        } else {
            assert!(c.is_ascii_digit() || ('a'..='f').contains(c));
        }
    }
    assert_eq!(fresh[14], '4');
    assert!(['8', '9', 'a', 'b'].contains(&fresh[19]));
    assert_eq!(session_title("hello world, how are you"), "hello worl");
    assert_eq!(session_title("hi"), "hi");
    assert!(timed_task_input("water plants").ends_with("Task Details：\nwater plants"));
}

#[test]
fn tool_names_split_at_the_first_double_underscore() {
    assert_eq!(parse_tool_channel("default__read_file"), (s("default"), s("read_file")));
    assert_eq!(parse_tool_channel("a__b__c"), (s("a"), s("b__c")));
    assert_eq!(parse_tool_channel("plain"), (s("default"), s("plain")));
    assert_eq!(parse_tool_channel("a_b"), (s("default"), s("a_b")));
}

#[test]
fn tool_calls_are_routed() {
    let tools = vec![s("default__read_file")];
    let mcp = vec![(s("maps"), s("search")), (s("other"), s("search"))];
    assert_eq!(
        route_tool_call(&tools, &mcp, "default__read_file"),
        Ok(ToolRoute { kind: ToolKind::Tool, channel: s("default"), name: s("read_file") })
    );
    assert_eq!(
        route_tool_call(&tools, &mcp, "search"),
        Ok(ToolRoute { kind: ToolKind::Mcp, channel: s("maps"), name: s("search") })
    );
    assert_eq!(route_tool_call(&tools, &mcp, "nope"), Err(s("nope")));
    assert_eq!(
        tool_success_message("ls", "ok"),
        "The tool[ls] executed successfully. msg=ok"
    );
}

#[test]
fn reasoning_levels_and_compaction() {
    assert_eq!(reasoning_effort(Some(1)), Some(ReasoningEffort::Minimal));
    assert_eq!(reasoning_effort(Some(4)), Some(ReasoningEffort::High));
    assert_eq!(reasoning_effort(Some(9)), None);
    assert_eq!(reasoning_effort(None), None);
    assert!(should_compact(100, Some(100)));
    assert!(!should_compact(99, Some(100)));
    assert!(!should_compact(1_000_000, None));
}

#[test]
fn requests_carry_what_records_tell_the_model() {
    let history = vec![
        Record::from_user_input(s("question")),
        Record { id: s(""), item: RecordItem::ModelThought(s("hmm")) },
        Record { id: s(""), item: RecordItem::ModelOutput(s("answer")) },
    ];
    let exec = vec![
        Record {
            id: s(""),
            item: RecordItem::ToolCall(ToolCall { index: 0, tool_call_id: s("c1"), tool_name: s("ls"), arguments: s("{}") }),
        },
        Record { id: s(""), item: RecordItem::ToolOutput(ToolOut { tool_call_id: s("c1"), tool_name: s("ls"), output: s("a.txt") }) },
        Record { id: s(""), item: RecordItem::Custom(s("Note"), s("x")) },
    ];
    let messages = request_messages("prompt", "info", &history, &exec);
    assert_eq!(
        messages,
        vec![
            RequestMessage::System(s("prompt\ninfo")),
            RequestMessage::User(UserContent::Text(s("question"))),
            RequestMessage::Assistant(s("answer")),
            RequestMessage::ToolCall { id: s("c1"), name: s("ls"), arguments: s("{}") },
            RequestMessage::Tool { tool_call_id: s("c1"), content: s("a.txt") },
        ]
    );
    let compact = compaction_messages(&history, &vec![]);
    assert_eq!(compact.len(), 4);
    assert!(matches!(&compact[0], RequestMessage::System(p) if p.starts_with("Please compress")));
    assert_eq!(
        compact[3],
        RequestMessage::User(UserContent::Text(s("The current context is too long; you must perform a compression process.")))
    );
}

#[test]
fn console_echo_prints_a_block_per_title() {
    let mut echo = ConsoleEcho::new(s("agent"), s("sess"));
    assert_eq!(echo.push("Thinking", "a"), None);
    assert_eq!(echo.push("Thinking", "b\nc"), None);
    assert_eq!(echo.push("Outputting", "done"), Some(s("\r\n---[agent:sess]-> Thinking:\r\nab\r\nc\r\n")));
    assert_eq!(echo.close(), Some(s("\r\n---[agent:sess]-> Outputting:\r\ndone\r\n")));
    assert_eq!(to_crlf("a\nb"), "a\r\nb");
}

#[test]
fn pasted_text_is_split_into_lines() {
    assert_eq!(chars(&paste_lines("one\r\ntwo\rthree\nfour")), vec![s("one"), s("two"), s("three"), s("four")]);
    assert_eq!(chars(&paste_lines("single")), vec![s("single")]);
    assert_eq!(chars(&paste_lines("end\n")), vec![s("end"), s("")]);
}

#[test]
fn welcome_banner_boxes_its_lines() {
    assert_eq!(display_directory("/home/me/work", Some("/home/me")), "~/work");
    assert_eq!(display_directory("/srv", Some("/home/me")), "/srv");
    assert_eq!(display_directory("/srv", None), "/srv");
    let rows = chars(&welcome_banner("1.0", "fae", "gpt", "~"));
    assert_eq!(rows.len(), 6);
    let width = ">_ Free Agent Engine CLI (v1.0)".chars().count();
    assert_eq!(rows[0], format!("╭{}╮", "─".repeat(width + 2)));
    assert_eq!(rows[1], format!("│ >_ Free Agent Engine CLI (v1.0) │"));
    assert_eq!(rows[2], format!("│ {} │", " ".repeat(width)));
    assert_eq!(rows[5], format!("╰{}╯", "─".repeat(width + 2)));
    assert!(rows.iter().all(|r| r.chars().count() == width + 4));
}

#[test]
fn clicking_a_collapsed_heading_finds_its_message() {
    let messages = vec![
        Message::new(MessageKind::User, s("You"), s("Question"), None),
        Message::new(MessageKind::Tool, s("Called shell"), s("details"), None),
    ];
    let heading_lines: Vec<u16> = messages.iter().map(|_| 1).collect();
    let content_lines: Vec<u16> = messages
        .iter()
        .map(|m| if m.shows_content() { m.content.lines().count() as u16 } else { 0 })
        .collect();

    assert_eq!(message_at_position(&heading_lines, &content_lines, 0, 3, 40, 6, 0, 1, 6), Some(1));
    assert_eq!(message_at_position(&heading_lines, &content_lines, 0, 3, 40, 6, 0, 1, 5), None);
    assert_eq!(message_at_position(&heading_lines, &content_lines, 0, 3, 40, 6, 0, 0, 6), None);
}

#[test]
fn mouse_wheel_scrolls_composer_or_transcript() {
    let mut ui = TerminalUi::new(s("agent"), s("session"));
    assert_eq!(ui.state(), RunState::Idle);
    assert_eq!(ui.handle_mouse(MouseKind::ScrollUp, 1, 1, Mode::Agent, 10, 12, 0), MouseOutcome::Done);
    assert_eq!(ui.input().scroll_from_bottom(), 3);
    ui.handle_mouse(MouseKind::ScrollDown, 1, 1, Mode::Agent, 10, 12, 0);
    assert_eq!(ui.input().scroll_from_bottom(), 0);
    ui.handle_mouse(MouseKind::ScrollUp, 1, 11, Mode::Agent, 10, 12, 2);
    assert_eq!(ui.input().scroll_from_bottom(), 0);
    assert_eq!(
        ui.handle_mouse(MouseKind::LeftDown, 4, 5, Mode::Agent, 10, 12, 0),
        MouseOutcome::Click { column: 4, row: 5 }
    );
    assert_eq!(composer_height(0), 3);
    assert_eq!(composer_height(3), 5);
    assert_eq!(composer_height(40), 8);
}

#[test]
fn runtimes_take_only_their_tasks() {
    assert_eq!(accept_task("rt", "rt", true, false), Ok(()));
    assert_eq!(accept_task("other", "rt", true, false), Err(Error::RuntimeNoSupport));
    assert_eq!(accept_task("rt", "rt", false, false), Err(Error::RuntimeNoSupport));
    assert_eq!(accept_task("rt", "rt", true, true), Err(Error::ContextAborted));
    assert_eq!(accept_callback("rt", "rt"), Ok(()));
    assert_eq!(accept_callback("x", "rt"), Err(Error::RuntimeNoSupport));
    assert_eq!(accept_kill(true, "rt", "rt"), Ok(()));
    assert_eq!(accept_kill(false, "rt", "rt"), Err(Error::RuntimeNoSupport));
    let end: PlanningResult<u8, u8> = PlanningResult::End(None);
    let tasks: PlanningResult<u8, u8> = PlanningResult::Tasks(vec![1]);
    assert!(end.is_end());
    assert!(!tasks.is_end());
}

#[test]
fn none_plan_ends_at_once() {
    let mut plan = NonePlan;
    assert_eq!(plan.id(), "");
    let first: PlanningResult<u8, u8> = plan.init();
    assert!(matches!(first, PlanningResult::End(None)));
    let later: PlanningResult<u8, u8> = plan.next(7u32);
    assert!(matches!(later, PlanningResult::End(None)));
}

#[test]
fn null_runtime_refuses_every_task() {
    let rt = RuntimeNull;
    assert_eq!(rt.id(), "null");
    assert_eq!(rt.spawn(&vec![1u8, 2]), Err(Error::RuntimeNoSupport));
    let ran: Result<u8, Error> = rt.exec(&"task");
    assert_eq!(ran, Err(Error::RuntimeNoSupport));
    assert_eq!(rt.kill("null", "t1"), Err(Error::RuntimeNoSupport));
    assert_eq!(rt.exit(), Ok(()));
}

#[test]
fn hook_keys_and_agent_metadata() {
    assert_eq!(agent_call_session_over_key("123", "456"), "agent_call_session_over_123:456");
    assert_eq!(prompt_path_of("/a/agent", "system.txt"), "/a/agent/system.txt");
    assert_eq!(prompt_path_of("/a/agent", "/etc/p.txt"), "/etc/p.txt");
    assert_eq!(
        agent_metadata("n", "i", "/c.json", "/p.txt"),
        "\n## Your Agent Metadata:\n - your Agent Name: `n`\n - your Agent Id: `i`\n - your model,tools,skill,mcp_servers,sub_agents config file path: /c.json\n - your enactment prompt file path: /p.txt"
    );
}

#[test]
fn defaults_to_agent_mode() {
    let args = with_default_agent(vec![s("fae"), s("review"), s("this")]);
    assert_eq!(args, vec![s("fae"), s("agent"), s("review"), s("this")]);
}

#[test]
fn parses_workflow_input() {
    let args = vec![
        s("fae"),
        s("--color"),
        s("never"),
        s("workflow"),
        s("release"),
        s("--input"),
        s(r#"{"tag":"v1"}"#),
    ];
    assert_eq!(with_default_agent(args.clone()), args);
    assert_eq!(workflow_input_source(r#"{"tag":"v1"}"#), Ok(WorkflowInput::Inline(s(r#"{"tag":"v1"}"#))));
}

#[test]
fn init_writes_a_complete_configuration() {
    assert_eq!(
        sort_texts(vec![s("weather"), s("fae"), s("drawio"), s("Zeta"), s("fa")]),
        vec![s("Zeta"), s("drawio"), s("fa"), s("fae"), s("weather")]
    );
    let config = initial_agent_config("coder", "gpt-4o", vec![s("read_file")], vec![s("b"), s("a")]);
    assert_eq!(config.agent.name, "coder");
    assert_eq!(config.agent.user_id, "local");
    assert_eq!(config.agent.session_id, "default");
    assert_eq!(config.model.model, "gpt-4o");
    assert_eq!(config.model.history_turns, 20);
    assert_eq!(config.model.max_completion_tokens, Some(4096));
    assert_eq!(config.model.max_tool_iterations, 8);
    assert_eq!(config.tools, vec![s("read_file")]);
    assert_eq!(config.skills, vec![s("a"), s("b")]);
}

#[test]
fn chat_messages_become_records() {
    let records = Record::from_chat_msg(ChatMsg::User(UserContent::Text(s("hi"))));
    assert_eq!(records.len(), 1);
    assert_eq!(records[0].id.chars().count(), 36);
    assert_eq!(records[0].item, RecordItem::UserInput(UserContent::Text(s("hi"))));

    let records = Record::from_chat_msg(ChatMsg::Response(vec![ResponseChoice {
        index: 2,
        content: Some(s("text")),
        tool_calls: vec![FunctionCall { id: s("c"), name: s("ls"), arguments: s("{}") }],
    }]));
    assert_eq!(
        records,
        vec![
            Record { id: s(""), item: RecordItem::ModelOutput(s("text")) },
            Record {
                id: s(""),
                item: RecordItem::ToolCall(ToolCall { index: 2, tool_call_id: s("c"), tool_name: s("ls"), arguments: s("{}") }),
            },
        ]
    );
    let records = Record::from_chat_msg(ChatMsg::Custom(s("Compacting"), s("started")));
    assert_eq!(records, vec![Record { id: s(""), item: RecordItem::Custom(s("Compacting"), s("started")) }]);
}

#[test]
fn workflow_input_must_be_json() {
    assert_eq!(workflow_input_json(s(r#"{"enabled":true}"#), "--input"), Ok(s(r#"{"enabled":true}"#)));
    assert_eq!(workflow_input_json(s(" [1, 2] "), "--input"), Ok(s(" [1, 2] ")));
    assert_eq!(
        workflow_input_json(s("{enabled: true}"), "--input"),
        Err(s("parse workflow JSON from --input"))
    );
    assert_eq!(
        workflow_input_json(s(""), "/tmp/in.json"),
        Err(s("parse workflow JSON from /tmp/in.json"))
    );
}

#[test]
fn configs_convert_from_names() {
    let t = ToolConfig::from(s("read_file"));
    assert_eq!(t, ToolConfig::new("read_file"));
    assert_eq!(t.channel, "default");
    let k = SkillConfig::from(s("weather"));
    assert_eq!(k, SkillConfig::new("weather"));
    assert_eq!(McpQuery::from(s("maps")), McpQuery::new("maps"));
    assert_eq!(McpQuery::from("maps").server, "maps");
}

#[test]
fn sub_tasks_are_counted_from_none() {
    let mut over = AgentCallSessionOver::default();
    assert_eq!(over.sub_task_count, 0);
    assert!(!over.get_have_sub_task());
    over.add_sub_task();
    over.add_sub_task();
    assert!(over.get_have_sub_task());
    assert_eq!(over.sub_task_count, 2);
}

#[test]
fn tasks_are_stamped_with_the_clock() {
    let mut t = task("executing");
    t.stamp(Some(1_700_000_000));
    assert_eq!(t.update_timestamp, 1_700_000_000);
    assert_eq!(t.content, "write docs");
    t.stamp(None);
    assert_eq!(t.update_timestamp, 0);
    t.update_timestamp();
    assert!(t.update_timestamp > 1_600_000_000);
    assert_eq!(t.status, "executing");
}
