use fae_agent::record::FunctionCall;
use fae_agent::turn::{
    check_sub_agent_call, check_tool_routes, plan_setup, check_workflow_call, compression_needed, estimated_tokens, prepare_messages,
    sub_agent_tool_definition, unavailable_tool, workflow_tool_definition, CallStep, ChatMessage, Completion,
    FinishReason, ModelStep, Role, SessionMessage, SessionTurns, Stage, TurnPlan,
};
use serde_json::Value;

fn s(t: &str) -> String {
    t.to_string()
}

fn call(id: &str, name: &str, args: &str) -> FunctionCall {
    FunctionCall { id: s(id), name: s(name), arguments: s(args) }
}

fn history() -> Vec<SessionMessage> {
    vec![
        SessionMessage::user(s("discarded question")),
        SessionMessage::assistant(s("discarded answer")),
        SessionMessage::summary(s("compressed history")),
        SessionMessage::assistant(s("answer after summary")),
    ]
}

#[test]
fn history_loading_stops_at_latest_summary() {
    let mut plan = TurnPlan::new(s("system prompt"), s("latest question"), 20, 8);
    plan.on_history(&history());

    let serialized = format!("{:?}", plan.messages());
    assert!(!serialized.contains("discarded question"));
    assert!(!serialized.contains("discarded answer"));
    assert!(serialized.contains("compressed history"));
    assert!(serialized.contains("answer after summary"));
    assert!(serialized.contains("latest question"));
}

#[test]
fn opening_messages_follow_prompt_history_and_input() {
    let messages = prepare_messages("be brief", &history(), 20, "next");
    assert_eq!(
        messages,
        vec![
            ChatMessage::System(s("be brief")),
            ChatMessage::User(s("Compressed conversation context:\ncompressed history")),
            ChatMessage::Assistant { content: Some(s("answer after summary")), tool_calls: vec![] },
            ChatMessage::User(s("next")),
        ]
    );
}

#[test]
fn opening_messages_keep_only_the_last_turns() {
    let h = vec![
        SessionMessage::user(s("q1")),
        SessionMessage::assistant(s("a1")),
        SessionMessage::user(s("q2")),
        SessionMessage::assistant(s("a2")),
    ];
    let messages = prepare_messages("", &h, 1, "q3");
    assert_eq!(
        messages,
        vec![
            ChatMessage::User(s("q2")),
            ChatMessage::Assistant { content: Some(s("a2")), tool_calls: vec![] },
            ChatMessage::User(s("q3")),
        ]
    );
}

#[test]
fn answer_is_recorded_and_stored() {
    let mut plan = TurnPlan::new(s("p"), s("hi"), 10, 8);
    plan.on_history(&vec![]);
    let step = plan.on_model(s("hello"), vec![], Some(FinishReason::Stop)).unwrap();
    assert_eq!(step, ModelStep::Answer);
    assert_eq!(plan.final_output(), "hello");
    assert_eq!(plan.unsaved(), &vec![SessionMessage::user(s("hi")), SessionMessage::assistant(s("hello"))]);
    plan.on_saved();
    assert!(plan.unsaved().is_empty());
}

#[test]
fn empty_answer_is_retried_once_then_fails() {
    let mut plan = TurnPlan::new(s("p"), s("hi"), 10, 8);
    plan.on_history(&vec![]);
    assert_eq!(plan.on_model(s("  "), vec![], None).unwrap(), ModelStep::Retry);
    assert_eq!(
        plan.messages().last(),
        Some(&ChatMessage::User(s(
            "Your previous response ended without assistant output. Continue the task from the available context and return either a tool call or a final answer."
        )))
    );
    let error = plan.on_model(s(""), vec![], Some(FinishReason::Stop)).unwrap_err();
    assert_eq!(error, "model completed without assistant output after 1 retry (finish_reason: Some(Stop))");
}

#[test]
fn finish_reasons_that_end_the_turn() {
    let mut plan = TurnPlan::new(s("p"), s("hi"), 10, 8);
    assert!(plan.on_model(s("x"), vec![], Some(FinishReason::Length)).unwrap_err().contains("max_completion_tokens"));
    assert_eq!(
        plan.on_model(s("x"), vec![], Some(FinishReason::ContentFilter)).unwrap_err(),
        "model output was blocked by the content filter"
    );
    assert_eq!(
        plan.on_model(s("x"), vec![], Some(FinishReason::FunctionCall)).unwrap_err(),
        "legacy model function calls are not supported"
    );
    assert_eq!(
        plan.on_model(s("x"), vec![], Some(FinishReason::ToolCalls)).unwrap_err(),
        "model stopped for tool calls but returned no tool calls"
    );
}

#[test]
fn tool_answers_are_counted_before_the_model_is_called() {
    let mut plan = TurnPlan::new(s("p"), s("hi"), 10, 8);
    plan.on_history(&vec![]);
    let step = plan
        .on_model(s(""), vec![call("c1", "read_file", "{}"), call("c2", "list", "{}")], Some(FinishReason::ToolCalls))
        .unwrap();
    assert_eq!(step, ModelStep::CallTools);
    assert_eq!(plan.stage(), Stage::Tools { remaining: 2 });
    assert_eq!(plan.finish_tool_call(s("c1"), s("one")), Ok(false));
    assert_eq!(plan.stage(), Stage::Tools { remaining: 1 });
    assert_eq!(plan.finish_tool_call(s("c2"), s("two")), Ok(true));
    assert_eq!(plan.stage(), Stage::Model);
    assert_eq!(
        plan.messages().last(),
        Some(&ChatMessage::Tool { call_id: s("c2"), content: s("two") })
    );
    assert_eq!(
        plan.finish_tool_call(s("c3"), s("three")),
        Err(s("received tool response outside tool stage"))
    );
}

#[test]
fn tool_iterations_are_limited() {
    let mut plan = TurnPlan::new(s("p"), s("hi"), 10, 1);
    plan.on_history(&vec![]);
    plan.on_model(s(""), vec![call("c1", "t", "{}")], None).unwrap();
    plan.finish_tool_call(s("c1"), s("ok")).unwrap();
    let error = plan.on_model(s(""), vec![call("c2", "t", "{}")], None).unwrap_err();
    assert_eq!(error, "model exceeded max_tool_iterations (1)");
}

#[test]
fn compression_keeps_the_system_prompt_and_the_summary() {
    let mut plan = TurnPlan::new(s("sys"), s("hi"), 10, 8);
    plan.on_history(&history());
    assert_eq!(plan.apply_compression("   "), Err(s("compression runtime returned empty content")));
    plan.apply_compression("  short summary \n").unwrap();
    assert_eq!(
        plan.messages(),
        &vec![
            ChatMessage::System(s("sys")),
            ChatMessage::User(s("Compressed conversation context:\nshort summary")),
        ]
    );
    assert_eq!(plan.unsaved().last(), Some(&SessionMessage { role: Role::Summary, content: s("short summary") }));
}

#[test]
fn user_inputs_join_the_turn() {
    let mut plan = TurnPlan::new(s(""), s("hi"), 10, 8);
    plan.append_user_inputs(vec![s("more"), s("and more")]);
    assert_eq!(plan.messages(), &vec![ChatMessage::User(s("more")), ChatMessage::User(s("and more"))]);
    assert_eq!(plan.unsaved().len(), 3);
    let without = plan.without_system();
    assert_eq!(without.len(), 2);
}

#[test]
fn sub_agent_tool_restricts_calls_to_configured_agents() {
    let definition = sub_agent_tool_definition(&[s("researcher"), s("auditor")]);
    let parameters: Value = serde_json::from_str(&definition.parameters).unwrap();
    let expected: Value = serde_json::from_str(r#"["researcher", "auditor"]"#).unwrap();

    assert_eq!(definition.name, "agent");
    assert_eq!(parameters["properties"]["agent_id"]["enum"], expected);
    assert!(definition.strict);
}

#[test]
fn workflow_tool_restricts_calls_to_configured_workflows() {
    let definition = workflow_tool_definition(&[s("release-review"), s("deploy")]);
    let parameters: Value = serde_json::from_str(&definition.parameters).unwrap();
    let expected: Value = serde_json::from_str(r#"["release-review", "deploy"]"#).unwrap();

    assert_eq!(definition.name, "workflow");
    assert_eq!(parameters["properties"]["workflow_id"]["enum"], expected);
    assert!(definition.strict);
}

#[test]
fn tool_definitions_are_complete_json_schemas() {
    let definition = sub_agent_tool_definition(&[s("a\"b")]);
    let parameters: Value = serde_json::from_str(&definition.parameters).unwrap();
    let expected: Value = serde_json::from_str(
        r#"{"type":"object","properties":{"agent_id":{"type":"string","enum":["a\"b"]},"input":{"type":"string","description":"The complete task and context for the sub-agent."}},"required":["agent_id","input"],"additionalProperties":false}"#,
    )
    .unwrap();
    assert_eq!(parameters, expected);
    let empty = workflow_tool_definition(&[]);
    let parameters: Value = serde_json::from_str(&empty.parameters).unwrap();
    assert_eq!(parameters["required"], serde_json::from_str::<Value>(r#"["workflow_id"]"#).unwrap());
}

#[test]
fn tool_calls_are_checked() {
    assert_eq!(unavailable_tool("x"), "model requested unavailable tool `x`");
    let agents = [s("researcher")];
    assert_eq!(check_sub_agent_call(&agents, "researcher", "do it"), Ok(()));
    assert_eq!(check_sub_agent_call(&agents, "researcher", "  "), Err(s("sub-agent input cannot be empty")));
    assert_eq!(check_sub_agent_call(&agents, "other", "do it"), Err(s("sub-agent `other` is not configured")));
    assert_eq!(check_workflow_call(&[s("deploy")], "deploy"), Ok(()));
    assert_eq!(check_workflow_call(&[s("deploy")], "x"), Err(s("workflow `x` is not configured")));
}

#[test]
fn request_size_is_estimated_in_quarters() {
    assert_eq!(estimated_tokens(0), 1);
    assert_eq!(estimated_tokens(1), 1);
    assert_eq!(estimated_tokens(8), 2);
    assert_eq!(estimated_tokens(9), 3);
    assert!(compression_needed(32_001, 32_000));
    assert!(!compression_needed(32_000, 32_000));
}

#[test]
fn session_rejects_calls_before_binding() {
    let mut turns = SessionTurns::new();
    assert_eq!(turns.call("hello", false), Err(s("single-agent session is not bound to an engine")));
    assert_eq!(turns.call("   ", false), Err(s("input text cannot be empty")));
}

#[test]
fn new_chat_cancels_the_running_turn_first() {
    let mut turns = SessionTurns::new();
    assert_eq!(turns.bind(), Ok(1));
    assert_eq!(turns.bind(), Err(s("single-agent session is already bound")));
    assert_eq!(turns.call("more", true), Ok(CallStep::Queued));
    assert_eq!(turns.call("new", false), Ok(CallStep::Wait));
    assert!(turns.cancel_requested());
    assert!(turns.take_pending_inputs().is_empty());
    assert_eq!(turns.call("late", true), Err(s("there is no active conversation to supplement")));
    turns.finish_turn();
    assert_eq!(turns.call("new", false), Ok(CallStep::Start(2)));
}

#[test]
fn supplements_wait_for_the_turn() {
    let mut turns = SessionTurns::new();
    turns.bind().unwrap();
    turns.call("a", true).unwrap();
    turns.call("b", true).unwrap();
    assert_eq!(turns.finish_or_take_pending(), Some(vec![s("a"), s("b")]));
    assert_eq!(turns.finish_or_take_pending(), None);
    assert_eq!(turns.call("c", true), Err(s("there is no active conversation to supplement")));
    turns.abort_turn();
    assert_eq!(turns.activate_turn(), Ok(2));
    assert_eq!(turns.activate_turn(), Err(s("a turn is already running")));
}

#[test]
fn the_first_outcome_stands() {
    let mut c: Completion<String> = Completion::new();
    assert!(c.complete(s("first")));
    assert!(!c.complete(s("second")));
    assert_eq!(c.result, Some(s("first")));
}

#[test]
fn plans_have_unique_ids() {
    let first = fae_agent::turn::new_plan_id();
    let second = fae_agent::turn::new_plan_id();

    assert!(first.starts_with("single_agent-"));
    assert!(second.starts_with("single_agent-"));
    assert_ne!(first, second);
}

#[test]
fn turn_tasks_are_numbered() {
    assert_eq!(fae_agent::turn::turn_task_id(7, 12), "single-agent-7-12");
    assert_eq!(fae_agent::turn::turn_plan_task_id(3), "single-agent-turn-3");
}

#[test]
fn model_config_uses_default_limits() {
    assert_eq!(fae_agent::agent_config::default_trigger_compression_size(), 32_000);
    assert_eq!(fae_agent::agent_config::default_max_completion_tokens(), Some(32_000));
    assert_eq!(fae_agent::agent_config::default_max_tool_iterations(), 128);
}

#[test]
fn plan_setup_checks_input_recursion_and_session() {
    let tools = vec![s("read_file"), s("agent"), s("write_file"), s("workflow")];
    let setup = plan_setup("hi", "coder", &vec![s("boss")], "default", None, &tools).unwrap();
    assert_eq!(setup.ancestors, vec![s("boss"), s("coder")]);
    assert_eq!(setup.session_id, "default");
    assert_eq!(setup.tools, vec![s("read_file"), s("write_file")]);
    let other = plan_setup("hi", "coder", &vec![], "default", Some("issue-42"), &tools).unwrap();
    assert_eq!(other.session_id, "issue-42");
    assert_eq!(plan_setup("  ", "coder", &vec![], "default", None, &tools), Err(s("input cannot be empty")));
    assert_eq!(
        plan_setup("hi", "coder", &vec![s("coder")], "default", None, &tools),
        Err(s("recursive sub-agent call detected for `coder`"))
    );
    assert_eq!(
        plan_setup("hi", "coder", &vec![], "default", Some(" "), &tools),
        Err(s("session_id cannot be empty"))
    );
}

#[test]
fn tool_routes_are_unique() {
    let tools = vec![s("read_file"), s("write_file")];
    assert_eq!(check_tool_routes(&tools, &vec![s("maps__find")], true, true), Ok(()));
    assert_eq!(
        check_tool_routes(&tools, &vec![s("maps__find"), s("read_file")], false, false),
        Err(s("multiple configured tools expose the model name `read_file`"))
    );
    assert_eq!(
        check_tool_routes(&tools, &vec![s("a"), s("a")], false, false),
        Err(s("multiple configured tools expose the model name `a`"))
    );
    assert_eq!(
        check_tool_routes(&tools, &vec![s("agent")], true, false),
        Err(s("configured tool name `agent` conflicts with the sub-agent tool"))
    );
    assert_eq!(check_tool_routes(&tools, &vec![s("agent")], false, true), Ok(()));
    assert_eq!(
        check_tool_routes(&vec![s("workflow")], &vec![], true, true),
        Err(s("configured tool name `workflow` conflicts with the workflow tool"))
    );
}
