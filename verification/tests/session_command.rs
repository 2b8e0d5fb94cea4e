use fae_agent::session_command::{
    classify_prompt_input, expand_home, join_path, parse_session_command, PromptInput,
    SessionCommand,
};

#[test]
fn parses_session_commands() {
    assert_eq!(
        parse_session_command("/session new"),
        Some(Ok(SessionCommand::New))
    );
    assert_eq!(
        parse_session_command("/session id=issue-42"),
        Some(Ok(SessionCommand::Switch("issue-42".to_string())))
    );
    assert_eq!(
        parse_session_command("/session clean"),
        Some(Ok(SessionCommand::Clean))
    );
    assert_eq!(parse_session_command("/clean"), Some(Ok(SessionCommand::Clean)));
    assert_eq!(
        parse_session_command("/session -h"),
        Some(Ok(SessionCommand::Help))
    );
    assert_eq!(
        parse_session_command("/session --help"),
        Some(Ok(SessionCommand::Help))
    );
}

#[test]
fn rejects_invalid_session_commands() {
    for input in [
        "/session",
        "/session id=",
        "/session id=one two",
        "/session clean now",
    ] {
        assert!(
            matches!(parse_session_command(input), Some(Err(_))),
            "{input}"
        );
    }
    assert_eq!(parse_session_command("/sessions"), None);
}

#[test]
fn invalid_session_command_explains_the_forms() {
    assert_eq!(
        parse_session_command("/session bogus"),
        Some(Err(
            "Invalid session command\nUse `/session new`, `/session id=<id>`, or `/session clean`."
                .to_string()
        ))
    );
}

#[test]
fn session_arguments_are_trimmed() {
    assert_eq!(
        parse_session_command("/session   new  "),
        Some(Ok(SessionCommand::New))
    );
    assert_eq!(
        parse_session_command("/session\tid=abc"),
        Some(Ok(SessionCommand::Switch("abc".to_string())))
    );
}

#[test]
fn prompt_lines_are_classified() {
    assert_eq!(classify_prompt_input("/exit"), PromptInput::Exit);
    assert_eq!(classify_prompt_input("/quit"), PromptInput::Exit);
    assert_eq!(classify_prompt_input("/help"), PromptInput::Help);
    assert_eq!(classify_prompt_input("/status"), PromptInput::Status);
    assert_eq!(classify_prompt_input("/clear"), PromptInput::ClearTranscript);
    assert_eq!(classify_prompt_input("/bogus"), PromptInput::Unknown);
    assert_eq!(classify_prompt_input("hello"), PromptInput::Submit);
    assert_eq!(
        classify_prompt_input("/session new"),
        PromptInput::Session(SessionCommand::New)
    );
    assert!(matches!(
        classify_prompt_input("/session -h"),
        PromptInput::Notice(text) if text.starts_with("Usage: /session <command>")
    ));
    assert!(matches!(
        classify_prompt_input("/session oops"),
        PromptInput::Notice(text) if text.starts_with("Invalid session command")
    ));
}

#[test]
fn home_is_expanded_only_at_the_start() {
    assert_eq!(expand_home("~", Some("/home/me")), "/home/me");
    assert_eq!(expand_home("~/work", Some("/home/me")), "/home/me/work");
    assert_eq!(expand_home("~/work", Some("/home/me/")), "/home/me/work");
    assert_eq!(expand_home("/tmp/~", Some("/home/me")), "/tmp/~");
    assert_eq!(expand_home("~other", Some("/home/me")), "~other");
    assert_eq!(expand_home("~/work", None), "~/work");
}

#[test]
fn paths_join_like_std() {
    assert_eq!(join_path("/a", "b"), "/a/b");
    assert_eq!(join_path("/a/", "b"), "/a/b");
    assert_eq!(join_path("/a", "/b"), "/b");
    assert_eq!(join_path("", "b"), "b");
}
