//! Slash commands typed at the agent prompt, and home-directory expansion of
//! command-line paths.
use crate::text::{
    char_is_whitespace, chars_eq, chars_start_with, chars_string, contains_ws, has_ws, is_ws,
    extend_chars, slice_range, starts_with, str_chars, trim, trim_chars,
};
use vstd::prelude::*;

verus! {

/// A `/session` command.
#[derive(Debug, Clone, PartialEq, Eq)]
pub enum SessionCommand {
    Help,
    New,
    Switch(String),
    Clean,
}

/// What a `/session` command means, over character sequences.
pub enum SessionParse {
    /// The input is not a session command at all.
    NotSession,
    /// A session command with arguments that are not understood.
    Invalid,
    Help,
    New,
    Clean,
    Switch(Seq<char>),
}

/// The message shown for a malformed `/session` command.
pub open spec fn invalid_session_message() -> Seq<char> {
    "Invalid session command\nUse `/session new`, `/session id=<id>`, or `/session clean`."@
}

/// The meaning of the trimmed arguments of `/session`.
pub open spec fn session_arguments(a: Seq<char>) -> SessionParse {
    if a == "-h"@ || a == "--help"@ {
        SessionParse::Help
    } else if a == "new"@ {
        SessionParse::New
    } else if a == "clean"@ {
        SessionParse::Clean
    } else if starts_with(a, "id="@) && a.len() > 3 && !has_ws(a.skip(3)) {
        SessionParse::Switch(a.skip(3))
    } else {
        SessionParse::Invalid
    }
}

/// The meaning of a prompt line as a session command.
///
/// `/clean` is a short form of `/session clean`; `/session` must be followed
/// by the end of the line or by whitespace.
pub open spec fn session_parse(s: Seq<char>) -> SessionParse {
    if s == "/clean"@ {
        SessionParse::Clean
    } else if !starts_with(s, "/session"@) {
        SessionParse::NotSession
    } else {
        let args = s.skip(8);
        if args.len() > 0 && !is_ws(args[0]) {
            SessionParse::NotSession
        } else {
            session_arguments(trim(args))
        }
    }
}

/// Whether a parse result agrees with the spec meaning.
pub open spec fn session_result_is(
    r: Option<Result<SessionCommand, String>>,
    p: SessionParse,
) -> bool {
    match p {
        SessionParse::NotSession => r is None,
        SessionParse::Invalid => r matches Some(Err(m)) && m@ == invalid_session_message(),
        SessionParse::Help => r == Some(Ok::<SessionCommand, String>(SessionCommand::Help)),
        SessionParse::New => r == Some(Ok::<SessionCommand, String>(SessionCommand::New)),
        SessionParse::Clean => r == Some(Ok::<SessionCommand, String>(SessionCommand::Clean)),
        SessionParse::Switch(id) => r matches Some(Ok(SessionCommand::Switch(x))) && x@ == id,
    }
}

fn parse_session_arguments(a: &[char]) -> (r: Result<SessionCommand, String>)
    ensures
        session_result_is(Some(r), session_arguments(a@)),
{
    let h = str_chars("-h");
    let help = str_chars("--help");
    let new = str_chars("new");
    let clean = str_chars("clean");
    let id = str_chars("id=");
    if chars_eq(a, &h) || chars_eq(a, &help) {
        Ok(SessionCommand::Help)
    } else if chars_eq(a, &new) {
        Ok(SessionCommand::New)
    } else if chars_eq(a, &clean) {
        Ok(SessionCommand::Clean)
    } else if chars_start_with(a, &id) && a.len() > 3 && !contains_ws(&slice_range(a, 3, a.len())) {
        Ok(SessionCommand::Switch(chars_string(&slice_range(a, 3, a.len()))))
    } else {
        Err(
            "Invalid session command\nUse `/session new`, `/session id=<id>`, or `/session clean`.".to_string(),
        )
    }
}

/// Parses a `/session` command (or its `/clean` short form).
///
/// `None` when the line is not a session command, `Some(Err(message))` when it
/// is one whose arguments are not understood.
pub fn parse_session_command(input: &str) -> (r: Option<Result<SessionCommand, String>>)
    ensures
        session_result_is(r, session_parse(input@)),
{
    let s = str_chars(input);
    let clean = str_chars("/clean");
    if chars_eq(&s, &clean) {
        return Some(Ok(SessionCommand::Clean));
    }
    let prefix = str_chars("/session");
    if !chars_start_with(&s, &prefix) {
        return None;
    }
    proof {
        reveal_strlit("/session");
    }
    let args = slice_range(&s, 8, s.len());
    assert(args@ =~= s@.skip(8));
    if args.len() > 0 && !char_is_whitespace(args[0]) {
        return None;
    }
    let trimmed = trim_chars(&args);
    Some(parse_session_arguments(&trimmed))
}


/// What the agent prompt does with a submitted line.
#[derive(Debug, Clone, PartialEq, Eq)]
pub enum PromptInput {
    /// `/exit` or `/quit`: leave the session.
    Exit,
    /// `/help`: show the list of commands.
    Help,
    /// `/status`: show the model and the session.
    Status,
    /// `/clear`: clear the transcript.
    ClearTranscript,
    /// A well-formed `/session` command.
    Session(SessionCommand),
    /// A system message to show (the help of `/session`, or why a `/session`
    /// command was refused).
    Notice(String),
    /// A slash command that is not known.
    Unknown,
    /// Ordinary input for the agent.
    Submit,
}

/// The text shown for `/help`.
pub open spec fn prompt_help_text() -> Seq<char> {
    "/help  show commands\n/status  show model and session\n/session new  start a new session\n/session id=<id>  switch sessions\n/session clean, /clean  clear current session history\n/clear  clear the transcript\n/steer <message>  supplement a running agent\n/exit  leave the session"@
}

/// The text shown for `/help`.
pub fn prompt_help() -> (r: String)
    ensures
        r@ == prompt_help_text(),
{
    String::from_str(
        "/help  show commands\n/status  show model and session\n/session new  start a new session\n/session id=<id>  switch sessions\n/session clean, /clean  clear current session history\n/clear  clear the transcript\n/steer <message>  supplement a running agent\n/exit  leave the session",
    )
}

/// The text shown for `/session -h`.
pub open spec fn session_help_text() -> Seq<char> {
    "Usage: /session <command>\n\nCommands:\n  new      start a new session\n  id=<id>  switch sessions\n  clean    clear current session history"@
}

/// What a prompt line means.
pub open spec fn prompt_input_is(r: PromptInput, s: Seq<char>) -> bool {
    if s == "/exit"@ || s == "/quit"@ {
        r == PromptInput::Exit
    } else if s == "/help"@ {
        r == PromptInput::Help
    } else if s == "/status"@ {
        r == PromptInput::Status
    } else if s == "/clear"@ {
        r == PromptInput::ClearTranscript
    } else {
        match session_parse(s) {
            SessionParse::NotSession => if s.len() > 0 && s[0] == '/' {
                r == PromptInput::Unknown
            } else {
                r == PromptInput::Submit
            },
            SessionParse::Invalid => r matches PromptInput::Notice(m) && m@
                == invalid_session_message(),
            SessionParse::Help => r matches PromptInput::Notice(m) && m@ == session_help_text(),
            SessionParse::New => r == PromptInput::Session(SessionCommand::New),
            SessionParse::Clean => r == PromptInput::Session(SessionCommand::Clean),
            SessionParse::Switch(id) => r matches PromptInput::Session(SessionCommand::Switch(x))
                && x@ == id,
        }
    }
}

/// Decides what a line submitted at the agent prompt asks for.
pub fn classify_prompt_input(input: &str) -> (r: PromptInput)
    ensures
        prompt_input_is(r, input@),
{
    let s = str_chars(input);
    if chars_eq(&s, &str_chars("/exit")) || chars_eq(&s, &str_chars("/quit")) {
        return PromptInput::Exit;
    }
    if chars_eq(&s, &str_chars("/help")) {
        return PromptInput::Help;
    }
    if chars_eq(&s, &str_chars("/status")) {
        return PromptInput::Status;
    }
    if chars_eq(&s, &str_chars("/clear")) {
        return PromptInput::ClearTranscript;
    }
    match parse_session_command(input) {
        None => {
            if s.len() > 0 && s[0] == '/' {
                PromptInput::Unknown
            } else {
                PromptInput::Submit
            }
        },
        Some(Ok(SessionCommand::Help)) => PromptInput::Notice(
            "Usage: /session <command>\n\nCommands:\n  new      start a new session\n  id=<id>  switch sessions\n  clean    clear current session history".to_string(),
        ),
        Some(Ok(command)) => PromptInput::Session(command),
        Some(Err(message)) => PromptInput::Notice(message),
    }
}

/// `Path::join`: `rest` replaces `base` when it is absolute, else it is
/// appended after a separator (none is added when `base` is empty or already
/// ends with one).
pub open spec fn path_join(base: Seq<char>, rest: Seq<char>) -> Seq<char> {
    if rest.len() > 0 && rest[0] == '/' {
        rest
    } else if base.len() == 0 || base.last() == '/' {
        base + rest
    } else {
        base + seq!['/'] + rest
    }
}

/// `Path::join` on strings.
pub fn join_path(base: &str, rest: &str) -> (r: String)
    ensures
        r@ == path_join(base@, rest@),
{
    let b = str_chars(base);
    let t = str_chars(rest);
    if t.len() > 0 && t[0] == '/' {
        return chars_string(&t);
    }
    let mut out = b.clone();
    if !(b.len() == 0 || b[b.len() - 1] == '/') {
        out.push('/');
    }
    extend_chars(&mut out, &t);
    chars_string(&out)
}

/// A command-line path with a leading `~` replaced by the home directory.
pub open spec fn expanded_home(path: Seq<char>, home: Option<Seq<char>>) -> Seq<char> {
    match home {
        None => path,
        Some(h) => if path == "~"@ {
            h
        } else if starts_with(path, "~/"@) {
            path_join(h, path.skip(2))
        } else {
            path
        },
    }
}

/// The view of an optional string slice.
pub open spec fn opt_str_view(o: Option<&str>) -> Option<Seq<char>> {
    match o {
        Some(s) => Some(s@),
        None => None,
    }
}

/// Expands `~` and `~/...` against the home directory, when one is known.
pub fn expand_home(path: &str, home: Option<&str>) -> (r: String)
    ensures
        r@ == expanded_home(path@, opt_str_view(home)),
{
    let Some(h) = home else {
        return path.to_string();
    };
    let p = str_chars(path);
    if chars_eq(&p, &str_chars("~")) {
        return h.to_string();
    }
    if chars_start_with(&p, &str_chars("~/")) {
        proof {
            reveal_strlit("~/");
        }
        let rest = chars_string(&slice_range(&p, 2, p.len()));
        assert(rest@ =~= p@.skip(2));
        return join_path(h, rest.as_str());
    }
    path.to_string()
}

} // verus!
