//! Command-line arguments of the terminal client: what they hold, how a
//! bare invocation defaults to the agent command, where workflow input comes
//! from, and whether output is coloured.
use crate::text::{chars_eq, starts_with, str_chars, chars_start_with};
use vstd::prelude::*;
use vstd::string::StringExecFns;

verus! {

/// When output is coloured.
#[derive(Debug, Clone, Copy, PartialEq, Eq, Structural)]
pub enum ColorChoice {
    /// Unless `NO_COLOR` is set.
    Auto,
    Always,
    Never,
}

/// Whether to colour output, given whether `NO_COLOR` is set.
pub fn use_color(choice: ColorChoice, no_color_set: bool) -> (b: bool)
    ensures
        b == match choice {
            ColorChoice::Auto => !no_color_set,
            ColorChoice::Always => true,
            ColorChoice::Never => false,
        },
{
    match choice {
        ColorChoice::Auto => !no_color_set,
        ColorChoice::Always => true,
        ColorChoice::Never => false,
    }
}

/// Arguments of an interactive agent session.
#[derive(Debug, Clone, PartialEq, Eq)]
pub struct AgentArgs {
    /// Agent loaded from the home's `agents` directory.
    pub agent_id: String,
    /// Explicit configuration path (with `agent_prompt`).
    pub agent_config: Option<String>,
    /// Explicit prompt path (with `agent_config`).
    pub agent_prompt: Option<String>,
    /// Words of an optional first message.
    pub prompt: Vec<String>,
}

/// Arguments of a workflow run.
#[derive(Debug, Clone, PartialEq, Eq)]
pub struct WorkflowArgs {
    pub id: String,
    /// JSON text, or `@path` to read it from a file.
    pub input: String,
}

/// What the client is asked to do.
#[derive(Debug, Clone, PartialEq, Eq)]
pub enum Command {
    Agent(AgentArgs),
    Workflow(WorkflowArgs),
}

/// The client's command line.
#[derive(Debug, Clone, PartialEq, Eq)]
pub struct Cli {
    pub fae_home: Option<String>,
    pub color: ColorChoice,
    /// Keep the terminal's scrollback instead of the alternate screen.
    pub no_alt_screen: bool,
    pub command: Option<Command>,
}

/// How the scan of the leading options ends.
pub enum Scan {
    /// A command word is given.
    Command,
    /// Help or the version is asked for.
    Help,
    /// Something else, or the end: the agent command is implied.
    Implied,
}

/// Scans the options before the command word, from `index`.
pub open spec fn scan_options(args: Seq<Seq<char>>, index: int) -> Scan
    decreases args.len() + 2 - index,
{
    if index < 1 || index >= args.len() {
        Scan::Implied
    } else {
        let v = args[index];
        if v == "agent"@ || v == "workflow"@ {
            Scan::Command
        } else if v == "--fae-home"@ || v == "--color"@ {
            scan_options(args, index + 2)
        } else if v == "--no-alt-screen"@ {
            scan_options(args, index + 1)
        } else if v == "--help"@ || v == "-h"@ || v == "--version"@ || v == "-V"@ {
            Scan::Help
        } else if starts_with(v, "--fae-home="@) || starts_with(v, "--color="@) {
            scan_options(args, index + 1)
        } else {
            Scan::Implied
        }
    }
}

/// The texts of a list of strings.
pub open spec fn arg_texts(v: Seq<String>) -> Seq<Seq<char>> {
    v.map_values(|s: String| s@)
}

fn is(s: &String, lit: &str) -> (b: bool)
    ensures
        b == (s@ == lit@),
{
    *s == String::from_str(lit)
}

fn begins(s: &String, lit: &str) -> (b: bool)
    ensures
        b == starts_with(s@, lit@),
{
    chars_start_with(str_chars(s.as_str()).as_slice(), str_chars(lit).as_slice())
}

/// Whether the agent command must be inserted: the command line (program
/// name first) names no command and does not ask for help or the version.
pub fn default_agent_needed(args: &[String]) -> (b: bool)
    ensures
        b == (scan_options(arg_texts(args@), 1) is Implied),
{
    let ghost a = arg_texts(args@);
    let mut index: usize = 1;
    while index < args.len()
        invariant
            1 <= index,
            a == arg_texts(args@),
            scan_options(a, index as int) == scan_options(a, 1),
        decreases args@.len() - index,
    {
        let v = &args[index];
        assert(a[index as int] == v@);
        if is(v, "agent") || is(v, "workflow") {
            return false;
        } else if is(v, "--fae-home") || is(v, "--color") {
            if args.len() - index <= 2 {
                assert(scan_options(a, index as int) == scan_options(a, index + 2));
                assert(scan_options(a, index + 2) is Implied);
                return true;
            }
            index = index + 2;
        } else if is(v, "--no-alt-screen") {
            index = index + 1;
        } else if is(v, "--help") || is(v, "-h") || is(v, "--version") || is(v, "-V") {
            return false;
        } else if begins(v, "--fae-home=") || begins(v, "--color=") {
            index = index + 1;
        } else {
            return true;
        }
    }
    true
}

/// The command line with the agent command inserted after the program
/// name when none is given (help and version requests are left alone).
pub fn with_default_agent(args: Vec<String>) -> (r: Vec<String>)
    requires
        args@.len() >= 1,
    ensures
        scan_options(arg_texts(args@), 1) is Implied ==> r@ == args@.insert(1, r@[1]) && r@[1]@ == "agent"@,
        !(scan_options(arg_texts(args@), 1) is Implied) ==> r@ == args@,
{
    let needed = default_agent_needed(args.as_slice());
    let mut args = args;
    if needed {
        args.insert(1, String::from_str("agent"));
    }
    args
}

/// Where a workflow's input comes from.
#[derive(Debug, Clone, PartialEq, Eq)]
pub enum WorkflowInput {
    /// The JSON text itself.
    Inline(String),
    /// A file to read it from.
    File(String),
}

/// Where workflow input comes from: `@path` names a file (the path must not
/// be empty), anything else is the JSON text.
pub fn workflow_input_source(input: &str) -> (r: Result<WorkflowInput, String>)
    ensures
        input@.len() > 0 && input@[0] == '@' && input@.len() == 1 ==> (r matches Err(m) && m@
            == "workflow input path cannot be empty"@),
        input@.len() > 1 && input@[0] == '@' ==> (r matches Ok(WorkflowInput::File(p)) && p@ == input@.skip(1)),
        !(input@.len() > 0 && input@[0] == '@') ==> (r matches Ok(WorkflowInput::Inline(t)) && t@ == input@),
{
    let v = str_chars(input);
    if v.len() > 0 && v[0] == '@' {
        if v.len() == 1 {
            return Err(String::from_str("workflow input path cannot be empty"));
        }
        let rest = crate::text::slice_range(v.as_slice(), 1, v.len());
        assert(rest@ =~= input@.skip(1));
        return Ok(WorkflowInput::File(crate::text::chars_string(rest.as_slice())));
    }
    Ok(WorkflowInput::Inline(String::from_str(input)))
}

/// Whether `serde_json` reads the text as one JSON document.
pub uninterp spec fn json_document(text: Seq<char>) -> bool;

/// `serde_json::from_str::<serde_json::Value>`, asked only whether it succeeds.
///
/// Trusted to be a function of the text alone; which texts it accepts (the
/// JSON grammar, its nesting limit) is left to the name `json_document`.
#[verifier::external_body]
fn is_json_document(text: &str) -> (b: bool)
    ensures
        b == json_document(text@),
{
    serde_json::from_str::<serde_json::Value>(text).is_ok()
}

/// The text of a workflow's input, read from `label` (`--input`, or the
/// file's path): the text itself when it is a JSON document, otherwise the
/// error that names where it came from.
pub fn workflow_input_json(source: String, label: &str) -> (r: Result<String, String>)
    ensures
        json_document(source@) ==> r == Ok::<String, String>(source),
        !json_document(source@) ==> (r matches Err(m) && m@ == "parse workflow JSON from "@ + label@),
{
    if is_json_document(source.as_str()) {
        Ok(source)
    } else {
        let mut m = String::from_str("parse workflow JSON from ");
        m.append(label);
        Err(m)
    }
}

} // verus!
