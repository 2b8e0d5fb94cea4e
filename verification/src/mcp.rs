//! MCP servers an agent can use, and the requests and replies of their tools.
use vstd::prelude::*;
use vstd::string::StringExecFns;

verus! {

/// How an MCP server is reached: a local command or a remote URL.
#[derive(Debug, Clone, PartialEq, Eq)]
pub enum McpServerConfig {
    Local { command: String, args: Vec<String>, env: Vec<(String, String)> },
    Remote { url: String, headers: Vec<(String, String)> },
}

/// A request for the tools of a server.
#[derive(Debug, Clone, PartialEq, Eq)]
pub struct McpQuery {
    pub server: String,
}

impl McpQuery {
    pub fn new(server: &str) -> (r: McpQuery)
        ensures
            r.server@ == server@,
    {
        McpQuery { server: String::from_str(server) }
    }
}

impl From<String> for McpQuery {
    fn from(server: String) -> (r: McpQuery) {
        McpQuery { server }
    }
}

impl vstd::std_specs::convert::FromSpecImpl<String> for McpQuery {
    open spec fn obeys_from_spec() -> bool {
        true
    }

    open spec fn from_spec(server: String) -> McpQuery {
        McpQuery { server }
    }
}

impl From<&str> for McpQuery {
    /// The same request as `McpQuery::new`.
    fn from(server: &str) -> (r: McpQuery)
        ensures
            r.server@ == server@,
    {
        McpQuery::new(server)
    }
}

impl vstd::std_specs::convert::FromSpecImpl<&str> for McpQuery {
    /// A string slice's text is known only through its view, so the result
    /// is stated by the ensures of `from` itself.
    open spec fn obeys_from_spec() -> bool {
        false
    }

    open spec fn from_spec(server: &str) -> McpQuery {
        vstd::pervasive::arbitrary()
    }
}

/// A call of a tool of a server.
#[derive(Debug, Clone, PartialEq, Eq)]
pub struct McpRequest {
    pub server: String,
    pub tool_name: String,
    pub arguments: String,
}

impl McpRequest {
    pub fn new(server: &str, tool_name: &str, arguments: &str) -> (r: McpRequest)
        ensures
            r.server@ == server@,
            r.tool_name@ == tool_name@,
            r.arguments@ == arguments@,
    {
        McpRequest {
            server: String::from_str(server),
            tool_name: String::from_str(tool_name),
            arguments: String::from_str(arguments),
        }
    }
}

/// The output of a tool of a server.
#[derive(Debug, Clone, PartialEq, Eq)]
pub struct McpResponse {
    pub output: String,
}

/// Text content of a tool's reply.
#[derive(Debug, Clone, PartialEq, Eq)]
pub struct McpToolRespContentText {
    pub text: String,
}

/// Audio content of a tool's reply.
#[derive(Debug, Clone, PartialEq, Eq)]
pub struct McpToolRespContentAudio {
    pub data: String,
    pub mime_type: String,
}

/// A link to a resource in a tool's reply.
#[derive(Debug, Clone, PartialEq, Eq)]
pub struct McpToolRespContentResourceLink {
    pub uri: String,
    pub name: String,
    pub description: String,
    pub mime_type: String,
}

} // verus!
