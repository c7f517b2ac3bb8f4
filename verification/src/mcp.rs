//! Tools served by MCP servers: how a discovered tool is named and described
//! to the agent, what arguments a call carries, and what a call's result reads.
use vstd::prelude::*;
use crate::json::JsonValue;
use crate::runtime::ToolInfo;
use crate::tools::ToolOutput;
use crate::text::{owned, push_str, join_strings, join, views};

verus! {

broadcast use vstd::string::group_string_axioms;

/// Cached info about a tool discovered from an MCP server.
#[derive(Debug, Clone, PartialEq, Eq)]
pub struct McpToolInfo {
    pub name: String,
    pub description: Option<String>,
    /// The tool's input schema, as JSON text.
    pub input_schema: String,
}

/// A tool of an MCP server, as the agent sees it.
#[derive(Debug, Clone, PartialEq, Eq)]
pub struct McpTool {
    pub namespaced_name: String,
    pub tool_description: String,
    pub original_name: String,
    pub schema: String,
    pub timeout_ms: u64,
}

/// `server.tool`: the name under which the agent calls a server's tool.
pub open spec fn namespaced(server: Seq<char>, tool: Seq<char>) -> Seq<char> {
    server + "."@ + tool
}

/// Two tools of one server keep distinct names once namespaced.
pub proof fn lemma_namespaced_keeps_tools_apart(server: Seq<char>, a: Seq<char>, b: Seq<char>)
    requires
        namespaced(server, a) == namespaced(server, b),
    ensures
        a == b,
{
    reveal_strlit(".");
    let n = server.len() + 1;
    assert(namespaced(server, a).skip(n as int) =~= a);
    assert(namespaced(server, b).skip(n as int) =~= b);
}

/// The description a tool without one of its own gets.
pub open spec fn default_description(server: Seq<char>, tool: Seq<char>) -> Seq<char> {
    "MCP tool "@ + tool + " from "@ + server
}

impl McpTool {
    /// A server's tool, namespaced by the server's name.
    pub fn new(server_name: &str, original_name: String, description: Option<String>, input_schema: String, timeout_ms: u64) -> (r: Self)
        ensures
            r.namespaced_name@ == namespaced(server_name@, original_name@),
            r.tool_description@ == match description {
                Some(d) => d@,
                None => default_description(server_name@, original_name@),
            },
            r.original_name == original_name,
            r.schema == input_schema,
            r.timeout_ms == timeout_ms,
    {
        let mut namespaced_name = owned(server_name);
        push_str(&mut namespaced_name, ".");
        push_str(&mut namespaced_name, original_name.as_str());
        let tool_description = match description {
            Some(d) => d,
            None => {
                let mut d = owned("MCP tool ");
                push_str(&mut d, original_name.as_str());
                push_str(&mut d, " from ");
                push_str(&mut d, server_name);
                d
            },
        };
        McpTool { namespaced_name, tool_description, original_name, schema: input_schema, timeout_ms }
    }

    /// The tool's name, description and schema.
    pub fn info(&self) -> (r: ToolInfo)
        ensures
            r.name@ == self.namespaced_name@,
            r.description@ == self.tool_description@,
            r.system_hint is None,
            r.input_schema@ == self.schema@,
    {
        ToolInfo {
            name: owned(self.namespaced_name.as_str()),
            description: owned(self.tool_description.as_str()),
            system_hint: None,
            input_schema: owned(self.schema.as_str()),
        }
    }
}

/// The tools of server `server_name`, one per discovered tool, in order.
pub fn server_tools(server_name: &str, infos: &Vec<McpToolInfo>, timeout_ms: u64) -> (r: Vec<McpTool>)
    ensures
        r@.len() == infos@.len(),
        forall|i: int|
            0 <= i < infos@.len() ==> {
                let t = #[trigger] r@[i];
                let info = infos@[i];
                &&& t.namespaced_name@ == namespaced(server_name@, info.name@)
                &&& t.tool_description@ == match info.description {
                    Some(d) => d@,
                    None => default_description(server_name@, info.name@),
                }
                &&& t.original_name@ == info.name@
                &&& t.schema@ == info.input_schema@
                &&& t.timeout_ms == timeout_ms
            },
{
    let mut r: Vec<McpTool> = Vec::new();
    let mut i: usize = 0;
    while i < infos.len()
        invariant
            i <= infos@.len(),
            r@.len() == i,
            forall|j: int|
                0 <= j < i ==> {
                    let t = #[trigger] r@[j];
                    let info = infos@[j];
                    &&& t.namespaced_name@ == namespaced(server_name@, info.name@)
                    &&& t.tool_description@ == match info.description {
                        Some(d) => d@,
                        None => default_description(server_name@, info.name@),
                    }
                    &&& t.original_name@ == info.name@
                    &&& t.schema@ == info.input_schema@
                    &&& t.timeout_ms == timeout_ms
                },
        decreases infos@.len() - i,
    {
        let info = &infos[i];
        let description = match &info.description {
            Some(d) => Some(owned(d.as_str())),
            None => None,
        };
        let t = McpTool::new(
            server_name,
            owned(info.name.as_str()),
            description,
            owned(info.input_schema.as_str()),
            timeout_ms,
        );
        r.push(t);
        i += 1;
    }
    r
}

/// The arguments a call carries for a tool input: an object's members as they
/// are, none for `null`, and any other value under the member `input`.
pub fn call_arguments(input: JsonValue) -> (r: Option<Vec<(String, JsonValue)>>)
    ensures
        match input {
            JsonValue::Object(ms) => r == Some(ms),
            JsonValue::Null => r is None,
            other => r matches Some(ms) && ms@.len() == 1 && ms@[0].0@ == "input"@ && ms@[0].1 == other,
        },
{
    match input {
        JsonValue::Object(ms) => Some(ms),
        JsonValue::Null => None,
        other => {
            let mut ms: Vec<(String, JsonValue)> = Vec::new();
            ms.push((owned("input"), other));
            Some(ms)
        },
    }
}

/// One item of a tool call's result.
#[derive(Debug, Clone, PartialEq, Eq)]
pub enum McpContent {
    Text(String),
    /// An image, audio or resource item.
    NonText,
}

/// The text an item reads as: its text, or a placeholder.
pub open spec fn content_text(c: McpContent) -> Seq<char> {
    match c {
        McpContent::Text(t) => t@,
        McpContent::NonText => "[non-text content]"@,
    }
}

/// What a call's result reads as: the items' texts, one per line.
pub open spec fn result_text(cs: Seq<McpContent>) -> Seq<char> {
    join(cs.map_values(|c: McpContent| content_text(c)), "\n"@)
}

/// The tool output of a call's result: its text, an error when the server
/// flagged the result as one.
pub fn call_output(contents: &Vec<McpContent>, is_error: Option<bool>) -> (r: ToolOutput)
    ensures
        r.content@ == result_text(contents@),
        r.is_error == (is_error == Some(true)),
{
    let mut parts: Vec<String> = Vec::new();
    let mut i: usize = 0;
    while i < contents.len()
        invariant
            i <= contents@.len(),
            views(parts@) =~= contents@.take(i as int).map_values(|c: McpContent| content_text(c)),
        decreases contents@.len() - i,
    {
        let part = match &contents[i] {
            McpContent::Text(t) => owned(t.as_str()),
            McpContent::NonText => owned("[non-text content]"),
        };
        assert(part@ == content_text(contents@[i as int]));
        let ghost before = parts@;
        parts.push(part);
        assert(views(parts@) =~= views(before).push(part@));
        assert(contents@.take(i + 1) =~= contents@.take(i as int).push(contents@[i as int]));
        i += 1;
    }
    assert(contents@.take(contents@.len() as int) =~= contents@);
    let text = join_strings(&parts, "\n");
    let flagged = match is_error {
        Some(b) => b,
        None => false,
    };
    ToolOutput { content: text, is_error: flagged }
}

} // verus!
