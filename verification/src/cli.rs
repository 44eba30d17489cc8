//! The command-line tool's decisions: the envelope metadata of its
//! answers, its listing limits, and the routing of the local MCP
//! (JSON-RPC over stdio) server, which hands out transcript data only when
//! read access was granted.

use vstd::prelude::*;
use crate::artifacts::ARTIFACT_SCHEMA_VERSION;
use crate::json::{as_i64, as_str, get, integer_of, member, text_of, JsonValue};
use crate::text::{chars_of, chars_equal_str, push_str, trim, trim_ws};

verus! {

broadcast use vstd::string::group_string_axioms;

/// The metadata attached to every answer of the command-line tool.
#[derive(Debug)]
pub struct EnvelopeMeta {
    pub schema_version: u32,
    pub artifact_schema_version: String,
    pub generated_at: String,
    pub db_path: String,
}

/// The metadata for an answer generated at `generated_at` from the
/// database at `db_path`.
pub fn build_meta(generated_at: String, db_path: String) -> (m: EnvelopeMeta)
    ensures
        m.schema_version == 1,
        m.artifact_schema_version@ == ARTIFACT_SCHEMA_VERSION@,
        m.generated_at == generated_at,
        m.db_path == db_path,
{
    EnvelopeMeta {
        schema_version: 1,
        artifact_schema_version: ARTIFACT_SCHEMA_VERSION.to_owned(),
        generated_at,
        db_path,
    }
}

/// What the tool can do, as listed by its `info` command.
pub open spec fn capabilities_list() -> Seq<Seq<char>> {
    seq![
        "meetings.list"@,
        "meetings.get"@,
        "meetings.export"@,
        "search.fts5"@,
        "qa.cited"@,
        "mcp.stdio"@,
    ]
}

/// The capabilities listed by the `info` command.
pub fn capabilities() -> (r: Vec<String>)
    ensures
        r@.map_values(|s: String| s@) == capabilities_list(),
{
    let r = vec![
        "meetings.list".to_owned(),
        "meetings.get".to_owned(),
        "meetings.export".to_owned(),
        "search.fts5".to_owned(),
        "qa.cited".to_owned(),
        "mcp.stdio".to_owned(),
    ];
    assert(r@.map_values(|s: String| s@) =~= capabilities_list());
    r
}

/// `value` limited to `[lo, hi]`.
pub open spec fn clamped(value: i64, lo: i64, hi: i64) -> i64 {
    if value < lo {
        lo
    } else if value > hi {
        hi
    } else {
        value
    }
}

fn clamp(value: i64, lo: i64, hi: i64) -> (r: i64)
    ensures
        r == clamped(value, lo, hi),
{
    if value < lo {
        lo
    } else if value > hi {
        hi
    } else {
        value
    }
}

/// How many meetings `meetings list` shows: between 1 and 500.
pub fn meetings_list_limit(limit: i64) -> (r: i64)
    ensures
        r == clamped(limit, 1, 500),
{
    clamp(limit, 1, 500)
}

/// A request the MCP server answers.
#[derive(Clone, Copy, Debug)]
pub enum McpMethod {
    Initialize,
    ListTools,
    CallTool,
}

/// A tool call the MCP server performs.
#[derive(Debug)]
pub enum McpToolCall {
    ListMeetings { limit: i64 },
    GetMeeting { meeting_id: String },
    Search { query: String },
    Ask { question: String, limit: i64 },
}

/// The JSON-RPC error code for a denied call.
pub const ACCESS_DENIED: i64 = -32001;

/// The JSON-RPC error code for a failed read of stored data.
pub const STORAGE_ERROR: i64 = -32002;

/// The JSON-RPC error code for an unknown method.
pub const METHOD_NOT_FOUND: i64 = -32601;

/// The JSON-RPC error code for bad parameters.
pub const INVALID_PARAMS: i64 = -32602;

/// The JSON-RPC error code for a failure to encode a result.
pub const INTERNAL_ERROR: i64 = -32603;

pub open spec fn access_denied_message() -> Seq<char> {
    "Meetily transcript access is denied. Restart this MCP process with --allow-read or MEETILY_MCP_ALLOW_READ=true."@
}

/// An error as seen in specifications: code and message.
pub open spec fn error_view(e: (i64, String)) -> (i64, Seq<char>) {
    (e.0, e.1@)
}

/// How the server answers a method: transcript tools are refused unless
/// read access was granted; unknown methods are errors.
pub open spec fn route(method: Seq<char>, allow_read: bool) -> Result<McpMethod, (i64, Seq<char>)> {
    if method == "initialize"@ {
        Ok(McpMethod::Initialize)
    } else if method == "tools/list"@ {
        Ok(McpMethod::ListTools)
    } else if method == "tools/call"@ {
        if allow_read {
            Ok(McpMethod::CallTool)
        } else {
            Err((ACCESS_DENIED, access_denied_message()))
        }
    } else {
        Err((METHOD_NOT_FOUND, "Unknown method: "@ + method))
    }
}

/// The method named by a request, or the empty text.
pub open spec fn method_of(request: JsonValue) -> Seq<char> {
    match text_of(member(request, "method"@)) {
        Some(m) => m,
        None => Seq::empty(),
    }
}

/// A request carries an id, so it expects an answer; notifications do not.
pub open spec fn expects_answer(request: JsonValue) -> bool {
    member(request, "id"@) is Some
}

/// Whether a request expects an answer.
pub fn answers_request(request: &JsonValue) -> (b: bool)
    ensures
        b == expects_answer(*request),
{
    get(request, "id").is_some()
}

/// The method named by a request.
pub fn request_method(request: &JsonValue) -> (r: String)
    ensures
        r@ == method_of(*request),
{
    match as_str(get(request, "method")) {
        Some(m) => m.clone(),
        None => String::new(),
    }
}

/// How the server answers a method, as [`route`] states.
pub fn route_method(method: &str, allow_read: bool) -> (r: Result<McpMethod, (i64, String)>)
    ensures
        match r {
            Ok(m) => route(method@, allow_read) == Ok::<McpMethod, (i64, Seq<char>)>(m),
            Err(e) => route(method@, allow_read) == Err::<McpMethod, (i64, Seq<char>)>(
                error_view(e),
            ),
        },
{
    let m = chars_of(method);
    proof {
        reveal_strlit("initialize");
        reveal_strlit("tools/list");
        reveal_strlit("tools/call");
    }
    if chars_equal_str(&m, "initialize") {
        Ok(McpMethod::Initialize)
    } else if chars_equal_str(&m, "tools/list") {
        Ok(McpMethod::ListTools)
    } else if chars_equal_str(&m, "tools/call") {
        if allow_read {
            Ok(McpMethod::CallTool)
        } else {
            Err(
                (
                    ACCESS_DENIED,
                    "Meetily transcript access is denied. Restart this MCP process with --allow-read or MEETILY_MCP_ALLOW_READ=true.".to_owned(),
                ),
            )
        }
    } else {
        let mut message = "Unknown method: ".to_owned();
        push_str(&mut message, method);
        Err((METHOD_NOT_FOUND, message))
    }
}

/// The non-blank text of the member `key`, or the error naming it.
pub open spec fn required_text(value: Option<JsonValue>, key: Seq<char>) -> Result<Seq<char>, (i64, Seq<char>)> {
    let found = match value {
        Some(v) => text_of(member(v, key)),
        None => None,
    };
    match found {
        Some(t) => if trim_ws(t).len() > 0 {
            Ok(t)
        } else {
            Err((INVALID_PARAMS, key + " is required"@))
        },
        None => Err((INVALID_PARAMS, key + " is required"@)),
    }
}

/// The member `key` of the arguments (absent arguments count as an empty
/// object).
pub open spec fn argument(arguments: Option<JsonValue>, key: Seq<char>) -> Option<JsonValue> {
    match arguments {
        Some(a) => member(a, key),
        None => None,
    }
}

/// A tool call as seen in specifications: the tool's number (in the
/// order of [`McpToolCall`]), its text argument and its limit.
pub open spec fn call_view(c: McpToolCall) -> (int, Seq<char>, i64) {
    match c {
        McpToolCall::ListMeetings { limit } => (0, Seq::empty(), limit),
        McpToolCall::GetMeeting { meeting_id } => (1, meeting_id@, 0),
        McpToolCall::Search { query } => (2, query@, 0),
        McpToolCall::Ask { question, limit } => (3, question@, limit),
    }
}

/// A tool call with a required text argument, or the error of that
/// argument.
pub open spec fn with_text(tool: int, text: Result<Seq<char>, (i64, Seq<char>)>, limit: i64) -> Result<
    (int, Seq<char>, i64),
    (i64, Seq<char>),
> {
    match text {
        Ok(t) => Ok((tool, t, limit)),
        Err(e) => Err(e),
    }
}

/// The tool call a `tools/call` request asks for, as [`call_view`] shows
/// it: the listing limit defaults to 20 and is kept within `[1, 100]`;
/// the question limit defaults to 6; a missing tool name, a missing or
/// blank required argument, and an unknown tool are errors.
pub open spec fn tool_call(request: JsonValue) -> Result<(int, Seq<char>, i64), (i64, Seq<char>)> {
    let params = member(request, "params"@);
    let name = match params {
        Some(p) => text_of(member(p, "name"@)),
        None => None,
    };
    let arguments = match params {
        Some(p) => member(p, "arguments"@),
        None => None,
    };
    match name {
        None => Err((INVALID_PARAMS, "Tool name is required"@)),
        Some(n) => if n == "meetily_list_meetings"@ {
            let limit = match integer_of(argument(arguments, "limit"@)) {
                Some(l) => l,
                None => 20,
            };
            Ok((0, Seq::empty(), clamped(limit, 1, 100)))
        } else if n == "meetily_get_meeting"@ {
            with_text(1, required_text(arguments, "meeting_id"@), 0)
        } else if n == "meetily_search"@ {
            with_text(2, required_text(arguments, "query"@), 0)
        } else if n == "meetily_ask"@ {
            with_text(
                3,
                required_text(arguments, "question"@),
                match integer_of(argument(arguments, "limit"@)) {
                    Some(l) => l,
                    None => 6,
                },
            )
        } else {
            Err((INVALID_PARAMS, "Unknown tool: "@ + n))
        },
    }
}

/// The non-blank text of the member `key` of a JSON value, or the error
/// naming the missing member.
pub fn required_string(value: Option<&JsonValue>, key: &str) -> (r: Result<String, (i64, String)>)
    ensures
        match r {
            Ok(t) => required_text(match value { Some(v) => Some(*v), None => None::<JsonValue> }, key@)
                == Ok::<Seq<char>, (i64, Seq<char>)>(t@),
            Err(e) => required_text(match value { Some(v) => Some(*v), None => None::<JsonValue> }, key@)
                == Err::<Seq<char>, (i64, Seq<char>)>(error_view(e)),
        },
{
    let found = match value {
        Some(v) => as_str(get(v, key)),
        None => None,
    };
    match found {
        Some(t) => {
            if trim(&chars_of(t.as_str())).len() > 0 {
                return Ok(t.clone());
            }
        },
        None => {},
    }
    let mut message = key.to_owned();
    push_str(&mut message, " is required");
    Err((INVALID_PARAMS, message))
}

/// Reads the tool call of a `tools/call` request, as [`tool_call`]
/// states.
pub fn parse_tool_call(request: &JsonValue) -> (r: Result<McpToolCall, (i64, String)>)
    ensures
        match r {
            Ok(c) => tool_call(*request) == Ok::<(int, Seq<char>, i64), (i64, Seq<char>)>(
                call_view(c),
            ),
            Err(e) => tool_call(*request) == Err::<(int, Seq<char>, i64), (i64, Seq<char>)>(
                error_view(e),
            ),
        },
{
    let params = get(request, "params");
    let name = match params {
        Some(p) => as_str(get(p, "name")),
        None => None,
    };
    let arguments = match params {
        Some(p) => get(p, "arguments"),
        None => None,
    };
    proof {
        reveal_strlit("meetily_list_meetings");
        reveal_strlit("meetily_get_meeting");
        reveal_strlit("meetily_search");
        reveal_strlit("meetily_ask");
    }
    let name = match name {
        Some(n) => n,
        None => {
            return Err((INVALID_PARAMS, "Tool name is required".to_owned()));
        },
    };
    let n = chars_of(name.as_str());
    if chars_equal_str(&n, "meetily_list_meetings") {
        let limit = match as_i64(match arguments {
            Some(a) => get(a, "limit"),
            None => None,
        }) {
            Some(l) => l,
            None => 20,
        };
        Ok(McpToolCall::ListMeetings { limit: clamp(limit, 1, 100) })
    } else if chars_equal_str(&n, "meetily_get_meeting") {
        match required_string(arguments, "meeting_id") {
            Ok(meeting_id) => Ok(McpToolCall::GetMeeting { meeting_id }),
            Err(e) => Err(e),
        }
    } else if chars_equal_str(&n, "meetily_search") {
        match required_string(arguments, "query") {
            Ok(query) => Ok(McpToolCall::Search { query }),
            Err(e) => Err(e),
        }
    } else if chars_equal_str(&n, "meetily_ask") {
        match required_string(arguments, "question") {
            Ok(question) => {
                let limit = match as_i64(match arguments {
                    Some(a) => get(a, "limit"),
                    None => None,
                }) {
                    Some(l) => l,
                    None => 6,
                };
                Ok(McpToolCall::Ask { question, limit })
            },
            Err(e) => Err(e),
        }
    } else {
        let mut message = "Unknown tool: ".to_owned();
        push_str(&mut message, name.as_str());
        Err((INVALID_PARAMS, message))
    }
}

/// The error answered when reading the database fails.
pub fn mcp_db_error(message: String) -> (r: (i64, String))
    ensures
        r.0 == STORAGE_ERROR,
        r.1 == message,
{
    (STORAGE_ERROR, message)
}

/// The error answered when loading meeting data fails.
pub fn mcp_anyhow_error(message: String) -> (r: (i64, String))
    ensures
        r.0 == STORAGE_ERROR,
        r.1 == message,
{
    (STORAGE_ERROR, message)
}

/// The error answered when a result cannot be encoded as JSON.
pub fn mcp_json_error(message: String) -> (r: (i64, String))
    ensures
        r.0 == INTERNAL_ERROR,
        r.1 == message,
{
    (INTERNAL_ERROR, message)
}

/// Transcript data is denied unless read access was granted: without it no
/// method routes to a tool call, and `tools/call` is answered with the
/// access-denied error.
pub proof fn lemma_tools_need_read_access(method: Seq<char>)
    ensures
        route(method, false) != Ok::<McpMethod, (i64, Seq<char>)>(McpMethod::CallTool),
        method == "tools/call"@ ==> route(method, false) == Err::<McpMethod, (i64, Seq<char>)>(
            (ACCESS_DENIED, access_denied_message()),
        ),
{
    lemma_method_names_differ();
}

/// The handshake and the tool listing are answered whether or not read
/// access was granted, and granting it changes nothing else.
pub proof fn lemma_read_access_only_opens_tools(method: Seq<char>)
    ensures
        method != "tools/call"@ ==> route(method, true) == route(method, false),
        method == "tools/call"@ ==> route(method, true) == Ok::<McpMethod, (i64, Seq<char>)>(
            McpMethod::CallTool,
        ),
{
    lemma_method_names_differ();
}

proof fn lemma_method_names_differ()
    ensures
        "tools/call"@ != "initialize"@,
        "tools/call"@ != "tools/list"@,
{
    reveal_strlit("tools/call");
    reveal_strlit("initialize");
    reveal_strlit("tools/list");
    assert("tools/call"@[0] != "initialize"@[0]);
    assert("tools/call"@[6] != "tools/list"@[6]);
}

/// The MCP tools only read: every tool call the server accepts is one of
/// listing meetings, reading a meeting, searching and asking.
pub proof fn lemma_tools_are_read_only(request: JsonValue)
    ensures
        tool_call(request) matches Ok(call) ==> 0 <= call.0 <= 3,
{
}

} // verus!
