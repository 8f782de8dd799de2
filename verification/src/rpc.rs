//! The JSON-RPC side of the MCP server: the startup handshake and how each request
//! is answered.

use vstd::prelude::*;

use crate::json::{
    field_of, json_clone, json_content, json_get, opt_numbers, opt_text, opt_texts, parse_json,
    parsed_json, read_string_member, read_strings_member, read_unsigned_items_member,
    read_unsigned_member, string_member, strings_member, unsigned_items_member, unsigned_member,
    JsonView,
};
use crate::server::ToolArguments;
use crate::text::same_text;

verus! {

/// JSON-RPC error code of an unknown method.
pub const METHOD_NOT_FOUND: i64 = -32601;

/// JSON-RPC error code of a request without a method.
pub const INVALID_REQUEST: i64 = -32600;

/// JSON-RPC error code of a failed tool call.
pub const INTERNAL_ERROR: i64 = -32603;

/// How the server answers one request.
#[derive(Debug)]
pub enum RpcAction {
    /// Reply with the list of tools.
    ListTools,
    /// Call the tool named in the parameters and reply with its result or error.
    CallTool,
    /// Reply with an empty result.
    Ping,
    /// Send no reply.
    Ignore,
    /// Reply with this error.
    Error { code: i64, message: String },
}

/// Whether `prefix` begins `s`.
pub open spec fn starts_with(s: Seq<char>, prefix: Seq<char>) -> bool {
    prefix.len() <= s.len() && s.subrange(0, prefix.len() as int) == prefix
}

/// Whether `prefix` begins `s` (as `str::starts_with` with a string pattern).
pub fn text_starts_with(s: &str, prefix: &str) -> (r: bool)
    ensures
        r == starts_with(s@, prefix@),
{
    let n = prefix.unicode_len();
    if n > s.unicode_len() {
        return false;
    }
    let mut i: usize = 0;
    while i < n
        invariant
            i <= n,
            n == prefix@.len(),
            n <= s@.len(),
            forall|k: int| 0 <= k < i ==> s@[k] == prefix@[k],
        decreases n - i,
    {
        if s.get_char(i) != prefix.get_char(i) {
            assert(s@.subrange(0, n as int)[i as int] != prefix@[i as int]);
            return false;
        }
        i = i + 1;
    }
    assert(s@.subrange(0, n as int) =~= prefix@);
    true
}

/// The answer to a request with this method (if any) and with or without an id.
pub open spec fn routed(method: Option<Seq<char>>, has_id: bool, a: RpcAction) -> bool {
    match method {
        Some(m) => if m == "tools/list"@ {
            a is ListTools
        } else if m == "tools/call"@ {
            a is CallTool
        } else if m == "ping"@ {
            a is Ping
        } else if starts_with(m, "notifications/"@) {
            a is Ignore
        } else if has_id {
            a matches RpcAction::Error { code, message } && code == METHOD_NOT_FOUND && message@
                == "Method not found: "@ + m
        } else {
            a is Ignore
        },
        None => if has_id {
            a matches RpcAction::Error { code, message } && code == INVALID_REQUEST && message@
                == "Invalid request: missing method"@
        } else {
            a is Ignore
        },
    }
}

/// Decides how to answer a request, from its method and whether it has an id:
/// notifications and requests without an id get no reply.
pub fn route_request(method: Option<&str>, has_id: bool) -> (r: RpcAction)
    ensures
        routed(
            match method {
                Some(m) => Some(m@),
                None => None,
            },
            has_id,
            r,
        ),
{
    match method {
        Some(m) => {
            if same_text(m, "tools/list") {
                RpcAction::ListTools
            } else if same_text(m, "tools/call") {
                RpcAction::CallTool
            } else if same_text(m, "ping") {
                RpcAction::Ping
            } else if text_starts_with(m, "notifications/") {
                RpcAction::Ignore
            } else if has_id {
                let mut message = String::from_str("Method not found: ");
                message.append(m);
                RpcAction::Error { code: METHOD_NOT_FOUND, message }
            } else {
                RpcAction::Ignore
            }
        },
        None => {
            if has_id {
                RpcAction::Error {
                    code: INVALID_REQUEST,
                    message: String::from_str("Invalid request: missing method"),
                }
            } else {
                RpcAction::Ignore
            }
        },
    }
}

/// The phases of the startup handshake.
#[derive(Debug)]
pub enum StartupPhase {
    /// Waiting for the `initialize` request.
    AwaitingInitialize,
    /// Waiting for the `notifications/initialized` notification.
    AwaitingInitialized,
    /// Serving requests.
    Running,
}

/// One step of the handshake: the `initialize` request moves on to waiting for the
/// `notifications/initialized` notification, which moves on to serving; anything else
/// leaves the phase as it is. The flag tells whether the message was the one awaited
/// (the `initialize` request is then answered).
pub fn startup_step(phase: StartupPhase, method: Option<&str>) -> (r: (StartupPhase, bool))
    ensures
        match phase {
            StartupPhase::AwaitingInitialize => if method matches Some(m) && m@ == "initialize"@ {
                r.0 is AwaitingInitialized && r.1
            } else {
                r.0 is AwaitingInitialize && !r.1
            },
            StartupPhase::AwaitingInitialized => if method matches Some(m) && m@
                == "notifications/initialized"@ {
                r.0 is Running && r.1
            } else {
                r.0 is AwaitingInitialized && !r.1
            },
            StartupPhase::Running => r.0 is Running && !r.1,
        },
{
    match phase {
        StartupPhase::AwaitingInitialize => {
            let accepted = match method {
                Some(m) => same_text(m, "initialize"),
                None => false,
            };
            if accepted {
                (StartupPhase::AwaitingInitialized, true)
            } else {
                (StartupPhase::AwaitingInitialize, false)
            }
        },
        StartupPhase::AwaitingInitialized => {
            let accepted = match method {
                Some(m) => same_text(m, "notifications/initialized"),
                None => false,
            };
            if accepted {
                (StartupPhase::Running, true)
            } else {
                (StartupPhase::AwaitingInitialized, false)
            }
        },
        StartupPhase::Running => (StartupPhase::Running, false),
    }
}

/// Whether tool arguments are those a JSON value gives: each string member as text,
/// each array member as its string (or integer) items in order with other items left
/// out, `limit` as an integer fitting in `u64`; a missing or mistyped member is absent.
pub open spec fn arguments_match(r: ToolArguments, a: JsonView) -> bool {
    &&& opt_text(r.name) == string_member(a, "name"@)
    &&& opt_text(r.session_id) == string_member(a, "session_id"@)
    &&& opt_texts(r.include_patterns) == strings_member(a, "include_patterns"@)
    &&& opt_texts(r.exclude_patterns) == strings_member(a, "exclude_patterns"@)
    &&& opt_texts(r.process_names) == strings_member(a, "process_names"@)
    &&& opt_numbers(r.process_pids) == unsigned_items_member(a, "process_pids"@)
    &&& r.limit == unsigned_member(a, "limit"@)
    &&& opt_text(r.name_filter) == string_member(a, "name_filter"@)
}

/// Reads the arguments of a tool call from their JSON value.
pub fn tool_arguments(args: &serde_json::Value) -> (r: ToolArguments)
    ensures
        arguments_match(r, json_content(*args)),
{
    ToolArguments {
        name: read_string_member(args, "name"),
        session_id: read_string_member(args, "session_id"),
        include_patterns: read_strings_member(args, "include_patterns"),
        exclude_patterns: read_strings_member(args, "exclude_patterns"),
        process_names: read_strings_member(args, "process_names"),
        process_pids: read_unsigned_items_member(args, "process_pids"),
        limit: read_unsigned_member(args, "limit"),
        name_filter: read_string_member(args, "name_filter"),
    }
}

/// The arguments of a call without arguments.
fn no_arguments() -> (r: ToolArguments)
    ensures
        arguments_match(r, JsonView::Object(Map::empty())),
{
    ToolArguments {
        name: None,
        session_id: None,
        include_patterns: None,
        exclude_patterns: None,
        process_names: None,
        process_pids: None,
        limit: None,
        name_filter: None,
    }
}

/// A JSON-RPC request as the server reads it.
pub struct RpcRequest {
    /// The `method` member, when it is a string.
    pub method: Option<String>,
    /// The `id` member, when there is one (it is echoed in the reply).
    pub id: Option<serde_json::Value>,
    /// The `name` member of `params`, when it is a string; empty otherwise.
    pub tool_name: String,
    /// The `arguments` member of `params` read as tool arguments; an absent one reads
    /// as an empty object.
    pub arguments: ToolArguments,
}

/// The name of the tool a request calls: `params.name` when it is a string, else empty.
pub open spec fn called_tool(j: JsonView) -> Seq<char> {
    match field_of(j, "params"@) {
        Some(p) => match string_member(p, "name"@) {
            Some(n) => n,
            None => Seq::empty(),
        },
        None => Seq::empty(),
    }
}

/// The arguments a request passes: `params.arguments`, else an empty object.
pub open spec fn call_arguments(j: JsonView) -> JsonView {
    match field_of(j, "params"@) {
        Some(p) => match field_of(p, "arguments"@) {
            Some(a) => a,
            None => JsonView::Object(Map::empty()),
        },
        None => JsonView::Object(Map::empty()),
    }
}

/// Whether a read request is what a parsed JSON value says.
pub open spec fn request_matches(q: RpcRequest, j: JsonView) -> bool {
    &&& opt_text(q.method) == string_member(j, "method"@)
    &&& (q.id is Some <==> field_of(j, "id"@) is Some)
    &&& (q.id matches Some(v) ==> field_of(j, "id"@) == Some(json_content(v)))
    &&& q.tool_name@ == called_tool(j)
    &&& arguments_match(q.arguments, call_arguments(j))
}

/// Reads one request line: nothing when it is not one JSON value, else its method, id,
/// called tool and arguments.
pub fn read_request(line: &str) -> (r: Option<RpcRequest>)
    ensures
        r is None <==> parsed_json(line@) is None,
        r matches Some(q) ==> (parsed_json(line@) matches Some(j) && request_matches(q, j)),
{
    let v = match parse_json(line) {
        Some(v) => v,
        None => {
            return None;
        },
    };
    let method = read_string_member(&v, "method");
    let id = match json_get(&v, "id") {
        Some(x) => Some(json_clone(x)),
        None => None,
    };
    let (tool_name, arguments) = match json_get(&v, "params") {
        Some(p) => {
            let name = match read_string_member(p, "name") {
                Some(n) => n,
                None => String::new(),
            };
            let arguments = match json_get(p, "arguments") {
                Some(a) => tool_arguments(a),
                None => no_arguments(),
            };
            (name, arguments)
        },
        None => (String::new(), no_arguments()),
    };
    Some(RpcRequest { method, id, tool_name, arguments })
}

} // verus!
