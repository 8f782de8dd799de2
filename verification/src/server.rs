//! The debug output tools offered to MCP clients: what each tool call does.

use vstd::prelude::*;

use crate::capture::{message_length, record_debug_output, utf8_lossy};
use crate::error::DbgViewError;
use crate::filter::{compiled_view, filters_compile, strings_view, FilterSet, FilterSetView};
use crate::process::{filter_view, list_processes, name_selected, sorted_by_pid, ProcessInfo};
use crate::ring_buffer::{cache_lookup, DebugEntry, RingBuffer, RingBufferView};
use crate::session::{
    cursor_after, describes, has_id, index_of_id, session_id_for, session_output, without_id,
    Session, SessionManager, SessionStatus,
};
use crate::text::same_text;

verus! {

/// Reply of `create_session`.
#[derive(Debug)]
pub struct CreateSessionResponse {
    pub session_id: String,
    pub name: String,
}

/// Reply of `destroy_session`.
#[derive(Debug)]
pub struct DestroySessionResponse {
    pub success: bool,
    pub message: String,
}

/// Reply of `set_filters`.
#[derive(Debug)]
pub struct SetFiltersResponse {
    pub success: bool,
    pub message: String,
}

/// Reply of `clear_session`.
#[derive(Debug)]
pub struct ClearSessionResponse {
    pub success: bool,
    pub message: String,
}

/// The arguments of a tool call, as far as the tools read them: each is absent when
/// the call does not give it (or gives it with another JSON type).
#[derive(Debug)]
pub struct ToolArguments {
    /// `name`: the name of a new session.
    pub name: Option<String>,
    /// `session_id`.
    pub session_id: Option<String>,
    /// `include_patterns`: the string items of the array.
    pub include_patterns: Option<Vec<String>>,
    /// `exclude_patterns`: the string items of the array.
    pub exclude_patterns: Option<Vec<String>>,
    /// `process_names`: the string items of the array.
    pub process_names: Option<Vec<String>>,
    /// `process_pids`: the non-negative integer items of the array.
    pub process_pids: Option<Vec<u64>>,
    /// `limit`: a non-negative integer.
    pub limit: Option<u64>,
    /// `name_filter`.
    pub name_filter: Option<String>,
}

/// The result of a successful tool call.
#[derive(Debug)]
pub enum ToolResponse {
    SessionCreated(CreateSessionResponse),
    SessionDestroyed(DestroySessionResponse),
    Sessions(Vec<SessionStatus>),
    Status(SessionStatus),
    FiltersUpdated(SetFiltersResponse),
    Output(Vec<DebugEntry>),
    SessionCleared(ClearSessionResponse),
    Processes(Vec<ProcessInfo>),
}

/// The number of entries `get_output` is asked for: the `limit` argument (as `usize`),
/// 100 by default.
pub open spec fn requested_limit(args: ToolArguments) -> usize {
    match args.limit {
        Some(n) => n as usize,
        None => 100,
    }
}

/// The patterns given for one filter list, none when absent.
pub open spec fn patterns_arg(v: Option<Vec<String>>) -> Seq<Seq<char>> {
    match v {
        Some(v) => strings_view(v@),
        None => Seq::empty(),
    }
}

/// The filter set a `set_filters` call asks for; PIDs are truncated to 32 bits.
pub open spec fn requested_filters(args: ToolArguments) -> FilterSetView {
    FilterSetView {
        include_patterns: patterns_arg(args.include_patterns),
        exclude_patterns: patterns_arg(args.exclude_patterns),
        process_names: patterns_arg(args.process_names),
        process_pids: match args.process_pids {
            Some(v) => v@.map_values(|n: u64| n as u32),
            None => Seq::empty(),
        },
    }
}

/// The error text of a call without the `session_id` it needs.
pub open spec fn missing_session_id() -> Seq<char> {
    "session_id is required"@
}

/// The error text of a call naming no existing session.
pub open spec fn not_found(id: Seq<char>) -> Seq<char> {
    "Session not found: "@ + id
}

/// Whether a call left the capture and the session numbering as they were.
pub open spec fn capture_kept(before: SysinternalsMcpServer, after: SysinternalsMcpServer) -> bool {
    &&& after.manager().capture_started() == before.manager().capture_started()
    &&& after.manager().capture_running() == before.manager().capture_running()
    &&& after.manager().platform_supported() == before.manager().platform_supported()
    &&& after.manager().next_number() == before.manager().next_number()
}

/// What `create_session` does: starts the capture if needed and adds a session named
/// after the argument (its identifier when absent), reporting its identifier and name.
pub open spec fn create_outcome(
    before: SysinternalsMcpServer,
    after: SysinternalsMcpServer,
    name: Option<String>,
    r: Result<ToolResponse, String>,
) -> bool {
    let id = session_id_for(before.manager().next_number());
    let sessions = after.manager().sessions();
    &&& after.buffer_view() == before.buffer_view()
    &&& (r is Err <==> (!before.manager().capture_started() && !before.manager().platform_supported()))
    &&& match r {
        Ok(resp) => {
            &&& resp matches ToolResponse::SessionCreated(c)
            &&& c.session_id@ == id
            &&& c.name@ == (match name {
                Some(n) => n@,
                None => id,
            })
            &&& sessions.len() > 0
            &&& sessions == without_id(before.manager().sessions(), id).push(sessions.last())
            &&& sessions.last().id_view() == id
            &&& sessions.last().name_view() == c.name@
            &&& sessions.last().read_position() == before.buffer_view().current_seq()
            &&& after.manager().capture_started()
        },
        Err(m) => {
            &&& m@ == "Platform not supported - Windows only"@
            &&& !before.manager().platform_supported()
            &&& !before.manager().capture_started()
            &&& sessions == before.manager().sessions()
        },
    }
}

/// What `destroy_session` does: removes the named session.
pub open spec fn destroy_outcome(
    before: SysinternalsMcpServer,
    after: SysinternalsMcpServer,
    session_id: Option<String>,
    r: Result<ToolResponse, String>,
) -> bool {
    &&& after.buffer_view() == before.buffer_view()
    &&& capture_kept(before, after)
    &&& match session_id {
        None => (r matches Err(m) && m@ == missing_session_id()) && after.manager()
            == before.manager(),
        Some(id) => if has_id(before.manager().sessions(), id@) {
            &&& r matches Ok(ToolResponse::SessionDestroyed(d))
            &&& d.success
            &&& d.message@ == "Session "@ + id@ + " destroyed"@
            &&& after.manager().sessions() == without_id(before.manager().sessions(), id@)
        } else {
            &&& r matches Err(m) && m@ == not_found(id@)
            &&& after.manager().sessions() == before.manager().sessions()
        },
    }
}

/// What `list_sessions` reports: the status of every session.
pub open spec fn list_outcome(
    before: SysinternalsMcpServer,
    after: SysinternalsMcpServer,
    r: Result<ToolResponse, String>,
) -> bool {
    let sessions = before.manager().sessions();
    &&& after == before
    &&& r matches Ok(ToolResponse::Sessions(v))
    &&& v@.len() == sessions.len()
    &&& forall|i: int|
        0 <= i < v@.len() ==> describes(
            #[trigger] v@[i],
            sessions[i],
            before.buffer_view().current_seq(),
            before.manager().capture_running(),
        )
}

/// What `get_session_status` reports: the status of the named session.
pub open spec fn status_outcome(
    before: SysinternalsMcpServer,
    after: SysinternalsMcpServer,
    session_id: Option<String>,
    r: Result<ToolResponse, String>,
) -> bool {
    let sessions = before.manager().sessions();
    &&& after == before
    &&& match session_id {
        None => r matches Err(m) && m@ == missing_session_id(),
        Some(id) => if has_id(sessions, id@) {
            &&& r matches Ok(ToolResponse::Status(st))
            &&& describes(
                st,
                sessions[index_of_id(sessions, id@)],
                before.buffer_view().current_seq(),
                before.manager().capture_running(),
            )
        } else {
            r matches Err(m) && m@ == not_found(id@)
        },
    }
}

/// What `set_filters` does: gives the named session the filters of the arguments, or
/// reports the pattern that does not compile.
pub open spec fn set_filters_outcome(
    before: SysinternalsMcpServer,
    after: SysinternalsMcpServer,
    args: ToolArguments,
    r: Result<ToolResponse, String>,
) -> bool {
    let sessions = before.manager().sessions();
    &&& after.buffer_view() == before.buffer_view()
    &&& capture_kept(before, after)
    &&& match args.session_id {
        None => (r matches Err(m) && m@ == missing_session_id()) && after.manager()
            == before.manager(),
        Some(id) => if has_id(sessions, id@) {
            let i = index_of_id(sessions, id@);
            let s = after.manager().sessions()[i];
            let wanted = requested_filters(args);
            &&& after.manager().sessions() == sessions.update(i, s)
            &&& s.id_view() == sessions[i].id_view()
            &&& s.read_position() == sessions[i].read_position()
            &&& if filters_compile(wanted) {
                &&& r matches Ok(ToolResponse::FiltersUpdated(u))
                &&& u.success
                &&& u.message@ == "Filters updated"@
                &&& s.filter_set() == wanted
            } else {
                &&& r matches Err(m) && exists|e: regex::Error, t: String|
                    vstd::string::to_string_from_display_ensures::<regex::Error>(&e, t) && m@
                        == "Invalid regex pattern: "@ + t@
                &&& s.filter_set() == sessions[i].filter_set()
            }
        } else {
            &&& r matches Err(m) && m@ == not_found(id@)
            &&& after.manager().sessions() == sessions
        },
    }
}

/// What `get_output` does: reads the named session's filtered output.
pub open spec fn output_outcome(
    before: SysinternalsMcpServer,
    after: SysinternalsMcpServer,
    session_id: Option<String>,
    limit: usize,
    r: Result<ToolResponse, String>,
) -> bool {
    let sessions = before.manager().sessions();
    &&& after.buffer_view() == before.buffer_view()
    &&& capture_kept(before, after)
    &&& match session_id {
        None => (r matches Err(m) && m@ == missing_session_id()) && after.manager()
            == before.manager(),
        Some(id) => if has_id(sessions, id@) {
            let i = index_of_id(sessions, id@);
            let s = after.manager().sessions()[i];
            let (scanned, next) = before.buffer_view().read_from(
                sessions[i].read_position(),
                (limit * 10) as usize,
            );
            &&& after.manager().sessions() == sessions.update(i, s)
            &&& s.id_view() == sessions[i].id_view()
            &&& s.filter_set() == sessions[i].filter_set()
            &&& r matches Ok(ToolResponse::Output(v))
            &&& v@ == session_output(compiled_view(sessions[i].filter_set()), scanned, limit)
            &&& s.read_position() == cursor_after(sessions[i].read_position(), v@, next)
        } else {
            &&& r matches Err(m) && m@ == not_found(id@)
            &&& after.manager().sessions() == sessions
        },
    }
}

/// What `clear_session` does: moves the named session's read position to the buffer's
/// next entry.
pub open spec fn clear_outcome(
    before: SysinternalsMcpServer,
    after: SysinternalsMcpServer,
    session_id: Option<String>,
    r: Result<ToolResponse, String>,
) -> bool {
    let sessions = before.manager().sessions();
    &&& after.buffer_view() == before.buffer_view()
    &&& capture_kept(before, after)
    &&& match session_id {
        None => (r matches Err(m) && m@ == missing_session_id()) && after.manager()
            == before.manager(),
        Some(id) => if has_id(sessions, id@) {
            let i = index_of_id(sessions, id@);
            let s = after.manager().sessions()[i];
            &&& after.manager().sessions() == sessions.update(i, s)
            &&& s.id_view() == sessions[i].id_view()
            &&& s.filter_set() == sessions[i].filter_set()
            &&& s.read_position() == before.buffer_view().current_seq()
            &&& r matches Ok(ToolResponse::SessionCleared(c))
            &&& c.success
            &&& c.message@ == "Session cleared"@
        } else {
            &&& r matches Err(m) && m@ == not_found(id@)
            &&& after.manager().sessions() == sessions
        },
    }
}

/// What `list_processes` reports: running processes whose names contain the filter
/// (ignoring case), sorted by PID.
pub open spec fn processes_outcome(
    before: SysinternalsMcpServer,
    after: SysinternalsMcpServer,
    name_filter: Option<String>,
    r: Result<ToolResponse, String>,
) -> bool {
    let f = match name_filter {
        Some(n) => Some(n@),
        None => None,
    };
    &&& after == before
    &&& r matches Ok(ToolResponse::Processes(v))
    &&& sorted_by_pid(v@)
    &&& forall|i: int| 0 <= i < v@.len() ==> name_selected((#[trigger] v@[i]).name@, f)
}

fn patterns_or_none(v: Option<Vec<String>>) -> (r: Vec<String>)
    ensures
        strings_view(r@) == patterns_arg(v),
{
    match v {
        Some(v) => v,
        None => {
            let r: Vec<String> = Vec::new();
            assert(strings_view(r@) =~= Seq::<Seq<char>>::empty());
            r
        },
    }
}

fn pids_from(v: Option<Vec<u64>>) -> (r: Vec<u32>)
    ensures
        r@ == (match v {
            Some(v) => v@.map_values(|n: u64| n as u32),
            None => Seq::<u32>::empty(),
        }),
{
    match v {
        Some(v) => {
            let mut r: Vec<u32> = Vec::new();
            let mut i: usize = 0;
            while i < v.len()
                invariant
                    i <= v.len(),
                    r@ == v@.take(i as int).map_values(|n: u64| n as u32),
                decreases v.len() - i,
            {
                r.push(v[i] as u32);
                i = i + 1;
                assert(r@ =~= v@.take(i as int).map_values(|n: u64| n as u32));
            }
            assert(v@.take(v.len() as int) =~= v@);
            r
        },
        None => Vec::new(),
    }
}

/// Whether the name is one of the tools the server offers.
pub open spec fn is_tool_name(name: Seq<char>) -> bool {
    ||| name == "create_session"@
    ||| name == "destroy_session"@
    ||| name == "list_sessions"@
    ||| name == "get_session_status"@
    ||| name == "set_filters"@
    ||| name == "get_output"@
    ||| name == "clear_session"@
    ||| name == "list_processes"@
}

/// The tools the server offers, in the order it lists them.
pub fn tool_names() -> (r: Vec<&'static str>)
    ensures
        r@.len() == 8,
        r@[0]@ == "create_session"@,
        r@[1]@ == "destroy_session"@,
        r@[2]@ == "list_sessions"@,
        r@[3]@ == "get_session_status"@,
        r@[4]@ == "set_filters"@,
        r@[5]@ == "get_output"@,
        r@[6]@ == "clear_session"@,
        r@[7]@ == "list_processes"@,
        forall|i: int| 0 <= i < r@.len() ==> is_tool_name(#[trigger] r@[i]@),
        forall|n: Seq<char>|
            is_tool_name(n) ==> exists|i: int| 0 <= i < r@.len() && #[trigger] r@[i]@ == n,
{
    let mut r: Vec<&'static str> = Vec::new();
    r.push("create_session");
    r.push("destroy_session");
    r.push("list_sessions");
    r.push("get_session_status");
    r.push("set_filters");
    r.push("get_output");
    r.push("clear_session");
    r.push("list_processes");
    assert forall|n: Seq<char>| is_tool_name(n) implies exists|i: int|
        0 <= i < r@.len() && #[trigger] r@[i]@ == n by {
        if n == "create_session"@ {
            assert(r@[0]@ == n);
        } else if n == "destroy_session"@ {
            assert(r@[1]@ == n);
        } else if n == "list_sessions"@ {
            assert(r@[2]@ == n);
        } else if n == "get_session_status"@ {
            assert(r@[3]@ == n);
        } else if n == "set_filters"@ {
            assert(r@[4]@ == n);
        } else if n == "get_output"@ {
            assert(r@[5]@ == n);
        } else if n == "clear_session"@ {
            assert(r@[6]@ == n);
        } else {
            assert(r@[7]@ == n);
        }
    }
    r
}

/// The MCP server's state: the session manager and the buffer the capture fills.
pub struct SysinternalsMcpServer {
    session_manager: SessionManager,
    buffer: RingBuffer,
}

impl SysinternalsMcpServer {
    /// The manager and the buffer are consistent.
    pub closed spec fn wf(&self) -> bool {
        self.session_manager.wf() && self.buffer.wf()
    }

    /// The session manager.
    pub closed spec fn manager(&self) -> SessionManager {
        self.session_manager
    }

    /// The buffer's abstract state.
    pub closed spec fn buffer_view(&self) -> RingBufferView {
        self.buffer@
    }

    /// Creates a server over an empty buffer, with no sessions; `capture_supported`
    /// tells whether this platform can capture debug output.
    pub fn new(buffer: RingBuffer, capture_supported: bool) -> (r: Self)
        requires
            buffer.wf(),
        ensures
            r.wf(),
            r.buffer_view() == buffer@,
            r.manager().sessions() == Seq::<Session>::empty(),
            !r.manager().capture_started(),
            !r.manager().capture_running(),
            r.manager().platform_supported() == capture_supported,
    {
        SysinternalsMcpServer { session_manager: SessionManager::new(capture_supported), buffer }
    }

    /// The buffer the capture fills.
    pub fn buffer(&self) -> (r: &RingBuffer)
        requires
            self.wf(),
        ensures
            r.wf(),
            r@ == self.buffer_view(),
    {
        &self.buffer
    }

    /// Whether the capture is running.
    pub fn is_capture_active(&self) -> (r: bool)
        ensures
            r == self.manager().capture_running(),
    {
        self.session_manager.is_capture_active()
    }

    /// Whether a session has this identifier.
    pub fn has_session(&self, id: &str) -> (r: bool)
        requires
            self.wf(),
        ensures
            r == has_id(self.manager().sessions(), id@),
    {
        self.session_manager.get_session(id).is_ok()
    }

    /// Records that the capture loop ended.
    pub fn capture_ended(&mut self)
        requires
            old(self).wf(),
        ensures
            final(self).wf(),
            !final(self).manager().capture_running(),
            final(self).manager().sessions() == old(self).manager().sessions(),
            final(self).buffer_view() == old(self).buffer_view(),
    {
        self.session_manager.capture_ended();
    }

    /// Stores one message read from the debug output buffer (see `record_debug_output`).
    pub fn record_output(&mut self, pid: u32, data: &[u8])
        requires
            old(self).wf(),
            message_length(data@) > 0 ==> old(self).buffer_view().capacity > 0
                && old(self).buffer_view().current_seq() < u64::MAX,
        ensures
            final(self).wf(),
            final(self).manager() == old(self).manager(),
            message_length(data@) == 0 ==> final(self).buffer_view() == old(self).buffer_view(),
            message_length(data@) > 0 ==> {
                &&& final(self).buffer_view().capacity == old(self).buffer_view().capacity
                &&& final(self).buffer_view().log.drop_last() == old(self).buffer_view().log
                &&& final(self).buffer_view().log.len() == old(self).buffer_view().log.len() + 1
                &&& final(self).buffer_view().log.last().seq == old(self).buffer_view().current_seq()
                &&& final(self).buffer_view().log.last().pid == pid
                &&& final(self).buffer_view().log.last().text@ == utf8_lossy(
                    data@.take(message_length(data@) as int),
                )
                &&& cache_lookup(
                    old(self).buffer_view().process_cache,
                    final(self).buffer_view().process_cache,
                    pid,
                    final(self).buffer_view().log.last().process_name,
                )
            },
    {
        record_debug_output(&mut self.buffer, pid, data);
    }

    fn create_session_tool(&mut self, name: Option<String>) -> (r: Result<ToolResponse, String>)
        requires
            old(self).wf(),
        ensures
            final(self).wf(),
            create_outcome(*old(self), *final(self), name, r),
    {
        let ghost nm = name;
        match self.session_manager.create_session(&self.buffer, name) {
            Ok(session) => {
                let response = CreateSessionResponse {
                    session_id: session.id_string(),
                    name: session.name_string(),
                };
                Ok(ToolResponse::SessionCreated(response))
            },
            Err(e) => Err(e.message()),
        }
    }

    fn destroy_session_tool(&mut self, session_id: Option<String>) -> (r: Result<
        ToolResponse,
        String,
    >)
        requires
            old(self).wf(),
        ensures
            final(self).wf(),
            destroy_outcome(*old(self), *final(self), session_id, r),
    {
        let session_id = match session_id {
            Some(id) => id,
            None => {
                return Err(String::from_str("session_id is required"));
            },
        };
        match self.session_manager.destroy_session(session_id.as_str()) {
            Ok(()) => {
                let mut message = String::from_str("Session ");
                message.append(session_id.as_str());
                message.append(" destroyed");
                Ok(
                    ToolResponse::SessionDestroyed(
                        DestroySessionResponse { success: true, message },
                    ),
                )
            },
            Err(e) => Err(e.message()),
        }
    }

    fn list_sessions_tool(&self) -> (r: Result<ToolResponse, String>)
        requires
            self.wf(),
        ensures
            list_outcome(*self, *self, r),
    {
        Ok(ToolResponse::Sessions(self.session_manager.list_sessions(&self.buffer)))
    }

    fn session_status_tool(&self, session_id: Option<String>) -> (r: Result<ToolResponse, String>)
        requires
            self.wf(),
        ensures
            status_outcome(*self, *self, session_id, r),
    {
        let session_id = match session_id {
            Some(id) => id,
            None => {
                return Err(String::from_str("session_id is required"));
            },
        };
        match self.session_manager.get_session(session_id.as_str()) {
            Ok(session) => {
                let status = session.status(&self.buffer, self.session_manager.is_capture_active());
                Ok(ToolResponse::Status(status))
            },
            Err(e) => Err(e.message()),
        }
    }

    fn set_filters_tool(&mut self, args: ToolArguments) -> (r: Result<ToolResponse, String>)
        requires
            old(self).wf(),
        ensures
            final(self).wf(),
            set_filters_outcome(*old(self), *final(self), args, r),
    {
        let ghost a = args;
        let ToolArguments {
            session_id,
            include_patterns,
            exclude_patterns,
            process_names,
            process_pids,
            ..
        } = args;
        let session_id = match session_id {
            Some(id) => id,
            None => {
                return Err(String::from_str("session_id is required"));
            },
        };
        let filters = FilterSet {
            include_patterns: patterns_or_none(include_patterns),
            exclude_patterns: patterns_or_none(exclude_patterns),
            process_names: patterns_or_none(process_names),
            process_pids: pids_from(process_pids),
        };
        assert(filters@ =~= requested_filters(a));
        match self.session_manager.set_session_filters(session_id.as_str(), filters) {
            Ok(()) => Ok(
                ToolResponse::FiltersUpdated(
                    SetFiltersResponse {
                        success: true,
                        message: String::from_str("Filters updated"),
                    },
                ),
            ),
            Err(e) => Err(e.message()),
        }
    }

    fn get_output_tool(&mut self, session_id: Option<String>, limit: usize) -> (r: Result<
        ToolResponse,
        String,
    >)
        requires
            old(self).wf(),
            session_id matches Some(id) && has_id(old(self).manager().sessions(), id@) ==> limit
                <= usize::MAX / 10,
        ensures
            final(self).wf(),
            output_outcome(*old(self), *final(self), session_id, limit, r),
    {
        let session_id = match session_id {
            Some(id) => id,
            None => {
                return Err(String::from_str("session_id is required"));
            },
        };
        match self.session_manager.get_session_output(session_id.as_str(), &self.buffer, limit) {
            Ok(entries) => Ok(ToolResponse::Output(entries)),
            Err(e) => Err(e.message()),
        }
    }

    fn clear_session_tool(&mut self, session_id: Option<String>) -> (r: Result<
        ToolResponse,
        String,
    >)
        requires
            old(self).wf(),
        ensures
            final(self).wf(),
            clear_outcome(*old(self), *final(self), session_id, r),
    {
        let session_id = match session_id {
            Some(id) => id,
            None => {
                return Err(String::from_str("session_id is required"));
            },
        };
        match self.session_manager.clear_session(session_id.as_str(), &self.buffer) {
            Ok(()) => Ok(
                ToolResponse::SessionCleared(
                    ClearSessionResponse {
                        success: true,
                        message: String::from_str("Session cleared"),
                    },
                ),
            ),
            Err(e) => Err(e.message()),
        }
    }

    /// Calls a tool by name with its arguments, as the MCP `tools/call` request asks.
    /// An unknown tool name gives the error `Unknown tool: <name>`.
    pub fn call_tool(&mut self, name: &str, arguments: ToolArguments) -> (r: Result<
        ToolResponse,
        String,
    >)
        requires
            old(self).wf(),
            name@ == "get_output"@ && (arguments.session_id matches Some(id) && has_id(
                old(self).manager().sessions(),
                id@,
            )) ==> requested_limit(arguments) <= usize::MAX / 10,
        ensures
            final(self).wf(),
            name@ == "create_session"@ ==> create_outcome(*old(self), *final(self), arguments.name, r),
            name@ == "destroy_session"@ ==> destroy_outcome(
                *old(self),
                *final(self),
                arguments.session_id,
                r,
            ),
            name@ == "list_sessions"@ ==> list_outcome(*old(self), *final(self), r),
            name@ == "get_session_status"@ ==> status_outcome(
                *old(self),
                *final(self),
                arguments.session_id,
                r,
            ),
            name@ == "set_filters"@ ==> set_filters_outcome(*old(self), *final(self), arguments, r),
            name@ == "get_output"@ ==> output_outcome(
                *old(self),
                *final(self),
                arguments.session_id,
                requested_limit(arguments),
                r,
            ),
            name@ == "clear_session"@ ==> clear_outcome(
                *old(self),
                *final(self),
                arguments.session_id,
                r,
            ),
            name@ == "list_processes"@ ==> processes_outcome(
                *old(self),
                *final(self),
                arguments.name_filter,
                r,
            ),
            !is_tool_name(name@) ==> (r matches Err(m) && m@ == "Unknown tool: "@ + name@)
                && *final(self) == *old(self),
    {
        proof {
            reveal_strlit("create_session");
            reveal_strlit("destroy_session");
            reveal_strlit("list_sessions");
            reveal_strlit("get_session_status");
            reveal_strlit("set_filters");
            reveal_strlit("get_output");
            reveal_strlit("clear_session");
            reveal_strlit("list_processes");
            assert("create_session"@[0] != "destroy_session"@[0]);
            assert("create_session"@[0] != "list_sessions"@[0]);
            assert("create_session"@[0] != "get_session_status"@[0]);
            assert("create_session"@[0] != "set_filters"@[0]);
            assert("create_session"@[0] != "get_output"@[0]);
            assert("create_session"@[1] != "clear_session"@[1]);
            assert("create_session"@[0] != "list_processes"@[0]);
            assert("destroy_session"@[0] != "list_sessions"@[0]);
            assert("destroy_session"@[0] != "get_session_status"@[0]);
            assert("destroy_session"@[0] != "set_filters"@[0]);
            assert("destroy_session"@[0] != "get_output"@[0]);
            assert("destroy_session"@[0] != "clear_session"@[0]);
            assert("destroy_session"@[0] != "list_processes"@[0]);
            assert("list_sessions"@[0] != "get_session_status"@[0]);
            assert("list_sessions"@[0] != "set_filters"@[0]);
            assert("list_sessions"@[0] != "get_output"@[0]);
            assert("list_sessions"@[0] != "clear_session"@[0]);
            assert("list_sessions"@[5] != "list_processes"@[5]);
            assert("get_session_status"@[0] != "set_filters"@[0]);
            assert("get_session_status"@[4] != "get_output"@[4]);
            assert("get_session_status"@[0] != "clear_session"@[0]);
            assert("get_session_status"@[0] != "list_processes"@[0]);
            assert("set_filters"@[0] != "get_output"@[0]);
            assert("set_filters"@[0] != "clear_session"@[0]);
            assert("set_filters"@[0] != "list_processes"@[0]);
            assert("get_output"@[0] != "clear_session"@[0]);
            assert("get_output"@[0] != "list_processes"@[0]);
            assert("clear_session"@[0] != "list_processes"@[0]);
        }
        if same_text(name, "create_session") {
            self.create_session_tool(arguments.name)
        } else if same_text(name, "destroy_session") {
            self.destroy_session_tool(arguments.session_id)
        } else if same_text(name, "list_sessions") {
            self.list_sessions_tool()
        } else if same_text(name, "get_session_status") {
            self.session_status_tool(arguments.session_id)
        } else if same_text(name, "set_filters") {
            self.set_filters_tool(arguments)
        } else if same_text(name, "get_output") {
            let limit: usize = match arguments.limit {
                Some(n) => #[verifier::truncate] (n as usize),
                None => 100,
            };
            self.get_output_tool(arguments.session_id, limit)
        } else if same_text(name, "clear_session") {
            self.clear_session_tool(arguments.session_id)
        } else if same_text(name, "list_processes") {
            let processes = match &arguments.name_filter {
                Some(f) => list_processes(Some(f.as_str())),
                None => list_processes(None),
            };
            Ok(ToolResponse::Processes(processes))
        } else {
            let mut message = String::from_str("Unknown tool: ");
            message.append(name);
            Err(message)
        }
    }

    /// Stops the capture and removes every session.
    pub fn shutdown(&mut self)
        requires
            old(self).wf(),
        ensures
            final(self).wf(),
            final(self).manager().sessions() == Seq::<Session>::empty(),
            !final(self).manager().capture_started(),
            !final(self).manager().capture_running(),
            final(self).buffer_view() == old(self).buffer_view(),
    {
        self.session_manager.shutdown();
    }
}

} // verus!
