//! Tests of the MCP tool calls and the JSON-RPC routing

use dbgview::rpc::{read_request, route_request, startup_step, tool_arguments, RpcAction, StartupPhase};
use dbgview::server::{ToolArguments, ToolResponse};
use dbgview::{RingBuffer, SysinternalsMcpServer};

fn no_args() -> ToolArguments {
    ToolArguments {
        name: None,
        session_id: None,
        include_patterns: None,
        exclude_patterns: None,
        process_names: None,
        process_pids: None,
        limit: None,
        name_filter: None,
    }
}

fn with_session(id: &str) -> ToolArguments {
    ToolArguments { session_id: Some(id.to_string()), ..no_args() }
}

fn server() -> SysinternalsMcpServer {
    SysinternalsMcpServer::new(RingBuffer::new(100), true)
}

fn create(server: &mut SysinternalsMcpServer, name: Option<&str>) -> String {
    let args = ToolArguments { name: name.map(|s| s.to_string()), ..no_args() };
    match server.call_tool("create_session", args) {
        Ok(ToolResponse::SessionCreated(c)) => c.session_id,
        other => panic!("unexpected reply: {:?}", other),
    }
}

#[test]
fn create_session_reports_id_and_name() {
    let mut s = server();
    let args = ToolArguments { name: Some("mine".to_string()), ..no_args() };
    match s.call_tool("create_session", args) {
        Ok(ToolResponse::SessionCreated(c)) => {
            assert_eq!(c.session_id, "session_1");
            assert_eq!(c.name, "mine");
        }
        other => panic!("unexpected reply: {:?}", other),
    }
    assert!(s.is_capture_active());
    match s.call_tool("create_session", no_args()) {
        Ok(ToolResponse::SessionCreated(c)) => {
            assert_eq!(c.session_id, "session_2");
            assert_eq!(c.name, "session_2");
        }
        other => panic!("unexpected reply: {:?}", other),
    }
}

#[test]
fn create_session_off_windows_fails() {
    let mut s = SysinternalsMcpServer::new(RingBuffer::new(10), false);
    match s.call_tool("create_session", no_args()) {
        Err(m) => assert_eq!(m, "Platform not supported - Windows only"),
        other => panic!("unexpected reply: {:?}", other),
    }
}

#[test]
fn destroy_session_messages() {
    let mut s = server();
    let id = create(&mut s, None);
    match s.call_tool("destroy_session", with_session(&id)) {
        Ok(ToolResponse::SessionDestroyed(d)) => {
            assert!(d.success);
            assert_eq!(d.message, format!("Session {} destroyed", id));
        }
        other => panic!("unexpected reply: {:?}", other),
    }
    match s.call_tool("destroy_session", with_session(&id)) {
        Err(m) => assert_eq!(m, format!("Session not found: {}", id)),
        other => panic!("unexpected reply: {:?}", other),
    }
    match s.call_tool("destroy_session", no_args()) {
        Err(m) => assert_eq!(m, "session_id is required"),
        other => panic!("unexpected reply: {:?}", other),
    }
}

#[test]
fn list_and_status_report_sessions() {
    let mut s = server();
    let a = create(&mut s, Some("a"));
    let _b = create(&mut s, Some("b"));
    s.record_output(1, b"one\0");
    match s.call_tool("list_sessions", no_args()) {
        Ok(ToolResponse::Sessions(v)) => {
            assert_eq!(v.len(), 2);
            assert_eq!(v[0].name, "a");
            assert_eq!(v[1].name, "b");
            assert!(v.iter().all(|st| st.capture_active && st.pending_count == 1));
        }
        other => panic!("unexpected reply: {:?}", other),
    }
    match s.call_tool("get_session_status", with_session(&a)) {
        Ok(ToolResponse::Status(st)) => {
            assert_eq!(st.id, a);
            assert_eq!(st.pending_count, 1);
        }
        other => panic!("unexpected reply: {:?}", other),
    }
}

#[test]
fn filters_and_output_through_tools() {
    let mut s = server();
    let id = create(&mut s, None);
    let args = ToolArguments {
        include_patterns: Some(vec!["ERROR".to_string()]),
        process_pids: Some(vec![7, (1u64 << 32) + 8]),
        ..with_session(&id)
    };
    match s.call_tool("set_filters", args) {
        Ok(ToolResponse::FiltersUpdated(u)) => {
            assert!(u.success);
            assert_eq!(u.message, "Filters updated");
        }
        other => panic!("unexpected reply: {:?}", other),
    }
    s.record_output(7, b"ERROR one\0");
    s.record_output(9, b"ERROR two\0");
    s.record_output(8, b"ERROR three\0");
    s.record_output(7, b"INFO four\0");
    let args = ToolArguments { limit: Some(10), ..with_session(&id) };
    match s.call_tool("get_output", args) {
        Ok(ToolResponse::Output(v)) => {
            // PID 2^32 + 8 is taken as 8
            let texts: Vec<&str> = v.iter().map(|e| e.text.as_str()).collect();
            assert_eq!(texts, vec!["ERROR one", "ERROR three"]);
        }
        other => panic!("unexpected reply: {:?}", other),
    }
    let bad = ToolArguments { exclude_patterns: Some(vec!["(".to_string()]), ..with_session(&id) };
    match s.call_tool("set_filters", bad) {
        Err(m) => assert!(m.starts_with("Invalid regex pattern: ")),
        other => panic!("unexpected reply: {:?}", other),
    }
}

#[test]
fn clear_session_through_tool() {
    let mut s = server();
    let id = create(&mut s, None);
    s.record_output(1, b"old\0");
    match s.call_tool("clear_session", with_session(&id)) {
        Ok(ToolResponse::SessionCleared(c)) => {
            assert!(c.success);
            assert_eq!(c.message, "Session cleared");
        }
        other => panic!("unexpected reply: {:?}", other),
    }
    match s.call_tool("get_output", with_session(&id)) {
        Ok(ToolResponse::Output(v)) => assert!(v.is_empty()),
        other => panic!("unexpected reply: {:?}", other),
    }
}

#[test]
fn list_processes_tool_and_unknown_tool() {
    let mut s = server();
    match s.call_tool("list_processes", no_args()) {
        Ok(ToolResponse::Processes(v)) => {
            assert!(!v.is_empty());
            assert!(v.windows(2).all(|w| w[0].pid <= w[1].pid));
        }
        other => panic!("unexpected reply: {:?}", other),
    }
    match s.call_tool("frobnicate", no_args()) {
        Err(m) => assert_eq!(m, "Unknown tool: frobnicate"),
        other => panic!("unexpected reply: {:?}", other),
    }
}

#[test]
fn shutdown_stops_everything() {
    let mut s = server();
    let _ = create(&mut s, None);
    s.shutdown();
    assert!(!s.is_capture_active());
    match s.call_tool("list_sessions", no_args()) {
        Ok(ToolResponse::Sessions(v)) => assert!(v.is_empty()),
        other => panic!("unexpected reply: {:?}", other),
    }
}

#[test]
fn requests_are_routed() {
    assert!(matches!(route_request(Some("tools/list"), true), RpcAction::ListTools));
    assert!(matches!(route_request(Some("tools/call"), true), RpcAction::CallTool));
    assert!(matches!(route_request(Some("ping"), true), RpcAction::Ping));
    assert!(matches!(route_request(Some("notifications/cancelled"), true), RpcAction::Ignore));
    assert!(matches!(route_request(Some("bogus"), false), RpcAction::Ignore));
    assert!(matches!(route_request(None, false), RpcAction::Ignore));
    match route_request(Some("bogus"), true) {
        RpcAction::Error { code, message } => {
            assert_eq!(code, -32601);
            assert_eq!(message, "Method not found: bogus");
        }
        other => panic!("unexpected action: {:?}", other),
    }
    match route_request(None, true) {
        RpcAction::Error { code, message } => {
            assert_eq!(code, -32600);
            assert_eq!(message, "Invalid request: missing method");
        }
        other => panic!("unexpected action: {:?}", other),
    }
}

#[test]
fn startup_handshake() {
    let (p, ok) = startup_step(StartupPhase::AwaitingInitialize, Some("ping"));
    assert!(!ok && matches!(p, StartupPhase::AwaitingInitialize));
    let (p, ok) = startup_step(p, Some("initialize"));
    assert!(ok && matches!(p, StartupPhase::AwaitingInitialized));
    let (p, ok) = startup_step(p, None);
    assert!(!ok && matches!(p, StartupPhase::AwaitingInitialized));
    let (p, ok) = startup_step(p, Some("notifications/initialized"));
    assert!(ok && matches!(p, StartupPhase::Running));
}

#[test]
fn unknown_session_leaves_capture_running() {
    let mut s = server();
    create(&mut s, None);
    assert!(s.is_capture_active());
    for tool in ["destroy_session", "get_session_status", "set_filters", "get_output", "clear_session"] {
        let r = s.call_tool(tool, with_session("session_99"));
        match r {
            Err(m) => assert_eq!(m, "Session not found: session_99"),
            other => panic!("unexpected reply: {:?}", other),
        }
        assert!(s.is_capture_active());
    }
    // the numbering was not used up by the failed calls
    assert_eq!(create(&mut s, None), "session_2");
}

#[test]
fn tool_names_are_the_tools_offered() {
    let names = dbgview::server::tool_names();
    assert_eq!(
        names,
        vec![
            "create_session",
            "destroy_session",
            "list_sessions",
            "get_session_status",
            "set_filters",
            "get_output",
            "clear_session",
            "list_processes"
        ]
    );
    let mut s = server();
    for name in names {
        if let Err(m) = s.call_tool(name, no_args()) {
            assert!(!m.starts_with("Unknown tool"), "{} is not routed", name);
        }
    }
}

#[test]
fn server_shutdown_stops_capture() {
    let mut s = server();
    create(&mut s, None);
    s.shutdown();
    assert!(!s.is_capture_active());
}

#[test]
fn get_output_with_huge_limit_on_unknown_session_is_not_found() {
    let mut s = server();
    let args = ToolArguments { limit: Some(u64::MAX), ..with_session("nope") };
    match s.call_tool("get_output", args) {
        Err(m) => assert_eq!(m, "Session not found: nope"),
        other => panic!("unexpected reply: {:?}", other),
    }
    assert!(!s.has_session("nope"));
    let id = create(&mut s, None);
    assert!(s.has_session(&id));
}

#[test]
fn request_lines_are_read() {
    assert!(read_request("not json").is_none());
    assert!(read_request("{\"method\": ").is_none());

    let line = r#"{"jsonrpc":"2.0","id":3,"method":"tools/call","params":{"name":"set_filters","arguments":{"session_id":"s1","include_patterns":["A",1,"B",null],"exclude_patterns":"x","process_pids":[5,"x",-1,7,2.5],"limit":"ten"}}}"#;
    let q = read_request(line).unwrap();
    assert_eq!(q.method.as_deref(), Some("tools/call"));
    assert_eq!(q.id, Some(serde_json::Value::from(3u64)));
    assert_eq!(q.tool_name, "set_filters");
    let a = q.arguments;
    assert_eq!(a.session_id.as_deref(), Some("s1"));
    assert_eq!(a.include_patterns, Some(vec!["A".to_string(), "B".to_string()]));
    assert_eq!(a.exclude_patterns, None);
    assert_eq!(a.process_names, None);
    assert_eq!(a.process_pids, Some(vec![5, 7]));
    assert_eq!(a.limit, None);
    assert_eq!(a.name, None);

    let q = read_request(r#"{"jsonrpc":"2.0","method":"notifications/initialized"}"#).unwrap();
    assert!(q.id.is_none());
    assert_eq!(q.method.as_deref(), Some("notifications/initialized"));
    assert_eq!(q.tool_name, "");
    assert!(q.arguments.session_id.is_none());

    let q = read_request(r#"{"id":null,"method":7,"params":{"name":"get_output","arguments":{"session_id":"s","limit":25}}}"#).unwrap();
    assert_eq!(q.id, Some(serde_json::Value::Null));
    assert_eq!(q.method, None);
    assert_eq!(q.arguments.limit, Some(25));

    let q = read_request("[1,2]").unwrap();
    assert!(q.method.is_none() && q.id.is_none() && q.tool_name.is_empty());
}

#[test]
fn tool_arguments_read_from_json() {
    let v: serde_json::Value =
        serde_json::from_str(r#"{"name":"n","process_names":["a","b"],"name_filter":5}"#).unwrap();
    let a = tool_arguments(&v);
    assert_eq!(a.name.as_deref(), Some("n"));
    assert_eq!(a.process_names, Some(vec!["a".to_string(), "b".to_string()]));
    assert_eq!(a.name_filter, None);
    let a = tool_arguments(&serde_json::Value::Bool(true));
    assert!(a.name.is_none() && a.limit.is_none() && a.process_pids.is_none());
}
