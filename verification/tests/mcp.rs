use keryx::domain::{ToolCall, ToolError};
use keryx::json::{Json, JsonNumber};
use keryx::tools::mcp::client::{
    build_bundle, content_to_text, frame_step, mock_registry_from_peer, mock_request,
    register_tools, remote_reply, resolve_env, rpc_request, secret_token, stdio_reply,
    ContentBlock, FrameStep, JsonRpcError, JsonRpcResponse, McpClientRegistry, McpDoctorReport,
    McpInvoke, McpSession, McpToolDef, MockMcpPeer, ToolsCallResult,
};
use keryx::tools::mcp::config::{validate_mcp_config, McpConfig, McpServerConfig, McpTransportConfig};
use keryx::tools::mcp::mock::{McpClientTools, McpServerExport};
use keryx::tools::mcp::protocol::encode_framed;

fn obj(members: Vec<(&str, Json)>) -> Json {
    Json::Object(members.into_iter().map(|(k, v)| (k.to_string(), v)).collect())
}

fn call(name: &str) -> ToolCall {
    ToolCall { name: name.to_string(), arguments: Json::Object(Vec::new()) }
}

fn server(id: &str, enabled: bool, allow: Vec<&str>, hb: Vec<&str>) -> McpServerConfig {
    McpServerConfig {
        server_id: id.to_string(),
        enabled,
        transport: McpTransportConfig::Stdio { command: "x".into(), args: vec![] },
        cwd: None,
        env: vec![],
        env_files: vec![],
        tool_filter: vec![],
        high_blast: hb.into_iter().map(str::to_string).collect(),
        policy_allowlist: allow.into_iter().map(str::to_string).collect(),
        timeout_ms: None,
        max_result_chars: None,
    }
}

fn def(name: &str) -> McpToolDef {
    McpToolDef { name: name.to_string(), description: None, input_schema: None }
}

#[test]
fn mcp_serve_requires_auth() {
    let serve = McpServerExport::new(vec!["read_file".into()], MockMcpPeer::new());
    assert!(serve
        .invoke_exported(false, "read_file", &Json::Null)
        .unwrap_err()
        .to_text()
        .contains("authenticated"));
    assert!(serve.invoke_exported(true, "read_file", &Json::Null).unwrap().contains("exported"));
    assert!(serve.invoke_exported(true, "other", &Json::Null).unwrap_err().to_text().contains("not exported"));
}

#[test]
fn mcp_client_namespaced_and_disconnect_fail_closed() {
    let peer = MockMcpPeer::new().with_tool("echo", "pong");
    let mut tools = McpClientTools::new(vec!["mcp.demo.echo".into()], peer, "mcp.demo.");
    assert_eq!(tools.server_id(), "demo");
    let ok = tools.invoke(&call("mcp.demo.echo")).unwrap();
    assert!(ok.content.contains("pong"));
    assert!(tools.catalog().iter().any(|t| t.name == "mcp.demo.echo"));
    assert_eq!(tools.registered_names(), vec!["mcp.demo.echo".to_string()]);
    tools.peer.disconnect();
    let err = tools.invoke(&call("mcp.demo.echo")).unwrap_err();
    assert!(err.to_text().contains("fail closed"));
}

#[test]
fn client_tools_refuse_outside_names() {
    let peer = MockMcpPeer::new().with_tool("echo", "pong");
    let tools = McpClientTools::for_server("demo", vec![], peer);
    assert_eq!(tools.invoke(&call("mcp.demo.echo")).unwrap().summary, "mcp_client tool=mcp.demo.echo");
    let err = tools.invoke(&call("other.echo")).unwrap_err();
    assert_eq!(err.to_text(), "tool denied: not an MCP namespaced tool other.echo");
    let err = tools.invoke(&call("mcp.demo.nope")).unwrap_err();
    assert_eq!(err.to_text(), "tool denied: MCP tool 'nope' not registered");
    let limited = McpClientTools::for_server("demo", vec!["mcp.demo.x".into()], MockMcpPeer::new());
    let err = limited.invoke(&call("mcp.demo.echo")).unwrap_err();
    assert_eq!(err.to_text(), "tool denied: unknown or disallowed tool 'mcp.demo.echo'");
}

#[test]
fn from_mock_register_invoke_and_disconnect() {
    let peer = MockMcpPeer::new().with_tool("echo", "pong").with_tool("send", "sent");
    let mut reg =
        McpClientRegistry::from_mock("demo", peer, &["echo".to_string()], &["send".to_string()]);
    assert!(reg.registered_names().contains(&"mcp.demo.echo".to_string()));
    assert!(reg.registered_names().contains(&"mcp.demo.send".to_string()));
    assert_eq!(reg.control_plane_extra_tools(), vec!["mcp.demo.echo".to_string()]);
    assert_eq!(reg.high_blast_tools(), vec!["mcp.demo.send".to_string()]);
    match reg.invoke(&call("mcp.demo.echo")) {
        McpInvoke::Done(Ok(r)) => assert!(r.content.contains("pong")),
        other => panic!("unexpected {other:?}"),
    }
    reg.disconnect_server("demo");
    match reg.invoke(&call("mcp.demo.echo")) {
        McpInvoke::Done(Err(e)) => {
            let s = e.to_text();
            assert!(s.contains("fail closed") || s.contains("disconnected"), "{s}");
        }
        other => panic!("unexpected {other:?}"),
    }
    let doctor = reg.doctor_report();
    assert!(!doctor.servers[0].connected);
    assert_eq!(doctor.servers[0].error.as_deref(), Some("disconnected"));
    assert!(reg.catalog().is_empty());
}

#[test]
fn catalog_exposes_schemas() {
    let schema = obj(vec![
        ("type", Json::Str("object".into())),
        ("properties", obj(vec![("q", obj(vec![("type", Json::Str("string".into()))]))])),
    ]);
    let peer = MockMcpPeer::new().with_tool_schema("search", "hits", "search mail", schema);
    let reg = mock_registry_from_peer("mail", peer, &[], &[]);
    let cat = reg.catalog();
    assert_eq!(cat.len(), 1);
    assert_eq!(cat[0].name, "mcp.mail.search");
    assert_eq!(cat[0].description, "search mail");
    assert!(keryx::json::get_exec(&cat[0].parameters, "properties").is_some());
}

#[test]
fn registry_refuses_before_any_server() {
    let reg = mock_registry_from_peer("demo", MockMcpPeer::new().with_tool("echo", "pong"), &[], &[]);
    match reg.invoke(&call("echo")) {
        McpInvoke::Done(Err(ToolError::Denied(m))) => assert_eq!(m, "not an MCP namespaced tool 'echo'"),
        other => panic!("unexpected {other:?}"),
    }
    match reg.invoke(&call("mcp.other.echo")) {
        McpInvoke::Done(Err(ToolError::Denied(m))) => {
            assert_eq!(m, "MCP server 'other' not registered for tool 'mcp.other.echo'")
        }
        other => panic!("unexpected {other:?}"),
    }
    match reg.invoke(&call("mcp.demo.nope")) {
        McpInvoke::Done(Err(ToolError::Denied(m))) => {
            assert_eq!(m, "MCP tool 'mcp.demo.nope' not registered on server 'demo'")
        }
        other => panic!("unexpected {other:?}"),
    }
}

#[test]
fn live_session_sends_then_finishes_calls() {
    let session = McpSession::open("svc", &[def("ping"), def("other")], &["ping".to_string()], 5000, 4);
    assert_eq!(session.registered_names(), vec!["mcp.svc.ping".to_string()]);
    let mut cfg = McpConfig { servers: vec![server("svc", true, vec!["ping"], vec![])] };
    let bundle = build_bundle(&cfg, vec![Some(Ok(session))]);
    let reg = bundle.runtime.expect("a session connected");
    let c = ToolCall { name: "mcp.svc.ping".into(), arguments: obj(vec![("a", Json::Bool(true))]) };
    let (idx, params) = match reg.invoke(&c) {
        McpInvoke::Send { session, params } => (session, params),
        other => panic!("unexpected {other:?}"),
    };
    assert_eq!(keryx::json::get_str_exec(&params, "name").map(String::as_str), Some("ping"));
    let parsed = ToolsCallResult {
        content: vec![ContentBlock { kind: Some("text".into()), text: Some("pong-remote".into()) }],
        is_error: false,
    };
    let r = reg.finish_invoke("mcp.svc.ping", idx, Ok(parsed)).unwrap();
    assert_eq!(r.content, "pong…[truncated]");
    assert_eq!(r.summary, "mcp_client tool=mcp.svc.ping");
    let err = reg.finish_invoke("mcp.svc.ping", idx, Err("bad".into())).unwrap_err();
    assert_eq!(err.to_text(), "tool failed: MCP tools/call result parse error on 'svc': bad");
    let failing = ToolsCallResult {
        content: vec![ContentBlock { kind: None, text: Some("boom".into()) }],
        is_error: true,
    };
    let err = reg.finish_invoke("mcp.svc.ping", idx, Ok(failing)).unwrap_err();
    assert_eq!(err.to_text(), "tool failed: MCP tools/call error on 'svc': boom");
    cfg.servers.clear();
}

#[test]
fn bundle_reports_every_server() {
    let cfg = McpConfig {
        servers: vec![
            server("off", false, vec!["a"], vec![]),
            server("bad", true, vec!["b"], vec!["c"]),
        ],
    };
    let bundle = build_bundle(&cfg, vec![None, Some(Err("spawn 'x': nope".into()))]);
    assert!(bundle.runtime.is_none());
    assert_eq!(bundle.control_plane_extra, vec!["mcp.bad.b".to_string()]);
    assert_eq!(bundle.high_blast, vec!["mcp.bad.c".to_string()]);
    assert_eq!(bundle.doctor.servers[0].error.as_deref(), Some("disabled"));
    assert_eq!(bundle.doctor.servers[1].error.as_deref(), Some("spawn 'x': nope"));
    let lines = bundle.doctor.lines();
    assert_eq!(
        lines[0],
        "warn MCP server 'off' status=error discovered=0 allowlisted=0 high_blast=0"
    );
    assert_eq!(lines[1], "     error: disabled");
    assert!(lines.contains(&"     control_plane allowlist: [\"mcp.bad.b\"]".to_string()));
    assert!(McpDoctorReport::new().is_empty());
    assert_eq!(
        McpDoctorReport::new().lines(),
        vec!["info MCP: no servers configured (set KERYX_MCP_CONFIG)".to_string()]
    );
}

#[test]
fn tool_filter_keeps_named_tools_with_defaults() {
    let defs = vec![def("a"), McpToolDef { name: "b".into(), description: Some("B".into()), input_schema: None }];
    let all = register_tools("s", &defs, &[]);
    assert_eq!(all.len(), 2);
    assert_eq!(all[0].description, "MCP tool");
    assert_eq!(all[1].namespaced, "mcp.s.b");
    let some = register_tools("s", &defs, &["b".to_string()]);
    assert_eq!(some.len(), 1);
    assert_eq!(some[0].description, "B");
}

#[test]
fn content_blocks_join_their_texts() {
    let blocks = vec![
        ContentBlock { kind: None, text: Some("a".into()) },
        ContentBlock { kind: None, text: None },
        ContentBlock { kind: None, text: Some("b".into()) },
    ];
    assert_eq!(content_to_text(&blocks), "a\nb");
    assert_eq!(content_to_text(&[]), "");
}

#[test]
fn mock_peer_answers_json_rpc() {
    let peer = MockMcpPeer::new().with_tool("echo", "pong");
    let init = mock_request(&peer, true, "initialize", None).unwrap();
    assert_eq!(keryx::json::get_str_exec(&init, "protocolVersion").map(String::as_str), Some("2024-11-05"));
    let list = mock_request(&peer, true, "tools/list", None).unwrap();
    match keryx::json::get_exec(&list, "tools") {
        Some(Json::Array(ts)) => assert_eq!(ts.len(), 1),
        other => panic!("unexpected {other:?}"),
    }
    let params = obj(vec![("name", Json::Str("echo".into()))]);
    let res = mock_request(&peer, true, "tools/call", Some(&params)).unwrap();
    assert_eq!(keryx::json::get_exec(&res, "isError"), Some(&Json::Bool(false)));
    let missing = obj(vec![("name", Json::Str("nope".into()))]);
    assert!(matches!(mock_request(&peer, true, "tools/call", Some(&missing)), Err(ToolError::Denied(_))));
    assert!(mock_request(&peer, true, "ping", None).unwrap_err().to_text().contains("unsupported method 'ping'"));
    assert!(mock_request(&peer, false, "initialize", None).unwrap_err().to_text().contains("fail closed"));
}

#[test]
fn json_rpc_replies_match_ids() {
    let req = rpc_request(7, "tools/list", None);
    assert_eq!(keryx::json::get_u64_exec(&req, "id"), Some(7));
    let ok = JsonRpcResponse { id: Some(Json::Number(JsonNumber::PosInt(7))), result: Some(Json::Bool(true)), error: None };
    assert_eq!(stdio_reply(7, ok).unwrap().unwrap(), Json::Bool(true));
    let other = JsonRpcResponse { id: Some(Json::Str("8".into())), result: Some(Json::Null), error: None };
    assert!(stdio_reply(7, other).is_none());
    let by_text = JsonRpcResponse { id: Some(Json::Str("7".into())), result: None, error: None };
    assert_eq!(stdio_reply(7, by_text).unwrap().unwrap_err().to_text(), "tool failed: MCP stdio empty result");
    let err = JsonRpcResponse {
        id: None,
        result: None,
        error: Some(JsonRpcError { code: -32601, message: "no such method".into() }),
    };
    assert_eq!(remote_reply(err).unwrap_err().to_text(), "tool failed: MCP JSON-RPC error -32601: no such method");
}

#[test]
fn frame_steps_read_until_a_whole_frame() {
    let framed = encode_framed("{}");
    match frame_step(&framed) {
        FrameStep::Frame(b, n) => {
            assert_eq!(b, "{}");
            assert_eq!(n, framed.len());
        }
        other => panic!("unexpected {other:?}"),
    }
    assert!(matches!(frame_step(b"Content-Len"), FrameStep::NeedMore));
    match frame_step(b"Content-Length: q\r\n\r\n") {
        FrameStep::Fail(m) => assert!(m.starts_with("MCP frame: invalid Content-Length")),
        other => panic!("unexpected {other:?}"),
    }
}

#[test]
fn stdio_env_and_remote_token() {
    let env = vec![("A".to_string(), "1".to_string()), ("B".to_string(), "2".to_string())];
    let files = vec![("B".to_string(), "/s/b".to_string())];
    let out = resolve_env(&env, &files, &[Ok("  secret \n".to_string())]).unwrap();
    assert!(out.contains(&("B".to_string(), "secret".to_string())));
    assert!(out.contains(&("A".to_string(), "1".to_string())));
    let err = resolve_env(&env, &files, &[Err("denied".to_string())]).unwrap_err();
    assert_eq!(err, "env_files B=/s/b: denied");
    assert_eq!(secret_token(Some("/t"), Some(Ok(" tok ".into())), None).unwrap(), Some("tok".into()));
    assert_eq!(secret_token(Some("/t"), Some(Ok("  ".into())), Some("env")).unwrap(), None);
    assert_eq!(secret_token(None, None, Some("env")).unwrap(), Some("env".into()));
    assert_eq!(secret_token(None, None, Some("")).unwrap(), None);
    assert_eq!(secret_token(Some("/t"), Some(Err("gone".into())), None).unwrap_err(), "auth_token_file /t: gone");
}

#[test]
fn duplicate_server_id_rejected() {
    let mut second = server("a", true, vec![], vec![]);
    second.transport = McpTransportConfig::Stdio { command: "y".into(), args: vec![] };
    let cfg = McpConfig { servers: vec![server("a", true, vec![], vec![]), second] };
    assert!(validate_mcp_config(&cfg).unwrap_err().contains("duplicate"));
}

#[test]
fn tools_call_malformed_result_fails_closed() {
    let session = McpSession::over_peer("demo", MockMcpPeer::new().with_tool("echo", "pong"));
    // A result that is not an object fails to parse: the call fails closed.
    let err = session
        .finish_call(Err("invalid type: string \"not-an-object\", expected struct".to_string()))
        .unwrap_err();
    assert!(!err.to_text().is_empty());
    assert!(matches!(err, ToolError::Failed(_)));
    // An empty object reads as no content and no error flag: not a failure.
    let ok = session.finish_call(Ok(ToolsCallResult { content: vec![], is_error: false })).unwrap();
    assert!(ok.is_empty());
}
