use keryx::model::registry::{AuthKind, ProviderDescriptor};
use keryx::tools::mcp::client::McpDoctorReport;
use keryx::tools::web::IpAddress;
use keryx::worker::{
    catalog_from_registered, check_bind, doctor, is_loopback, parse_allowed_tools, parse_roots,
    plan_run, plan_tools, read_secret, worker_config, BindAddr, DoctorFacts, McpDoctorFacts,
    ProvidersFacts, WorkerEnv,
};

fn v4(a: u8, b: u8, c: u8, d: u8, port: u16) -> BindAddr {
    let ip_text = format!("{a}.{b}.{c}.{d}");
    BindAddr { ip: IpAddress::V4(a, b, c, d), port, text: format!("{ip_text}:{port}"), ip_text }
}

fn env_with_token(token: Option<&str>) -> WorkerEnv {
    WorkerEnv {
        bind_raw: None,
        bind_parsed: Ok(v4(127, 0, 0, 1, 8787)),
        data_dir: None,
        operator_token: token.map(str::to_string),
        operator_token_file: None,
        operator_token_file_read: None,
        operator_principal: None,
        global_active_cap: None,
        max_duration_secs: None,
        max_tokens: None,
        max_tool_calls: None,
        workspace_roots: None,
        allowed_tools: None,
    }
}

fn descriptor(name: &str) -> ProviderDescriptor {
    ProviderDescriptor {
        name: name.into(),
        auth_kind: AuthKind::ApiKey,
        display_name: "Display".into(),
        default_model: "m1".into(),
        models: vec!["m1".into()],
        registered: true,
        supports_model_override: true,
    }
}

fn facts() -> DoctorFacts {
    DoctorFacts {
        bind_text: "127.0.0.1:8787".into(),
        bind_loopback: true,
        principals: vec!["operator".into()],
        data_dir_text: "./data".into(),
        data_dir_writable: Ok(()),
        providers: Ok(ProvidersFacts { descriptors: vec![descriptor("openai")], default_provider: "openai".into() }),
        workspace_roots: vec!["/w".into()],
        allowed_tools: vec!["read_file".into()],
        soul: None,
        context_files: vec![],
        skills_root: "./skills".into(),
        skills_root_is_dir: true,
        telegram_token: None,
        docker_available: true,
        env_bind_public: false,
        mcp: None,
        health: Err("connection failed".into()),
    }
}

#[test]
fn rejects_non_loopback_bind() {
    let err = check_bind(Some("0.0.0.0:8787"), Ok(v4(0, 0, 0, 0, 8787))).unwrap_err();
    assert!(err.contains("loopback"), "{err}");
}

#[test]
fn accepts_loopback_bind() {
    let addr = check_bind(Some("127.0.0.1:9999"), Ok(v4(127, 0, 0, 1, 9999))).unwrap();
    assert!(is_loopback(addr.ip));
    assert_eq!(addr.port, 9999);
}

#[test]
fn bind_parse_error_names_the_setting() {
    let err = check_bind(Some("nope"), Err("invalid socket address syntax".into())).unwrap_err();
    assert_eq!(err, "invalid KERYX_BIND 'nope': invalid socket address syntax");
    let err = check_bind(None, Err("e".into())).unwrap_err();
    assert_eq!(err, "invalid KERYX_BIND '127.0.0.1:8787': e");
    assert!(is_loopback(IpAddress::V6(0, 0, 0, 0, 0, 0, 0, 1)));
    assert!(!is_loopback(IpAddress::V6(0, 0, 0, 0, 0, 0xffff, 0x7f00, 1)));
}

#[test]
fn config_requires_an_operator_token() {
    let err = worker_config(env_with_token(None)).unwrap_err();
    assert_eq!(err, "KERYX_OPERATOR_TOKEN or KERYX_OPERATOR_TOKEN_FILE is required");
    let cfg = worker_config(env_with_token(Some("t0k"))).unwrap();
    assert_eq!(cfg.operator_tokens, vec![("t0k".to_string(), "operator".to_string())]);
    assert_eq!(cfg.data_dir, "./data");
    assert_eq!(cfg.global_active_cap, 2);
    assert_eq!(cfg.allowed_tools, vec!["read_file".to_string(), "write_file".to_string()]);
    assert!(cfg.workspace_roots.is_empty());
    assert_eq!(cfg.run_limits().global_cap, 2);
}

#[test]
fn config_reads_lists_and_numbers() {
    let mut env = env_with_token(Some("t"));
    env.global_active_cap = Some("4".into());
    env.max_tokens = Some("x".into());
    env.max_tool_calls = Some("12".into());
    env.workspace_roots = Some("/a::/b".into());
    env.allowed_tools = Some(" read_file , ,shell_exec".into());
    let cfg = worker_config(env).unwrap();
    assert_eq!(cfg.global_active_cap, 4);
    assert_eq!(cfg.budgets.max_tokens, None);
    assert_eq!(cfg.budgets.max_tool_calls, Some(12));
    assert_eq!(cfg.workspace_roots, vec!["/a".to_string(), "/b".to_string()]);
    assert_eq!(cfg.allowed_tools, vec!["read_file".to_string(), "shell_exec".to_string()]);
    assert_eq!(parse_roots(None), Vec::<String>::new());
    assert_eq!(parse_allowed_tools(Some("")), Vec::<String>::new());
}

#[test]
fn secrets_prefer_the_variable_then_the_file() {
    assert_eq!(read_secret("K_FILE", Some("v"), Some("/p"), Some(Ok("f".into()))).unwrap(), Some("v".into()));
    assert_eq!(read_secret("K_FILE", Some(""), Some("/p"), Some(Ok(" f \n".into()))).unwrap(), Some("f".into()));
    assert_eq!(read_secret("K_FILE", None, Some("/p"), Some(Ok("  ".into()))).unwrap(), None);
    assert_eq!(read_secret("K_FILE", None, Some("/p"), Some(Err("gone".into()))).unwrap_err(), "failed to read K_FILE=/p: gone");
    assert_eq!(read_secret("K_FILE", None, None, None).unwrap(), None);
}

#[test]
fn doctor_passes_with_warnings_counted() {
    let (lines, verdict) = doctor("0.1.0", &facts());
    assert!(verdict.is_ok());
    assert_eq!(lines[0], "keryx doctor 0.1.0");
    assert_eq!(lines[1], "ok   bind is loopback (127.0.0.1:8787)");
    assert_eq!(lines[2], "ok   operator tokens configured: 1 (principals: [\"operator\"])");
    assert!(lines.contains(&"     - openai [Display] model=m1 auth=api_key".to_string()));
    assert!(lines.contains(&"info MCP: no servers configured (set KERYX_MCP_CONFIG)".to_string()));
    assert!(lines.contains(&"info no live Worker at http://127.0.0.1:8787/health (connection failed) — start with: keryx".to_string()));
    assert_eq!(lines[lines.len() - 2], "doctor: all required checks passed (0 warning(s))");
}

#[test]
fn doctor_fails_on_failed_checks() {
    let mut f = facts();
    f.bind_loopback = false;
    f.data_dir_writable = Err("read-only".into());
    f.docker_available = false;
    f.mcp = Some(McpDoctorFacts {
        config_path: Some("/etc/mcp.json".into()),
        server_count: 0,
        policy_extra_tools: vec![],
        report: McpDoctorReport::new(),
    });
    let (lines, verdict) = doctor("v", &f);
    assert_eq!(verdict.unwrap_err(), "2 check(s) failed, 1 warning(s)");
    assert!(lines.contains(&"fail data dir not writable (./data): read-only".to_string()));
    assert!(lines.contains(&"ok   MCP config path /etc/mcp.json (0 server(s))".to_string()));
    assert_eq!(lines[lines.len() - 1], "");
}

#[test]
fn tools_plan_follows_allowlist_and_roots() {
    let allowed = vec!["read_file".to_string(), "web_search".to_string(), "shell_exec".to_string()];
    let p = plan_tools(&allowed, &[], None);
    assert!(p.workspace.is_empty());
    assert_eq!(p.web, vec!["web_search".to_string()]);
    assert_eq!(p.terminal, vec!["shell_exec".to_string()]);
    assert!(!p.deny_all);
    let p = plan_tools(&allowed, &["/w".to_string()], Some(vec!["mcp.a.b".into()]));
    assert_eq!(p.workspace, vec!["read_file".to_string()]);
    assert!(p.terminal_cwd_roots);
    assert_eq!(p.mcp, vec!["mcp.a.b".to_string()]);
    assert!(plan_tools(&[], &["/w".to_string()], None).deny_all);
}

#[test]
fn run_plan_wires_gateway_and_paths() {
    let cfg = worker_config(env_with_token(Some("t"))).unwrap();
    let plan = plan_run(&cfg, &["mcp.a.x".to_string()], &[], &["extra".to_string()], Some("tg"), Some("bad"), None);
    assert_eq!(plan.control_plane_extra, vec!["mcp.a.x".to_string(), "extra".to_string()]);
    let g = plan.gateway.unwrap();
    assert_eq!(g.principal, "operator");
    assert_eq!(g.run_timeout_secs, 180);
    assert_eq!(plan.skills_root, "./skills");
    assert_eq!(plan.artifacts_dir, "./data/artifacts");
    let none = plan_run(&cfg, &[], &[], &[], Some("  "), None, Some("/s"));
    assert!(none.gateway.is_none());
    assert_eq!(none.skills_root, "/s");
}

#[test]
fn provider_catalog_lists_descriptors() {
    let c = catalog_from_registered(&ProvidersFacts { descriptors: vec![descriptor("grok")], default_provider: "grok".into() });
    assert_eq!(c.default.as_deref(), Some("grok"));
    assert_eq!(c.providers[0].auth_kind, "api_key");
    assert_eq!(c.providers[0].models, vec!["m1".to_string()]);
}
