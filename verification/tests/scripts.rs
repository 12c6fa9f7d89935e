use keryx::domain::{RunOrigin, ToolCall, ToolError, ToolResult};
use keryx::json::Json;
use keryx::tools::execute_code::{ExecuteCodeTools, ScriptOutcome};
use keryx::tools::mcp::client::child_env;
use keryx::tools::workspace::{WorkspaceAction, WorkspaceFsTools};

fn obj(members: Vec<(&str, Json)>) -> Json {
    Json::Object(members.into_iter().map(|(k, v)| (k.to_string(), v)).collect())
}

fn runner() -> ExecuteCodeTools {
    ExecuteCodeTools::new(vec!["execute_code".to_string()], RunOrigin::ControlPlane)
}

fn finished(o: ScriptOutcome) -> Result<ToolResult, ToolError> {
    match o {
        ScriptOutcome::Finished(r) => r,
        ScriptOutcome::Call { name, .. } => panic!("unexpected call to {name}"),
    }
}

#[test]
fn script_of_prints_needs_no_host() {
    let r = finished(runner().run_script("# note\nprint hi", &[])).unwrap();
    assert_eq!(r.content, "hi");
    assert_eq!(r.summary, "execute_code rpc_calls=0");
    let r = finished(runner().run_script("\n# only comments\n", &[])).unwrap();
    assert_eq!(r.content, "execute_code: no ops");
}

#[test]
fn script_tool_calls_go_through_the_host_in_order() {
    let code = "print start\ntool read_file {\"path\":\"a\"}\ntool list\nprint end";
    match runner().run_script(code, &[]) {
        ScriptOutcome::Call { name, arguments, last_line } => {
            assert_eq!(name, "read_file");
            assert_eq!(arguments, obj(vec![("path", Json::Str("a".into()))]));
            assert!(!last_line);
        }
        _ => panic!("expected a call"),
    }
    let first = Ok(ToolResult { content: "x".into(), summary: "read a".into() });
    match runner().run_script(code, &[first]) {
        ScriptOutcome::Call { name, arguments, .. } => {
            assert_eq!(name, "list");
            assert_eq!(arguments, Json::Object(vec![]));
        }
        _ => panic!("expected a second call"),
    }
    let answers = vec![
        Ok(ToolResult { content: "x".into(), summary: "read a".into() }),
        Err(ToolError::Denied("no".into())),
    ];
    let r = finished(runner().run_script(code, &answers)).unwrap();
    assert_eq!(r.content, "start\nread_file: read a\nlist: error=tool denied: no\nend");
    assert_eq!(r.summary, "execute_code rpc_calls=2");
}

#[test]
fn script_failures_name_the_line() {
    let err = finished(runner().run_script("print a\nrm -rf x", &[])).unwrap_err();
    match err {
        ToolError::Failed(m) => {
            assert_eq!(m, "line 2: only 'tool NAME {json}' or 'print …' allowed (fence)")
        }
        other => panic!("unexpected {other:?}"),
    }
    let err = finished(runner().run_script("tool {}", &[])).unwrap_err();
    assert!(matches!(err, ToolError::Failed(m) if m == "line 1: empty tool name"));
    let mut quota = runner();
    quota.max_rpc_calls = 1;
    let answers = vec![Ok(ToolResult { content: String::new(), summary: "ok".into() })];
    let err = finished(quota.run_script("tool a\ntool b", &answers)).unwrap_err();
    assert!(matches!(err, ToolError::Failed(m) if m == "execute_code: RPC call quota exceeded"));
}

fn pairs(v: &[(&str, &str)]) -> Vec<(String, String)> {
    v.iter().map(|(k, v)| (k.to_string(), v.to_string())).collect()
}

fn value<'a>(env: &'a [(String, String)], k: &str) -> Option<&'a str> {
    env.iter().find(|(n, _)| n == k).map(|(_, v)| v.as_str())
}

#[test]
fn stdio_child_gets_only_safe_worker_variables_and_its_overlay() {
    let worker = pairs(&[
        ("PATH", "/bin"),
        ("HOME", "/home/w"),
        ("KERYX_OPERATOR_TOKEN", "secret"),
        ("OPENAI_API_KEY", "sk"),
        ("LANG", "C"),
    ]);
    let overlay = pairs(&[("HOME", "/srv"), ("API_TOKEN", "t")]);
    let env = child_env(&worker, &overlay);
    assert_eq!(value(&env, "PATH"), Some("/bin"));
    assert_eq!(value(&env, "HOME"), Some("/srv"));
    assert_eq!(value(&env, "LANG"), Some("C"));
    assert_eq!(value(&env, "API_TOKEN"), Some("t"));
    assert_eq!(value(&env, "KERYX_OPERATOR_TOKEN"), None);
    assert_eq!(value(&env, "OPENAI_API_KEY"), None);
    assert_eq!(value(&env, "TERM"), None);
    assert_eq!(env.len(), 4);
}

#[test]
fn file_tools_plan_reads_and_writes() {
    let tools = WorkspaceFsTools::new(
        vec!["/srv".to_string()],
        vec!["read_file".to_string(), "write_file".to_string()],
    );
    let read = ToolCall { name: "read_file".into(), arguments: obj(vec![("path", Json::Str("a.txt".into()))]) };
    assert!(matches!(tools.plan_call(&read), Ok(WorkspaceAction::Read { path }) if path == "a.txt"));
    let write = ToolCall {
        name: "write_file".into(),
        arguments: obj(vec![("path", Json::Str("b".into())), ("content", Json::Str("hi".into()))]),
    };
    assert!(matches!(
        tools.plan_call(&write),
        Ok(WorkspaceAction::Write { path, content }) if path == "b" && content == "hi"
    ));
    let shell = ToolCall { name: "shell_exec".into(), arguments: obj(vec![]) };
    assert!(matches!(tools.plan_call(&shell), Err(ToolError::Denied(_))));
}
