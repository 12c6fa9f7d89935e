use base64::Engine;
use keryx::domain::{Message, MessageRole, ModelRequest, ModelResponse, ToolSpec};
use keryx::json::Json;
use keryx::model::auth::ConsumerWebAuth;
use keryx::model::consumer::extract_account_id_from_jwt;
use keryx::model::error::{map_http_status, redact_secrets};
use keryx::model::fake::FakeModelProvider;
use keryx::model::multi::MultiModelProvider;
use keryx::model::openai_compatible::{
    check_api_status, wire_name_exec, ChatStream, OpenAiCompatibleConfig,
};
use keryx::model::parse::{extract_text_delta, parse_sse_text_deltas};
use keryx::model::registry::{
    resolve_default_provider, resolve_when_unset, AuthKind, ProviderDescriptor,
};

fn obj(members: Vec<(&str, Json)>) -> Json {
    Json::Object(members.into_iter().map(|(k, v)| (k.to_string(), v)).collect())
}

fn request(goal: &str, provider: Option<&str>, tools: Vec<&str>) -> ModelRequest {
    ModelRequest {
        goal: goal.to_string(),
        transcript: vec![Message { role: MessageRole::User, content: "hi".to_string() }],
        model: None,
        provider: provider.map(str::to_string),
        tools: tools.into_iter().map(|t| ToolSpec::empty_params(t, "d")).collect(),
    }
}

#[test]
fn redacts_cookie_material() {
    let secrets = vec!["session=abc123xyz".to_string()];
    let msg = "failed Cookie: session=abc123xyz end";
    assert_eq!(redact_secrets(msg, &secrets), "failed Cookie: [REDACTED] end");
}

#[test]
fn unauthorized_is_session_message() {
    let err = map_http_status("openai_web", 401, &[]);
    assert!(err.to_text().contains("session expired or rejected"));
    assert!(!err.to_text().contains("Bearer"));
}

#[test]
fn usable_requires_cookie_or_token() {
    assert!(!ConsumerWebAuth::empty().is_usable());
    assert!(ConsumerWebAuth {
        cookie_header: Some("a=b".into()),
        bearer_token: None,
        extra_headers: Vec::new(),
    }
    .is_usable());
    assert!(ConsumerWebAuth {
        cookie_header: None,
        bearer_token: Some("tok".into()),
        extra_headers: Vec::new(),
    }
    .is_usable());
}

#[test]
fn extracts_account_id_shape() {
    let payload = base64::engine::general_purpose::URL_SAFE_NO_PAD
        .encode(br#"{"https://api.openai.com/auth":{"chatgpt_account_id":"acct-1"}}"#);
    let jwt = format!("hdr.{payload}.sig");
    assert_eq!(extract_account_id_from_jwt(&jwt).as_deref(), Some("acct-1"));
}

#[test]
fn padded_account_id_payload_still_reads() {
    let payload = base64::engine::general_purpose::URL_SAFE
        .encode(br#"{"https://api.openai.com/auth":{"chatgpt_account_id":"a"}}"#);
    assert!(payload.ends_with('='));
    let jwt = format!("h.{payload}.s");
    assert_eq!(extract_account_id_from_jwt(&jwt).as_deref(), Some("a"));
}

#[test]
fn account_id_needs_a_payload_segment() {
    assert_eq!(extract_account_id_from_jwt("no-dots-here"), None);
    assert_eq!(extract_account_id_from_jwt("h.!!!.s"), None);
}

#[test]
fn extracts_chatgpt_parts() {
    let v = obj(vec![(
        "message",
        obj(vec![("content", obj(vec![("parts", Json::Array(vec![Json::Str("hello".into())]))]))]),
    )]);
    assert_eq!(extract_text_delta(&v).as_deref(), Some("hello"));
}

#[test]
fn parses_sse_cumulative_parts() {
    let body = "\
data: {\"message\":{\"content\":{\"parts\":[\"Hel\"]}}}\n\n\
data: {\"message\":{\"content\":{\"parts\":[\"Hello\"]}}}\n\n\
data: [DONE]\n\n";
    let deltas = parse_sse_text_deltas(body);
    assert_eq!(deltas, vec!["Hel".to_string(), "lo".to_string()]);
}

#[test]
fn parses_pure_content_deltas() {
    let body = "\
data: {\"content\":\"grok\"}\n\n\
data: {\"content\":\"-web\"}\n\n\
data: [DONE]\n\n";
    let deltas = parse_sse_text_deltas(body);
    assert_eq!(deltas, vec!["grok".to_string(), "-web".to_string()]);
}

#[test]
fn resolve_single_provider_without_env() {
    let name = resolve_when_unset(&["openai".into()]).unwrap();
    assert_eq!(name, "openai");
}

#[test]
fn resolve_multiple_requires_explicit() {
    let err = resolve_when_unset(&["openai".into(), "grok".into()]).unwrap_err();
    assert!(err.contains("KERYX_DEFAULT_PROVIDER"), "{err}");
}

#[test]
fn default_provider_refuses_fake_and_unknown() {
    let err = resolve_default_provider(Some("fake"), &["openai".into()]).unwrap_err();
    assert!(err.contains("fake"), "{err}");
    let err = resolve_default_provider(Some("grok"), &["openai".into()]).unwrap_err();
    assert!(err.contains("not available"), "{err}");
    assert_eq!(resolve_default_provider(Some(" openai "), &["openai".into()]).unwrap(), "openai");
    assert_eq!(resolve_default_provider(Some("  "), &["openai".into()]).unwrap(), "openai");
}

#[test]
fn model_smoke() {
    assert_eq!(keryx::model::crate_name(), "keryx-model");
}

#[test]
fn auth_kind_wire_names() {
    assert_eq!(AuthKind::ApiKey.as_str(), "api_key");
    assert_eq!(AuthKind::OauthAccessToken.as_str(), "oauth_access_token");
    assert_eq!(AuthKind::BrowserSession.as_str(), "browser_session");
}

#[test]
fn fake_model_script_then_fixed_then_greeting() {
    let scripted = ModelResponse {
        content: "first".into(),
        deltas: vec![],
        tool_calls: vec![],
        tokens_used: 7,
    };
    let mut p = FakeModelProvider::with_script(vec![scripted]);
    let r1 = p.complete(&request("g", None, vec!["read_file"]));
    assert_eq!(r1.content, "first");
    assert_eq!(r1.tokens_used, 7);
    assert_eq!(p.last_tool_names(), vec!["read_file".to_string()]);
    let r2 = p.complete(&request("goal", None, vec![]));
    assert_eq!(r2.content, "fake-model: goal=goal transcript_msgs=1");
    assert_eq!(r2.tokens_used, r2.content.chars().count() as u64);
    assert!(p.last_tool_names().is_empty());

    let mut d = FakeModelProvider::with_deltas(vec!["ab".into(), "c".into()]);
    let r3 = d.complete(&request("g", None, vec![]));
    assert_eq!(r3.content, "abc");
    assert_eq!(r3.deltas, vec!["ab".to_string(), "c".to_string()]);
    assert_eq!(r3.tokens_used, 3);

    let mut e = FakeModelProvider::with_fixed_content(String::new());
    assert_eq!(e.complete(&request("g", None, vec![])).tokens_used, 1);

    let mut t = FakeModelProvider::with_tool_calls("x".into(), vec!["a".into(), "b".into()]);
    let r4 = t.complete(&request("g", None, vec![]));
    assert_eq!(r4.tool_calls.len(), 2);
    assert_eq!(r4.tool_calls[1].name, "b");
    assert_eq!(FakeModelProvider::with_delay(5, "x".into()).delay(), Some(5));
}

#[test]
fn multi_provider_routes_by_name_or_default() {
    let d = ProviderDescriptor {
        name: "openai".into(),
        auth_kind: AuthKind::ApiKey,
        display_name: "OpenAI".into(),
        default_model: "m".into(),
        models: vec![],
        registered: true,
        supports_model_override: true,
    };
    let m = MultiModelProvider::new("grok".into(), vec!["openai".into(), "grok".into()], vec![d]);
    assert_eq!(m.route(&request("g", None, vec![])).unwrap(), 1);
    assert_eq!(m.route(&request("g", Some("openai"), vec![])).unwrap(), 0);
    let err = m.route(&request("g", Some("nope"), vec![])).unwrap_err();
    assert_eq!(err.message, "unknown model provider 'nope'");
    let s = MultiModelProvider::single("solo");
    assert_eq!(s.default_provider(), "solo");
    assert_eq!(s.registered_names(), vec!["solo".to_string()]);
    assert_eq!(s.descriptors()[0].auth_kind, AuthKind::ApiKey);
}

fn member<'a>(j: &'a Json, key: &str) -> &'a Json {
    match j {
        Json::Object(m) => &m.iter().find(|(k, _)| k == key).expect("member").1,
        _ => panic!("not an object"),
    }
}

fn has_member(j: &Json, key: &str) -> bool {
    match j {
        Json::Object(m) => m.iter().any(|(k, _)| k == key),
        _ => false,
    }
}

fn search_schema() -> Json {
    obj(vec![
        ("type", Json::Str("object".into())),
        ("properties", obj(vec![("q", obj(vec![("type", Json::Str("string".into()))]))])),
        ("required", Json::Array(vec![Json::Str("q".into())])),
    ])
}

#[test]
fn openai_compatible_sends_tools_catalog_when_present() {
    let cfg = OpenAiCompatibleConfig::openai("test-openai-key".into(), "gpt-test".into());
    let mut req = request("use tools", None, vec![]);
    req.tools = vec![
        ToolSpec { name: "mcp.mail.search".into(), description: "search mail".into(), parameters: search_schema() },
        ToolSpec::empty_params("read_file", "read workspace file"),
    ];
    let plan = cfg.plan_request(&req).unwrap();
    let tools = match member(&plan.body, "tools") {
        Json::Array(a) => a,
        _ => panic!("tools array on wire"),
    };
    assert_eq!(tools.len(), 2);
    assert_eq!(member(&tools[0], "type"), &Json::Str("function".into()));
    let f0 = member(&tools[0], "function");
    assert_eq!(member(f0, "name"), &Json::Str("mcp__mail__search".into()));
    assert_eq!(member(f0, "description"), &Json::Str("search mail".into()));
    assert_eq!(member(f0, "parameters"), &search_schema());
    assert_eq!(member(member(&tools[1], "function"), "name"), &Json::Str("read_file".into()));
    assert_eq!(member(&plan.body, "tool_choice"), &Json::Str("auto".into()));
}

#[test]
fn openai_compatible_omits_tools_when_catalog_empty() {
    let cfg = OpenAiCompatibleConfig::openai("k".into(), "gpt-test".into());
    let plan = cfg.plan_request(&request("x", None, vec![])).unwrap();
    assert!(!has_member(&plan.body, "tools"));
    assert!(!has_member(&plan.body, "tool_choice"));
    assert_eq!(member(&plan.body, "model"), &Json::Str("gpt-test".into()));
    assert_eq!(member(&plan.body, "stream"), &Json::Bool(true));
}

#[test]
fn wire_names_replace_dots() {
    assert_eq!(wire_name_exec("mcp.mail.search"), "mcp__mail__search");
    assert_eq!(wire_name_exec("read_file"), "read_file");
}

fn stream_tool_calls_body() -> String {
    let chunks = [
        r#"{"choices":[{"delta":{"tool_calls":[{"index":0,"id":"call_1","function":{"name":"mcp__demo__echo","arguments":""}}]}}]}"#,
        r#"{"choices":[{"delta":{"tool_calls":[{"index":0,"function":{"arguments":"{\"msg\":"}}]}}]}"#,
        r#"{"choices":[{"delta":{"tool_calls":[{"index":0,"function":{"arguments":"\"hi\"}"}}]}}]}"#,
    ];
    let mut out = String::new();
    for c in chunks {
        out.push_str("data: ");
        out.push_str(c);
        out.push_str("\n\n");
    }
    out.push_str("data: [DONE]\n\n");
    out
}

#[test]
fn openai_compatible_assembles_streamed_tool_calls() {
    let mut stream = ChatStream::new();
    let body = stream_tool_calls_body();
    // Fed in two uneven pieces, as a network would hand it over.
    let (a, b) = body.split_at(37);
    stream.feed(a);
    stream.feed(b);
    let tools = vec![ToolSpec::empty_params("mcp.demo.echo", "echo")];
    let response = stream.finish("openai", &tools).unwrap();
    assert_eq!(response.tool_calls.len(), 1);
    assert_eq!(response.tool_calls[0].name, "mcp.demo.echo");
    assert_eq!(member(&response.tool_calls[0].arguments, "msg"), &Json::Str("hi".into()));
    assert_eq!(response.content, "");
}

#[test]
fn openai_stream_of_text_only() {
    let mut stream = ChatStream::new();
    stream.feed("data: {\"choices\":[{\"delta\":{\"content\":\"Hel\"}}]}\n\ndata: {\"choices\":[{\"delta\":{\"content\":\"lo\"}}]}\n\ndata: [DONE]\n\n");
    let response = stream.finish("openai", &vec![]).unwrap();
    assert_eq!(response.content, "Hello");
    assert_eq!(response.deltas, vec!["Hel", "lo"]);
    assert!(response.tool_calls.is_empty());
}

#[test]
fn openai_empty_stream_is_an_error() {
    let mut stream = ChatStream::new();
    stream.feed("data: [DONE]\n\n");
    let err = stream.finish("openai", &vec![]).unwrap_err();
    assert!(err.message.contains("openai stream produced no content"));
}

#[test]
fn openai_tool_call_with_bad_arguments_is_an_error() {
    let mut stream = ChatStream::new();
    stream.feed("data: {\"choices\":[{\"delta\":{\"tool_calls\":[{\"index\":0,\"function\":{\"name\":\"read_file\",\"arguments\":\"{oops\"}}]}}]}\n\n");
    let err = stream.finish("openai", &vec![ToolSpec::empty_params("read_file", "r")]).unwrap_err();
    assert!(err.message.contains("tool call arguments are not JSON"));
}

#[test]
fn openai_tool_call_without_arguments_gets_empty_object() {
    let mut stream = ChatStream::new();
    stream.feed("data: {\"choices\":[{\"delta\":{\"tool_calls\":[{\"index\":0,\"function\":{\"name\":\"read_file\"}}]}}]}\n\n");
    let response = stream.finish("openai", &vec![]).unwrap();
    assert_eq!(response.tool_calls.len(), 1);
    assert_eq!(response.tool_calls[0].name, "read_file");
    assert_eq!(response.tool_calls[0].arguments, Json::Object(vec![]));
}

#[test]
fn redaction_hides_secrets_sharing_marker_letters() {
    let secrets = vec!["SECRET".to_string(), String::new(), "T0KEN".to_string()];
    let out = redact_secrets("key SECRET then xT0KENy", &secrets);
    assert_eq!(out, "key [REDACTED] then x[REDACTED]y");
    assert!(!out.contains("SECRET"));
    assert_eq!(redact_secrets("nothing here", &secrets), "nothing here");
}

#[test]
fn api_status_errors_name_the_code() {
    assert!(check_api_status("openai", 204).is_ok());
    let err = check_api_status("openai", 401).unwrap_err();
    assert_eq!(err.message, "openai: upstream HTTP 401 Unauthorized");
    let err = check_api_status("grok", 599).unwrap_err();
    assert!(err.message.starts_with("grok: upstream HTTP 599 "));
}
