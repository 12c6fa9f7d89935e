use keryx::domain::{ToolCall, ToolError};
use keryx::json::Json;
use keryx::tools::mcp::config::validate_server_id;
use keryx::tools::mcp::protocol::{
    encode_framed, namespaced_tool_name, parse_namespaced_tool, try_decode_framed,
};
use keryx::tools::skills::validate_skill_name;
use keryx::tools::web::{
    is_public_ip, validate_public_http_url, FixedWebExtract, FixedWebSearch, IpAddress, SearchHit,
    WebAction, WebTools,
};

fn obj(members: Vec<(&str, Json)>) -> Json {
    Json::Object(members.into_iter().map(|(k, v)| (k.to_string(), v)).collect())
}

fn call(name: &str, args: Json) -> ToolCall {
    ToolCall { name: name.to_string(), arguments: args }
}

#[test]
fn rejects_invalid_server_id() {
    assert!(validate_server_id("gmail").is_ok());
    assert!(validate_server_id("home_assistant").is_ok());
    assert!(validate_server_id("Gmail").is_err());
    assert!(validate_server_id("1bad").is_err());
    assert!(validate_server_id("bad-id").is_err());
    assert!(validate_server_id("").is_err());
}

#[test]
fn server_id_errors_name_the_charset() {
    assert_eq!(validate_server_id("").unwrap_err(), "server_id must not be empty");
    assert_eq!(
        validate_server_id("Gmail").unwrap_err(),
        "server_id 'Gmail' must start with a lowercase letter (charset: ^[a-z][a-z0-9_]*$)"
    );
    assert_eq!(
        validate_server_id("bad-id").unwrap_err(),
        "server_id 'bad-id' has invalid characters (charset: ^[a-z][a-z0-9_]*$)"
    );
}

#[test]
fn namespace_roundtrip() {
    let n = namespaced_tool_name("gmail", "search");
    assert_eq!(n, "mcp.gmail.search");
    assert_eq!(parse_namespaced_tool(&n), Some(("gmail", "search")));
    assert_eq!(parse_namespaced_tool("mcp.gmail.send_message"), Some(("gmail", "send_message")));
}

#[test]
fn namespaced_parse_rejects_malformed_names() {
    assert_eq!(parse_namespaced_tool("gmail.search"), None);
    assert_eq!(parse_namespaced_tool("mcp..search"), None);
    assert_eq!(parse_namespaced_tool("mcp.gmail."), None);
    assert_eq!(parse_namespaced_tool("mcp.gmail"), None);
    assert_eq!(parse_namespaced_tool("mcp.a.b.c"), Some(("a", "b.c")));
}

#[test]
fn frame_roundtrip() {
    let body = r#"{"jsonrpc":"2.0","id":1,"result":{}}"#;
    let framed = encode_framed(body);
    let (decoded, n) = try_decode_framed(&framed).unwrap().unwrap();
    assert_eq!(decoded, body);
    assert_eq!(n, framed.len());
}

#[test]
fn frame_waits_for_the_whole_body_and_rejects_bad_headers() {
    let framed = encode_framed("héllo");
    assert_eq!(&framed[..20], b"Content-Length: 6\r\n\r");
    assert_eq!(try_decode_framed(&framed[..framed.len() - 1]).unwrap(), None);
    assert_eq!(try_decode_framed(b"Content-Length: 2").unwrap(), None);
    assert!(try_decode_framed(b"Content-Length: x\r\n\r\nab").is_err());
    assert!(try_decode_framed(b"X: 1\r\n\r\nab").unwrap_err().contains("Content-Length"));
    let lf = b"Content-Length: 2\n\nab";
    assert_eq!(try_decode_framed(lf).unwrap(), Some(("ab".to_string(), lf.len())));
}

#[test]
fn rejects_path_traversal_names() {
    assert!(validate_skill_name("../x").is_err());
    assert!(validate_skill_name("a/b").is_err());
    assert!(validate_skill_name("").is_err());
    assert!(validate_skill_name("good-skill_1").is_ok());
}

#[test]
fn ssrf_denies_private_and_metadata() {
    for bad in [
        "http://127.0.0.1/",
        "http://localhost/admin",
        "http://192.168.1.1/",
        "http://10.0.0.5/",
        "http://169.254.169.254/latest/meta-data/",
        "http://[::1]/",
        "file:///etc/passwd",
        "ftp://example.com/",
    ] {
        let err = validate_public_http_url(bad).unwrap_err();
        let s = err.to_text();
        assert!(
            s.contains("denied") || s.contains("invalid") || s.contains("scheme"),
            "expected deny for {bad}: {s}"
        );
    }
}

#[test]
fn ssrf_allows_public_https() {
    validate_public_http_url("https://example.com/path").unwrap();
    validate_public_http_url("http://93.184.216.34/").unwrap();
}

#[test]
fn redirect_location_to_private_fails_form_check() {
    for loc in [
        "http://127.0.0.1/secret",
        "http://169.254.169.254/latest/meta-data/",
        "http://10.1.2.3/admin",
        "http://192.168.0.1/",
    ] {
        assert!(validate_public_http_url(loc).is_err(), "redirect target must be denied: {loc}");
    }
}

#[test]
fn ipv4_mapped_and_compatible_loopback_denied() {
    assert!(!is_public_ip(IpAddress::V6(0, 0, 0, 0, 0, 0xffff, 0x7f00, 0x0001)));
    assert!(!is_public_ip(IpAddress::V6(0, 0, 0, 0, 0, 0xffff, 0x0a00, 0x0001)));
    assert!(!is_public_ip(IpAddress::V6(0, 0, 0, 0, 0, 0xffff, 0xa9fe, 0xa9fe)));
}

#[test]
fn public_addresses_pass() {
    assert!(is_public_ip(IpAddress::V4(93, 184, 216, 34)));
    assert!(!is_public_ip(IpAddress::V4(100, 64, 0, 1)));
    assert!(!is_public_ip(IpAddress::V6(0, 0, 0, 0, 0, 0, 0, 1)));
}

#[test]
fn tools_smoke() {
    assert_eq!(keryx::tools::crate_name(), "keryx-tools");
}

#[test]
fn storage_smoke() {
    assert_eq!(keryx::storage::crate_name(), "keryx-storage");
}

#[test]
fn fixed_search_and_extract_plan_and_answer() {
    let tools = WebTools::new(vec!["web_search".into(), "web_extract".into()]);
    let search = FixedWebSearch {
        hits: vec![SearchHit {
            title: "Example".into(),
            url: "https://example.com".into(),
            snippet: "Example Domain".into(),
        }],
    };
    let plan = tools
        .plan_call(&call("web_search", obj(vec![("query", Json::Str("example".into()))])))
        .unwrap();
    let (query, max) = match plan {
        WebAction::Search { query, max_results } => (query, max_results),
        _ => panic!("expected a search"),
    };
    assert_eq!(max, 5);
    let hits = search.search(&query, max).unwrap();
    let s = keryx::tools::web::search_result(&query, &hits);
    assert!(s.content.contains("example.com"));
    assert!(s.summary.contains("hits=1"));

    let extract = FixedWebExtract {
        pages: vec![("https://example.com".into(), "Example Domain body".into())],
        enforce_ssrf: true,
    };
    let plan = tools
        .plan_call(&call("web_extract", obj(vec![("url", Json::Str("https://example.com".into()))])))
        .unwrap();
    let url = match plan {
        WebAction::Extract { url } => url,
        _ => panic!("expected an extract"),
    };
    let body = extract.extract(&url).unwrap();
    let e = keryx::tools::web::extract_result(&url, body);
    assert!(e.content.contains("Example Domain body"));
    assert!(e.summary.contains("chars="));
}

#[test]
fn extract_plan_denies_private_before_backend() {
    let tools = WebTools::new(vec!["web_extract".into()]);
    let err = tools
        .plan_call(&call("web_extract", obj(vec![("url", Json::Str("http://127.0.0.1/".into()))])))
        .unwrap_err();
    assert!(err.to_text().contains("denied"), "{}", err.to_text());
    let err = tools.plan_call(&call("web_search", obj(vec![]))).unwrap_err();
    assert!(matches!(err, ToolError::Denied(_)));
}

#[test]
fn framed_decode_leaves_trailing_bytes() {
    let frame = encode_framed("{\"id\":1}");
    let mut buf = frame.clone();
    buf.extend_from_slice(b"Content-Length: 2\r\n\r\n{}");
    let (body, used) = try_decode_framed(&buf).unwrap().unwrap();
    assert_eq!(body, "{\"id\":1}");
    assert_eq!(used, frame.len());
    let (next, used2) = try_decode_framed(&buf[used..]).unwrap().unwrap();
    assert_eq!((next.as_str(), used2), ("{}", buf.len() - used));
}

#[test]
fn framed_decode_waits_on_every_proper_prefix() {
    let frame = encode_framed("hello");
    for m in 0..frame.len() {
        assert_eq!(try_decode_framed(&frame[..m]).unwrap(), None, "prefix {m}");
    }
}

#[test]
fn framed_header_without_length_is_an_error() {
    let err = try_decode_framed(b"X-Other: 1\r\n\r\nbody").unwrap_err();
    assert_eq!(err, "MCP frame missing Content-Length");
}
