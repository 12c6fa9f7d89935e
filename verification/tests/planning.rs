use keryx::domain::{ToolError, ToolResult};
use keryx::model::auth::{
    headers_from_file, load_secret_pair, needs_secret_file, secret_file_key, secret_from_env_value,
    secret_from_file,
};
use keryx::model::consumer::{interpret_web_body, request_failed_redacted};
use keryx::model::registry::{
    codex_access_token, finish_registration, grok_web_cookie, register_in_order, try_register_grok,
    try_register_openai, ApiProviderEnv, AuthKind, ProviderHandle,
};
use keryx::storage::schema::{migrated_tables, table_info_sql};
use keryx::tools::operator::ClarifyQueue;
use keryx::tools::skills::{
    manage_decision, manage_request, manage_result, skill_load_error, skills_root_doctor_status,
    sorted_skill_names, SkillsRootDoctorKind,
};
use keryx::tools::web::{
    assert_resolved_public, body_text, next_hop, redact_url_for_event, v4_string, HopDecision,
    IpAddress,
};
use keryx::tools::workspace::{
    candidate_parts, check_patch_size, check_user_path, content_hits, is_under_root, jail_outcome,
    join_under_root, may_enter_dir, may_scan_entry, name_hit, patch_result, plan_patch, read_result,
    settle_pending, write_result, EntryKind, NameHit, SearchWalk, WalkEntry,
};
use keryx::tools::{web, workspace};

fn strings(items: &[&str]) -> Vec<String> {
    items.iter().map(|s| s.to_string()).collect()
}

fn failed(e: ToolError) -> String {
    match e {
        ToolError::Failed(m) => m,
        other => panic!("expected a failure, got {other:?}"),
    }
}

#[test]
fn relative_paths_stay_under_their_root() {
    let root = strings(&["srv", "ws"]);
    let joined = join_under_root(&root, "a/./b/../c.txt").unwrap();
    assert_eq!(joined, strings(&["srv", "ws", "a", "c.txt"]));
    assert!(is_under_root(&joined, &root));
    match join_under_root(&root, "a/../../etc/passwd") {
        Err(ToolError::PathJail(m)) => assert_eq!(m, "path escapes workspace root"),
        other => panic!("unexpected {other:?}"),
    }
    assert!(!is_under_root(&strings(&["srv"]), &root));
}

#[test]
fn user_paths_are_prechecked() {
    let jail = |r: Result<(), ToolError>| match r {
        Err(ToolError::PathJail(m)) => m,
        other => panic!("unexpected {other:?}"),
    };
    assert_eq!(jail(check_user_path(0, "a")), "no workspace roots configured");
    assert_eq!(jail(check_user_path(1, "")), "empty path");
    assert_eq!(jail(check_user_path(1, "a\0b")), "invalid path");
    assert!(check_user_path(1, "a/b").is_ok());
}

#[test]
fn patches_replace_one_or_all_occurrences() {
    assert_eq!(plan_patch("a-b-a", "b", "x", false).unwrap(), ("a-x-a".to_string(), 1));
    assert_eq!(plan_patch("a-b-a", "a", "y", true).unwrap(), ("y-b-y".to_string(), 2));
    assert_eq!(
        failed(plan_patch("a-b-a", "a", "y", false).unwrap_err()),
        "apply_patch: old_string matches 2 times; set replace_all=true or use a more specific old_string"
    );
    assert_eq!(
        failed(plan_patch("abc", "z", "y", false).unwrap_err()),
        "apply_patch: old_string not found in file"
    );
    assert!(check_patch_size(1_000_000).is_ok());
    assert_eq!(
        failed(check_patch_size(1_000_001).unwrap_err()),
        "apply_patch: file exceeds 1000000 byte limit"
    );
}

#[test]
fn file_tool_answers_name_path_and_size() {
    let r: ToolResult = patch_result("notes.md", 2, "héllo");
    assert_eq!(r.content, "patched notes.md: 2 replacement(s)");
    assert_eq!(r.summary, "apply_patch path=notes.md replaced=2 bytes=6");
    let r = read_result("a.txt", "abc".to_string());
    assert_eq!((r.content.as_str(), r.summary.as_str()), ("abc", "read_file path=a.txt bytes=3"));
    let r = write_result("a.txt", "abcd");
    assert_eq!(r.content, "wrote 4 bytes");
    assert_eq!(r.summary, "write_file path=a.txt bytes=4");
}

#[test]
fn search_hits_and_walk_limits() {
    let hits = content_hits("src/x.rs", "fn a()\n  let needle = 1;\nneedle again\n", "needle", 5);
    assert_eq!(hits, strings(&["src/x.rs:2: let needle = 1;", "src/x.rs:3: needle again"]));
    let capped = content_hits("f", "n\nn\nn\n", "n", 2);
    assert_eq!(capped, strings(&["f:1: n", "f:2: n"]));
    assert_eq!(name_hit("docs", NameHit::Dir), "docs/ [dir name match]");
    assert_eq!(name_hit("big.bin", NameHit::TooLarge), "big.bin [name match; content skipped size]");
    assert_eq!(name_hit("x.png", NameHit::Unreadable), "x.png [name match; binary/unreadable]");
    assert_eq!(name_hit("a.rs", NameHit::File), "a.rs [name match]");
    assert!(may_enter_dir(0, 20, 0, 32));
    assert!(!may_enter_dir(0, 20, 0, 33));
    assert!(!may_enter_dir(20, 20, 0, 0));
    assert!(!may_scan_entry(0, 20, 10_000));
    assert!(may_scan_entry(19, 20, 9_999));
}

#[test]
fn skills_decisions_and_names() {
    let names = sorted_skill_names(strings(&["zeta", "Bad Name", "alpha", "mid_1"]));
    assert_eq!(names, strings(&["alpha", "mid_1", "zeta"]));
    assert!(manage_decision("create", "alpha", false).is_ok());
    assert_eq!(
        failed(manage_decision("create", "alpha", true).unwrap_err()),
        "skill_manage create: skill already exists: alpha"
    );
    assert_eq!(
        failed(manage_decision("improve", "alpha", false).unwrap_err()),
        "skill_manage improve: skill not found: alpha"
    );
    assert_eq!(
        failed(manage_decision("delete", "alpha", true).unwrap_err()),
        "skill_manage: unknown action 'delete' (use create|improve)"
    );
    let r = manage_result("create", "alpha");
    assert_eq!(r.content, "skill create applied: alpha/SKILL.md");
    assert_eq!(r.summary, "skill_manage create name=alpha");
    assert_eq!(failed(skill_load_error("alpha", true, "x")), "skill not found: alpha");
    assert_eq!(failed(skill_load_error("alpha", false, "denied")), "skill_load alpha: denied");
}

#[test]
fn skills_root_doctor_postures() {
    let s = skills_root_doctor_status("./skills", false, Ok(3));
    assert_eq!((s.kind, s.detail.as_str()), (SkillsRootDoctorKind::Missing, "skills root missing (./skills)"));
    let s = skills_root_doctor_status("./skills", true, Err("denied".into()));
    assert_eq!(s.kind, SkillsRootDoctorKind::Unreadable);
    assert_eq!(s.detail, "skills root unreadable (./skills): denied");
    let s = skills_root_doctor_status("./skills", true, Ok(0));
    assert_eq!(s.kind, SkillsRootDoctorKind::Empty);
    assert_eq!(s.detail, "skills root empty (./skills) — OK; learning loop may populate");
    let s = skills_root_doctor_status("./skills", true, Ok(2));
    assert_eq!((s.kind, s.detail.as_str()), (SkillsRootDoctorKind::Ready, "skills root ./skills (2 package(s))"));
}

#[test]
fn redirect_hops_are_checked_and_bounded() {
    match next_hop("https://example.com/a", 0, 302, Some("/b".into()), String::new()) {
        HopDecision::Follow(next) => assert_eq!(next, "https://example.com/b"),
        _ => panic!("expected a hop"),
    }
    match next_hop("https://example.com/a", 0, 302, Some("http://127.0.0.1/x".into()), String::new()) {
        HopDecision::Done(Err(ToolError::Denied(m))) => assert!(m.contains("127.0.0.1"), "{m}"),
        _ => panic!("expected a denial"),
    }
    match next_hop("https://example.com/a", 3, 301, Some("/b".into()), String::new()) {
        HopDecision::Done(Err(ToolError::Denied(m))) => assert_eq!(m, "web_extract: too many redirects"),
        _ => panic!("expected the hop limit"),
    }
    match next_hop("https://example.com/a", 0, 302, None, String::new()) {
        HopDecision::Done(Err(e)) => assert_eq!(failed(e), "web_extract: redirect without Location"),
        _ => panic!("expected a failure"),
    }
    match next_hop("https://example.com/a", 0, 404, None, String::new()) {
        HopDecision::Done(Err(e)) => assert_eq!(failed(e), "web_extract: HTTP 404 Not Found"),
        _ => panic!("expected a failure"),
    }
    match next_hop("https://example.com/a", 1, 200, None, "page".into()) {
        HopDecision::Done(Ok(b)) => assert_eq!(b, "page"),
        _ => panic!("expected the body"),
    }
}

#[test]
fn resolved_addresses_must_all_be_public() {
    let public = (IpAddress::V4(93, 184, 216, 34), v4_string(93, 184, 216, 34));
    assert_eq!(public.1, "93.184.216.34");
    assert!(assert_resolved_public(&vec![public.clone()]).is_ok());
    let private = (IpAddress::V4(10, 0, 0, 1), "10.0.0.1".to_string());
    match assert_resolved_public(&vec![public, private]) {
        Err(ToolError::Denied(m)) => assert_eq!(
            m,
            "web_extract: resolved address 10.0.0.1 denied (private/link-local/metadata)"
        ),
        other => panic!("unexpected {other:?}"),
    }
    assert_eq!(
        failed(assert_resolved_public(&vec![]).unwrap_err()),
        "web_extract: host resolved to no addresses"
    );
    assert_eq!(body_text(b"caf\xc3\xa9"), "café");
}

#[test]
fn clarify_answer_then_take() {
    let mut q = ClarifyQueue::new();
    let id = q.ask("which branch?".into());
    assert_eq!(q.take_answer(&id), None);
    assert_eq!(q.list_pending().len(), 1);
    q.answer(&id, "main".into()).unwrap();
    assert_eq!(q.take_answer(&id).as_deref(), Some("main"));
    assert!(q.list_pending().is_empty());
    assert_eq!(q.answer("nope", "x".into()).unwrap_err(), "clarify id not found");
}

#[test]
fn secrets_from_values_and_files() {
    assert_eq!(secret_file_key("OPENAI_API_KEY"), "OPENAI_API_KEY_FILE");
    assert_eq!(secret_from_env_value("  sk-1 \n").as_deref(), Some("sk-1"));
    assert_eq!(secret_from_env_value("   "), None);
    assert_eq!(
        secret_from_file("K_FILE", "/run/k", Err("denied".into())).unwrap_err(),
        "failed to read K_FILE=/run/k: denied"
    );
    assert_eq!(secret_from_file("K_FILE", "/run/k", Ok(" tok\n".into())).unwrap().as_deref(), Some("tok"));
    assert_eq!(secret_from_file("K_FILE", "/run/k", Ok("\n".into())).unwrap(), None);
}

#[test]
fn header_files_are_objects_of_strings() {
    let h = headers_from_file("H", "/h.json", Ok("{\"x-a\":\"1\",\"x-b\":\"\"}".into())).unwrap();
    assert_eq!(h, vec![("x-a".to_string(), "1".to_string())]);
    assert_eq!(
        headers_from_file("H", "/h.json", Ok("[1]".into())).unwrap_err(),
        "H must be a JSON object of string headers"
    );
    assert_eq!(
        headers_from_file("H", "/h.json", Ok("{\"x\":1}".into())).unwrap_err(),
        "header x in H must be a string"
    );
    assert!(headers_from_file("H", "/h.json", Ok("{".into())).unwrap_err().starts_with("invalid JSON in H=/h.json: "));
}

#[test]
fn api_key_providers_register_with_defaults() {
    let env = |key: Option<&str>| ApiProviderEnv {
        api_key: key.map(str::to_string),
        model: None,
        models: Some("a, b,,".into()),
        reasoning_effort: None,
        base_url: Some("  ".into()),
    };
    assert!(try_register_openai(env(None)).is_none());
    assert!(try_register_openai(env(Some(""))).is_none());
    let (cfg, d) = try_register_openai(env(Some("sk"))).unwrap();
    assert_eq!(cfg.model, "gpt-5.6-sol");
    assert_eq!(cfg.base_url, "https://api.openai.com/v1");
    assert_eq!(cfg.reasoning_effort.as_deref(), Some("low"));
    assert_eq!(cfg.allowed_models, vec!["a".to_string(), "b".to_string()]);
    assert_eq!((d.name.as_str(), d.auth_kind), ("openai", AuthKind::ApiKey));
    let (cfg, d) = try_register_grok(env(Some("xai"))).unwrap();
    assert_eq!((cfg.model.as_str(), d.name.as_str()), ("grok-4.5", "grok"));
    assert_eq!(cfg.reasoning_effort.as_deref(), Some("medium"));
    assert_eq!(finish_registration(&[d.clone()], None).unwrap(), "grok");
    assert!(finish_registration(&[], None).unwrap_err().starts_with("no model providers configured"));
}

#[test]
fn subscription_and_session_secrets() {
    assert_eq!(codex_access_token(Some("c".into()), Some("w".into())).as_deref(), Some("c"));
    assert_eq!(codex_access_token(None, Some("w".into())).as_deref(), Some("w"));
    assert_eq!(grok_web_cookie(Some(String::new())), None);
    assert_eq!(grok_web_cookie(Some("sso=1".into())).as_deref(), Some("sso=1"));
}

#[test]
fn web_session_bodies_become_completions() {
    let r = interpret_web_body("grok_web", "data: {\"content\":\"grok\"}\n\ndata: {\"content\":\"-web\"}\n\ndata: [DONE]\n\n").unwrap();
    assert_eq!(r.content, "grok-web");
    assert_eq!(r.deltas, vec!["grok".to_string(), "-web".to_string()]);
    let r = interpret_web_body("openai_web", "{\"content\":\"hi\"}").unwrap();
    assert_eq!((r.content.as_str(), r.deltas.len()), ("hi", 1));
    assert!(interpret_web_body("openai_web", "not json").is_err());
    let e = request_failed_redacted("openai_web", "request", "cookie sso=SECRET-REDACTED refused", &["sso=SECRET-REDACTED".to_string()]);
    assert!(!e.message.contains("sso=SECRET-REDACTED"), "{}", e.message);
    assert!(e.message.starts_with("openai_web request failed: "), "{}", e.message);
}

#[test]
fn migration_inspects_the_migrated_tables() {
    assert_eq!(migrated_tables(), strings(&["runs", "sessions", "transcript_messages", "artifacts"]));
    assert_eq!(table_info_sql("runs"), "PRAGMA table_info(runs)");
}

#[test]
fn event_texts_hide_credentials_and_quote_queries() {
    assert_eq!(redact_url_for_event("https://user:pw@example.com/x?q=1"), "https://example.com/x?q=1");
    assert_eq!(redact_url_for_event("not a url"), "not a url");
    let r = web::search_result("say \"hi\"", &vec![]);
    assert_eq!(r.content, "no results for \"say \\\"hi\\\"\"");
    let r = workspace::search_result("needle", "", &vec![]);
    assert_eq!(r.content, "no matches for \"needle\"");
    assert_eq!(r.summary, "search_files query=needle hits=0 path=.");
    assert_eq!(body_text(b"a\xffb"), "a\u{FFFD}b");
}

#[test]
fn manage_requests_are_read_and_checked() {
    let args = |pairs: &[(&str, &str)]| {
        keryx::json::Json::Object(
            pairs.iter().map(|(k, v)| (k.to_string(), keryx::json::Json::Str(v.to_string()))).collect(),
        )
    };
    let q = manage_request(&args(&[("action", "create"), ("name", "alpha"), ("content", "# A")])).unwrap();
    assert_eq!((q.action.as_str(), q.name.as_str(), q.content.as_str()), ("create", "alpha", "# A"));
    let e = manage_request(&args(&[("name", "alpha"), ("content", "x")])).err().unwrap();
    assert_eq!(failed(e), "missing string argument 'action'");
    let e = manage_request(&args(&[("action", "create"), ("name", "../x"), ("content", "x")])).err().unwrap();
    assert_eq!(failed(e), "skill name must not contain path separators");
    let e = manage_request(&args(&[("action", "create"), ("name", "alpha"), ("content", "  ")])).err().unwrap();
    assert_eq!(failed(e), "skill_manage: content must not be empty");
}

fn parts(v: &[&str]) -> Vec<String> {
    v.iter().map(|s| s.to_string()).collect()
}

#[test]
fn jail_candidate_absolute_or_joined() {
    let root = parts(&["srv", "ws"]);
    assert_eq!(candidate_parts(&root, "/etc/./passwd").unwrap(), parts(&["etc", "passwd"]));
    assert_eq!(candidate_parts(&root, "a/../b//c").unwrap(), parts(&["srv", "ws", "b", "c"]));
    match candidate_parts(&root, "a/../../x") {
        Err(ToolError::PathJail(m)) => assert_eq!(m, "path escapes workspace root"),
        other => panic!("unexpected {other:?}"),
    }
}

#[test]
fn jail_accepts_first_candidate_under_its_root() {
    let roots = vec![parts(&["srv", "a"]), parts(&["srv", "b"]), parts(&["srv", "c"])];
    let cands = vec![parts(&["etc", "passwd"]), parts(&["srv", "b", "f"]), parts(&["srv", "c", "g"])];
    assert_eq!(jail_outcome(&roots, &cands).unwrap(), 1);
    let outside = vec![parts(&["etc"]), parts(&["srv", "bb"]), parts(&["srv"])];
    match jail_outcome(&roots, &outside) {
        Err(ToolError::PathJail(m)) => assert_eq!(m, "path is outside allowlisted workspace roots"),
        other => panic!("unexpected {other:?}"),
    }
}

#[test]
fn jail_settles_pending_paths_under_root_only() {
    let root = parts(&["srv", "ws"]);
    assert_eq!(
        settle_pending(&parts(&["srv", "ws", "new"]), &root, "f.txt").unwrap(),
        parts(&["srv", "ws", "new", "f.txt"])
    );
    assert!(matches!(settle_pending(&parts(&["tmp"]), &root, "f"), Err(ToolError::PathJail(_))));
}

#[test]
fn search_walk_enters_each_directory_once_and_caps_hits() {
    let root = parts(&["srv", "ws"]);
    let mut w = SearchWalk::new(2);
    assert!(w.try_enter(&root, &root, 0));
    assert!(!w.try_enter(&root, &root, 0));
    assert!(!w.try_enter(&root, &parts(&["tmp"]), 0));
    assert!(w.scan_next());
    let sub = WalkEntry {
        rel: "notes".into(),
        name: "notes".into(),
        kind: EntryKind::Dir(parts(&["srv", "ws", "notes"])),
    };
    assert!(w.walk_entry(&root, 0, sub, "note"));
    assert_eq!(w.hits, vec!["notes/ [dir name match]".to_string()]);
    // The same directory reached through a link is not walked twice.
    assert!(w.scan_next());
    let again = WalkEntry {
        rel: "link".into(),
        name: "link".into(),
        kind: EntryKind::Dir(parts(&["srv", "ws", "notes"])),
    };
    assert!(!w.walk_entry(&root, 0, again, "note"));
    assert!(w.scan_next());
    let file = WalkEntry {
        rel: "notes/a.txt".into(),
        name: "a.txt".into(),
        kind: EntryKind::File("one note\ntwo notes\nthree notes\n".into()),
    };
    assert!(!w.walk_entry(&root, 1, file, "note"));
    assert_eq!(w.hits.len(), 2);
    assert_eq!(w.hits[1], "notes/a.txt [name match]");
    assert!(!w.scan_next());
    assert_eq!(w.scanned, 3);
}

#[test]
fn search_walk_content_hits_fill_the_room() {
    let root = parts(&["r"]);
    let mut w = SearchWalk::new(3);
    assert!(w.scan_next());
    let file = WalkEntry {
        rel: "a.txt".into(),
        name: "a.txt".into(),
        kind: EntryKind::File("x\nneedle one\nneedle two\nneedle three\nneedle four\n".into()),
    };
    assert!(!w.walk_entry(&root, 0, file, "needle"));
    assert_eq!(
        w.hits,
        vec![
            "a.txt:2: needle one".to_string(),
            "a.txt:3: needle two".to_string(),
            "a.txt:4: needle three".to_string(),
        ]
    );
    assert!(w.scan_next() == false);
}

#[test]
fn secret_pairs_prefer_the_variable_then_the_file() {
    assert!(!needs_secret_file(Some(" sk ")));
    assert!(needs_secret_file(Some("  ")));
    assert!(needs_secret_file(None));
    let got = load_secret_pair("K", Some(" sk "), Some("/run/k"), None).unwrap();
    assert_eq!(got.as_deref(), Some("sk"));
    let got = load_secret_pair("K", Some(" "), Some("/run/k"), Some(Ok("\nfile-tok\n".into()))).unwrap();
    assert_eq!(got.as_deref(), Some("file-tok"));
    assert_eq!(
        load_secret_pair("K", None, Some("/run/k"), Some(Err("gone".into()))).unwrap_err(),
        "failed to read K_FILE=/run/k: gone"
    );
    assert_eq!(load_secret_pair("K", None, Some("/run/k"), Some(Ok(" ".into()))).unwrap(), None);
    assert_eq!(load_secret_pair("K", None, None, None).unwrap(), None);
}

#[test]
fn providers_register_in_a_fixed_order() {
    let env = |key: &str| ApiProviderEnv {
        api_key: Some(key.to_string()),
        model: None,
        models: None,
        reasoning_effort: None,
        base_url: None,
    };
    let found = || {
        let (a, da) = try_register_openai(env("sk")).unwrap();
        let (g, dg) = try_register_grok(env("xai")).unwrap();
        (Some((ProviderHandle::Api(a), da)), Some((ProviderHandle::Api(g), dg)))
    };
    let (o, g) = found();
    let reg = register_in_order(o, g, None, None, None, Some(" grok ")).unwrap();
    let names: Vec<&str> = reg.providers.iter().map(|(n, _)| n.as_str()).collect();
    assert_eq!(names, vec!["openai", "grok"]);
    assert_eq!(reg.descriptors[1].name, "grok");
    assert_eq!(reg.default_provider, "grok");
    let (o, g) = found();
    let err = register_in_order(o, g, None, None, None, None).err().unwrap();
    assert!(err.starts_with("multiple model providers registered"));
    let err = register_in_order(None, None, None, None, None, None).err().unwrap();
    assert!(err.starts_with("no model providers configured"));
}
