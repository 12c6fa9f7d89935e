use keryx::domain::{MessageRole, RunOrigin, ToolCall, ToolError};
use keryx::json::Json;
use keryx::storage::memory::InMemorySessionStore;
use keryx::storage::records::{
    approval_status_from_str, approval_status_to_str, role_to_str, schedule_status_from_str,
    schedule_status_to_str, origin_from_str, origin_to_str, parse_uuid, role_from_str, status_from_str, status_to_str,
    uuid_string, Approval, ApprovalStatus, MemoryEntry, Run, RunStatus, ScheduleStatus, Session,
    TranscriptMessage,
};
use keryx::storage::schema::{
    approval_from_row, fts_query, like_pattern, memory_from_row, message_from_row,
    next_page_cursor, pending_migrations, row_limit, run_from_row, schedule_from_row,
    session_from_row, MessageRow,
};
use keryx::tools::memory::MemoryTools;

fn obj(members: Vec<(&str, Json)>) -> Json {
    Json::Object(members.into_iter().map(|(k, v)| (k.to_string(), v)).collect())
}

fn s(v: &str) -> Json {
    Json::Str(v.to_string())
}

fn msg(id: &str, content: &str) -> TranscriptMessage {
    TranscriptMessage {
        id: id.to_string(),
        run_id: None,
        created_at: 0,
        role: MessageRole::User,
        content: content.to_string(),
        tool: None,
    }
}

fn run(id: u128, session: u128, status: RunStatus) -> Run {
    Run {
        id,
        session_id: session,
        principal_id: "op".into(),
        goal: "g".into(),
        status,
        origin: RunOrigin::ControlPlane,
        parent_run_id: None,
        result: None,
    }
}

#[test]
fn uuid_text_reads_back() {
    let id: u128 = 0xa1a2a3a4b1b2c1c2d1d2d3d4d5d6d7d8;
    let t = uuid_string(id);
    assert_eq!(t, "a1a2a3a4-b1b2-c1c2-d1d2-d3d4d5d6d7d8");
    assert_eq!(parse_uuid(&t), Ok(id));
    assert!(parse_uuid("not-a-uuid").is_err());
}

#[test]
fn run_status_text_roundtrip() {
    for st in [RunStatus::Active, RunStatus::Completed, RunStatus::Failed, RunStatus::Cancelled, RunStatus::Interrupted] {
        assert_eq!(status_from_str(status_to_str(st)), Ok(st));
    }
    assert_eq!(status_from_str("zzz").unwrap_err(), "unknown run status: zzz");
    assert_eq!(role_from_str("tool"), Ok(MessageRole::Tool));
}

#[test]
fn store_reads_back_writes_and_interrupts_active_runs() {
    let mut st = InMemorySessionStore::new();
    st.create_session(Session { id: 1, principal_id: "op".into(), title: None, created_at: 1, updated_at: 1 });
    assert_eq!(st.get_session(1).unwrap().principal_id, "op");
    assert!(st.update_session(Session { id: 2, principal_id: "x".into(), title: None, created_at: 0, updated_at: 0 }).is_err());
    st.create_run(run(10, 1, RunStatus::Active));
    st.create_run(run(11, 1, RunStatus::Completed));
    st.create_run(run(12, 1, RunStatus::Active));
    assert_eq!(st.count_runs(), 3);
    assert_eq!(st.interrupt_active_runs(), 2);
    assert_eq!(st.get_run(10).unwrap().status, RunStatus::Interrupted);
    assert_eq!(st.get_run(11).unwrap().status, RunStatus::Completed);
    assert_eq!(st.list_runs_for_session(1).len(), 3);
}

#[test]
fn approval_decided_once() {
    let mut st = InMemorySessionStore::new();
    let a = Approval {
        id: 5,
        run_id: 10,
        action: "send".into(),
        summary: "s".into(),
        status: ApprovalStatus::Pending,
        requested_by: "op".into(),
        decided_by: None,
    };
    st.create_approval(a.clone());
    let mut yes = a.clone();
    yes.status = ApprovalStatus::Approved;
    assert!(st.update_approval_if_pending(yes));
    let mut no = a;
    no.status = ApprovalStatus::Denied;
    assert!(!st.update_approval_if_pending(no));
    assert_eq!(st.get_approval(5).unwrap().status, ApprovalStatus::Approved);
    assert!(st.list_approvals(true).is_empty());
}

#[test]
fn transcript_pages_walk_back() {
    let mut st = InMemorySessionStore::new();
    for i in 0..5 {
        st.append_transcript(7, msg(&format!("m{i}"), "x"));
    }
    let (page, next) = st.get_transcript_page(7, 2, None);
    assert_eq!(page.iter().map(|m| m.id.clone()).collect::<Vec<_>>(), vec!["m4", "m3"]);
    assert_eq!(next.as_deref(), Some("m3"));
    let (page, _) = st.get_transcript_page(7, 2, next.as_deref());
    assert_eq!(page.iter().map(|m| m.id.clone()).collect::<Vec<_>>(), vec!["m2", "m1"]);
}

#[test]
fn searches_ignore_ascii_case_and_cap_hits() {
    let mut st = InMemorySessionStore::new();
    st.append_transcript(1, msg("a", "Hello World"));
    st.append_transcript(1, msg("b", "nothing"));
    st.append_transcript(2, msg("c", "hello again"));
    let hits = st.search_transcripts("HELLO", 10);
    assert_eq!(hits.iter().map(|(sid, m)| (*sid, m.id.clone())).collect::<Vec<_>>(), vec![(1, "a".to_string()), (2, "c".to_string())]);
    assert_eq!(st.search_transcripts("hello", 0).len(), 1);
    st.create_memory(MemoryEntry { id: 3, content: "Rust tips".into(), label: Some("Lang".into()), source_run_id: None, source_principal_id: None });
    assert_eq!(st.search_memory("lang", 5).len(), 1);
    assert_eq!(st.search_memory("python", 5).len(), 0);
}

#[test]
fn memory_tools_write_read_update_delete() {
    let mut st = InMemorySessionStore::new();
    let tools = MemoryTools::new(vec![
        "memory_write".into(),
        "memory_read".into(),
        "memory_update".into(),
        "memory_delete".into(),
        "memory_search".into(),
        "session_search".into(),
    ])
    .with_provenance(Some(9), Some("op".into()));
    let id: u128 = 0x0123456789abcdef0123456789abcdef;
    let idt = uuid_string(id);
    let w = tools.memory_write(&mut st, &obj(vec![("content", s("remember this")), ("label", s("L"))]), id).unwrap();
    assert_eq!(w.content, format!("memory stored id={idt}"));
    assert_eq!(st.get_memory(id).unwrap().source_run_id, Some(9));
    let r = tools.memory_read(&st, &obj(vec![("id", s(&idt))])).unwrap();
    assert_eq!(r.content, format!("id={idt} label=Some(\"L\")\nremember this"));
    assert_eq!(r.summary, format!("memory_read id={idt} chars=13"));
    let u = tools.memory_update(&mut st, &obj(vec![("id", s(&idt)), ("content", s("new"))])).unwrap();
    assert_eq!(u.summary, format!("memory_update id={idt}"));
    assert_eq!(st.get_memory(id).unwrap().content, "new");
    assert_eq!(st.get_memory(id).unwrap().label.as_deref(), Some("L"));
    let q = tools.memory_search(&st, &obj(vec![("query", s("NEW"))])).unwrap();
    assert_eq!(q.content, format!("- {idt} [L]: new"));
    assert_eq!(q.summary, "memory_search hits=1");
    tools.memory_delete(&mut st, &obj(vec![("id", s(&idt))])).unwrap();
    let err = tools.memory_read(&st, &obj(vec![("id", s(&idt))])).unwrap_err();
    assert_eq!(err.to_text(), format!("tool failed: memory {idt} not found"));
}

#[test]
fn memory_tools_refuse_bad_calls() {
    let mut st = InMemorySessionStore::new();
    let tools = MemoryTools::new(vec!["memory_write".into(), "session_search".into()]);
    let err = tools.invoke(&mut st, &ToolCall { name: "memory_read".into(), arguments: obj(vec![]) }).unwrap_err();
    assert!(matches!(err, ToolError::Denied(_)));
    let err = tools.invoke(&mut st, &ToolCall { name: "memory_write".into(), arguments: obj(vec![("content", s("  "))]) }).unwrap_err();
    assert_eq!(err.to_text(), "tool failed: memory_write: content empty");
    let err = tools.invoke(&mut st, &ToolCall { name: "memory_write".into(), arguments: obj(vec![]) }).unwrap_err();
    assert_eq!(err.to_text(), "tool failed: missing string argument 'content'");
    let ok = tools.invoke(&mut st, &ToolCall { name: "memory_write".into(), arguments: obj(vec![("content", s("c"))]) }).unwrap();
    assert!(ok.content.starts_with("memory stored id="));
    let none = tools.invoke(&mut st, &ToolCall { name: "session_search".into(), arguments: obj(vec![("query", s("zz"))]) }).unwrap();
    assert_eq!(none.content, "no transcript matches for \"zz\"");
    assert_eq!(none.summary, "session_search hits=0");
    assert_eq!(tools.catalog().iter().map(|t| t.name.clone()).collect::<Vec<_>>(), vec!["memory_write", "session_search"]);
}

#[test]
fn migrations_only_add_missing_columns() {
    let all = pending_migrations(&[]);
    assert_eq!(all.len(), 13);
    assert_eq!(all[0], "ALTER TABLE runs ADD COLUMN origin TEXT NOT NULL DEFAULT 'control_plane'");
    let have = vec![("runs".to_string(), "origin".to_string()), ("artifacts".to_string(), "content_text".to_string())];
    let some = pending_migrations(&have);
    assert_eq!(some.len(), 11);
    assert_eq!(some[0], "ALTER TABLE runs ADD COLUMN parent_run_id TEXT");
}

#[test]
fn query_texts_and_row_mapping() {
    assert_eq!(fts_query("a \"b\" c"), "\"a b c\"");
    assert_eq!(like_pattern("x"), "%x%");
    assert_eq!(row_limit(0), 1);
    let row = MessageRow {
        row_id: 42,
        message_id: String::new(),
        run_id: Some(String::new()),
        created_at: 3,
        role: "assistant".into(),
        content: "c".into(),
        tool_name: Some("read_file".into()),
        tool_status: None,
        tool_summary: None,
        artifact_refs: Some("[\"r1\",\"r2\"]".into()),
    };
    let m = message_from_row(row).unwrap();
    assert_eq!(m.id, "row-42");
    assert_eq!(m.run_id, None);
    assert_eq!(m.role, MessageRole::Assistant);
    let t = m.tool.clone().unwrap();
    assert_eq!(t.status, "unknown");
    assert_eq!(t.artifact_refs, vec!["r1".to_string(), "r2".to_string()]);
    assert_eq!(next_page_cursor(&[m], 1).as_deref(), Some("row-42"));
    let bad = MessageRow {
        row_id: 1,
        message_id: "m".into(),
        run_id: None,
        created_at: 0,
        role: "robot".into(),
        content: String::new(),
        tool_name: None,
        tool_status: None,
        tool_summary: None,
        artifact_refs: None,
    };
    assert_eq!(message_from_row(bad).unwrap_err(), "unknown message role: robot");
    let sess = session_from_row(&uuid_string(77), "op".into(), Some(String::new()), 1, 2).unwrap();
    assert_eq!(sess.id, 77);
    assert_eq!(sess.title, None);
}

const RUN_ID: &str = "00000000-0000-0000-0000-000000000007";
const SESSION_ID: &str = "00000000-0000-0000-0000-000000000001";

#[test]
fn run_origin_text_roundtrip() {
    for o in [RunOrigin::ControlPlane, RunOrigin::Gateway, RunOrigin::Schedule, RunOrigin::Subagent] {
        assert_eq!(origin_from_str(origin_to_str(o)).unwrap(), o);
    }
    assert_eq!(origin_to_str(RunOrigin::ControlPlane), "control_plane");
    assert_eq!(origin_from_str("cron").unwrap_err(), "unknown run origin: cron");
}

#[test]
fn run_row_reads_back() {
    let run = run_from_row(
        RUN_ID,
        SESSION_ID,
        "operator".into(),
        "goal".into(),
        "completed",
        Some("done".into()),
        "gateway",
        Some(String::new()),
    )
    .unwrap();
    assert_eq!(run.id, 7);
    assert_eq!(run.session_id, 1);
    assert_eq!(run.status, RunStatus::Completed);
    assert_eq!(run.origin, RunOrigin::Gateway);
    assert_eq!(run.parent_run_id, None);
    assert_eq!(run.result.as_deref(), Some("done"));
}

#[test]
fn run_row_errors_in_column_order() {
    assert!(run_from_row("x", "y", "p".into(), "g".into(), "odd", None, "odd", None).is_err());
    let e = run_from_row(RUN_ID, SESSION_ID, "p".into(), "g".into(), "odd", None, "odd", None)
        .unwrap_err();
    assert_eq!(e, "unknown run status: odd");
    let e = run_from_row(RUN_ID, SESSION_ID, "p".into(), "g".into(), "active", None, "odd", None)
        .unwrap_err();
    assert_eq!(e, "unknown run origin: odd");
    let parent = run_from_row(
        RUN_ID,
        SESSION_ID,
        "p".into(),
        "g".into(),
        "active",
        None,
        "control_plane",
        Some(SESSION_ID.into()),
    )
    .unwrap();
    assert_eq!(parent.parent_run_id, Some(1));
}

#[test]
fn approval_and_memory_rows_read_back() {
    let a = approval_from_row(
        SESSION_ID,
        RUN_ID,
        "shell_exec".into(),
        "rm".into(),
        "pending",
        "operator".into(),
        None,
    )
    .unwrap();
    assert_eq!((a.id, a.run_id, a.status), (1, 7, ApprovalStatus::Pending));
    let e = approval_from_row(SESSION_ID, RUN_ID, "a".into(), "s".into(), "maybe", "o".into(), None)
        .unwrap_err();
    assert_eq!(e, "unknown approval status: maybe");
    let m = memory_from_row(RUN_ID, "note".into(), Some("l".into()), Some(SESSION_ID.into()), None)
        .unwrap();
    assert_eq!((m.id, m.source_run_id), (7, Some(1)));
    assert!(memory_from_row(RUN_ID, "note".into(), None, Some(String::new()), None).is_err());
}

#[test]
fn schedule_row_clamps_interval_and_reads_tools() {
    let sch = schedule_from_row(
        RUN_ID,
        "operator".into(),
        Some(String::new()),
        "tick".into(),
        0,
        "paused",
        42,
        "[\"read_file\",\"web_search\"]",
        None,
    )
    .unwrap();
    assert_eq!(sch.interval_secs, 1);
    assert_eq!(sch.session_id, None);
    assert_eq!(sch.status, ScheduleStatus::Paused);
    assert_eq!(sch.policy_tools, vec!["read_file".to_string(), "web_search".to_string()]);
    let odd = schedule_from_row(RUN_ID, "o".into(), None, "g".into(), 90, "active", 0, "{}", None)
        .unwrap();
    assert_eq!(odd.interval_secs, 90);
    assert!(odd.policy_tools.is_empty());
}

#[test]
fn stored_names_read_back() {
    for r in [MessageRole::System, MessageRole::User, MessageRole::Assistant, MessageRole::Tool] {
        assert_eq!(role_from_str(role_to_str(r)).unwrap(), r);
    }
    for a in [ApprovalStatus::Pending, ApprovalStatus::Approved, ApprovalStatus::Denied] {
        assert_eq!(approval_status_from_str(approval_status_to_str(a)).unwrap(), a);
    }
    for st in [ScheduleStatus::Active, ScheduleStatus::Paused, ScheduleStatus::Deleted] {
        assert_eq!(schedule_status_from_str(schedule_status_to_str(st)).unwrap(), st);
    }
    assert_eq!(schedule_status_from_str("gone").unwrap_err(), "unknown schedule status: gone");
}
