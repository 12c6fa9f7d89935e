//! The durable store's schema and its migration plan, the queries' text arguments, and
//! how a stored row becomes a record. The database itself is driven around the library.

use crate::storage::records::{
    approval_status_from_str, approval_status_name, origin_from_str, origin_name, parse_uuid,
    role_from_str, run_status_name, schedule_status_from_str, schedule_status_name,
    status_from_str, uuid_parse, Approval, MemoryEntry, Run, Schedule, Session, ToolCompact,
    TranscriptMessage,
};
use crate::text::{opt_view, views};
use vstd::prelude::*;

verus! {

/// The tables of the store, created when missing.
pub const SCHEMA_SQL: &'static str = "CREATE TABLE IF NOT EXISTS sessions (id TEXT PRIMARY KEY NOT NULL, principal_id TEXT NOT NULL, title TEXT, created_at INTEGER NOT NULL DEFAULT 0, updated_at INTEGER NOT NULL DEFAULT 0); CREATE TABLE IF NOT EXISTS runs (id TEXT PRIMARY KEY NOT NULL, session_id TEXT NOT NULL, principal_id TEXT NOT NULL, goal TEXT NOT NULL, status TEXT NOT NULL, result TEXT, origin TEXT NOT NULL DEFAULT 'control_plane', parent_run_id TEXT, FOREIGN KEY(session_id) REFERENCES sessions(id)); CREATE TABLE IF NOT EXISTS transcript_messages (id INTEGER PRIMARY KEY AUTOINCREMENT, message_id TEXT NOT NULL DEFAULT '', session_id TEXT NOT NULL, run_id TEXT, created_at INTEGER NOT NULL DEFAULT 0, role TEXT NOT NULL, content TEXT NOT NULL, tool_name TEXT, tool_status TEXT, tool_summary TEXT, artifact_refs TEXT, FOREIGN KEY(session_id) REFERENCES sessions(id)); CREATE TABLE IF NOT EXISTS approvals (id TEXT PRIMARY KEY NOT NULL, run_id TEXT NOT NULL, action TEXT NOT NULL, summary TEXT NOT NULL, status TEXT NOT NULL, requested_by TEXT NOT NULL, decided_by TEXT, FOREIGN KEY(run_id) REFERENCES runs(id)); CREATE TABLE IF NOT EXISTS memory_entries (id TEXT PRIMARY KEY NOT NULL, content TEXT NOT NULL, label TEXT, source_run_id TEXT, source_principal_id TEXT); CREATE VIRTUAL TABLE IF NOT EXISTS memory_fts USING fts5(id UNINDEXED, content, label); CREATE TABLE IF NOT EXISTS schedules (id TEXT PRIMARY KEY NOT NULL, principal_id TEXT NOT NULL, session_id TEXT, goal TEXT NOT NULL, interval_secs INTEGER NOT NULL, status TEXT NOT NULL, next_fire_at INTEGER NOT NULL, policy_tools TEXT NOT NULL, last_fired_at INTEGER); CREATE TABLE IF NOT EXISTS artifacts (id TEXT PRIMARY KEY NOT NULL, kind TEXT NOT NULL, media_type TEXT NOT NULL, byte_len INTEGER NOT NULL, created_at INTEGER NOT NULL, run_id TEXT, session_id TEXT, summary TEXT NOT NULL, content_text TEXT);";

/// Active Runs are marked interrupted (at start, and at shutdown).
pub const INTERRUPT_ACTIVE_SQL: &'static str = "UPDATE runs SET status = ?1, result = ?2 WHERE status = ?3";

/// A column that stores created before it existed get: its table, its name, and the
/// statement that adds it.
pub open spec fn column_migrations() -> Seq<(Seq<char>, Seq<char>, Seq<char>)> {
    seq![
        ("runs"@, "origin"@, "ALTER TABLE runs ADD COLUMN origin TEXT NOT NULL DEFAULT 'control_plane'"@),
        ("runs"@, "parent_run_id"@, "ALTER TABLE runs ADD COLUMN parent_run_id TEXT"@),
        ("sessions"@, "title"@, "ALTER TABLE sessions ADD COLUMN title TEXT"@),
        ("sessions"@, "created_at"@, "ALTER TABLE sessions ADD COLUMN created_at INTEGER NOT NULL DEFAULT 0"@),
        ("sessions"@, "updated_at"@, "ALTER TABLE sessions ADD COLUMN updated_at INTEGER NOT NULL DEFAULT 0"@),
        ("transcript_messages"@, "message_id"@, "ALTER TABLE transcript_messages ADD COLUMN message_id TEXT NOT NULL DEFAULT ''"@),
        ("transcript_messages"@, "run_id"@, "ALTER TABLE transcript_messages ADD COLUMN run_id TEXT"@),
        ("transcript_messages"@, "created_at"@, "ALTER TABLE transcript_messages ADD COLUMN created_at INTEGER NOT NULL DEFAULT 0"@),
        ("transcript_messages"@, "tool_name"@, "ALTER TABLE transcript_messages ADD COLUMN tool_name TEXT"@),
        ("transcript_messages"@, "tool_status"@, "ALTER TABLE transcript_messages ADD COLUMN tool_status TEXT"@),
        ("transcript_messages"@, "tool_summary"@, "ALTER TABLE transcript_messages ADD COLUMN tool_summary TEXT"@),
        ("transcript_messages"@, "artifact_refs"@, "ALTER TABLE transcript_messages ADD COLUMN artifact_refs TEXT"@),
        ("artifacts"@, "content_text"@, "ALTER TABLE artifacts ADD COLUMN content_text TEXT"@),
    ]
}

/// The (table, column) pairs of a store.
pub type Columns = Seq<(Seq<char>, Seq<char>)>;

/// The statements still to run on a store with these columns: one per missing
/// column, in order.
pub open spec fn pending(migs: Seq<(Seq<char>, Seq<char>, Seq<char>)>, existing: Columns) -> Seq<Seq<char>>
    decreases migs.len(),
{
    if migs.len() == 0 {
        Seq::empty()
    } else {
        pending(migs.drop_last(), existing) + if existing.contains((migs.last().0, migs.last().1)) {
            Seq::empty()
        } else {
            seq![migs.last().2]
        }
    }
}

/// The columns once the statements have run: each missing column added.
pub open spec fn migrated(migs: Seq<(Seq<char>, Seq<char>, Seq<char>)>, existing: Columns) -> Columns
    decreases migs.len(),
{
    if migs.len() == 0 {
        existing
    } else {
        let before = migrated(migs.drop_last(), existing);
        if before.contains((migs.last().0, migs.last().1)) {
            before
        } else {
            before.push((migs.last().0, migs.last().1))
        }
    }
}

/// The `PRAGMA` that lists a table's columns.
pub fn table_info_sql(table: &str) -> (r: String)
    ensures
        r@ == "PRAGMA table_info("@ + table@ + ")"@,
{
    String::from_str("PRAGMA table_info(").concat(table).concat(")")
}

/// The tables whose columns the migration checks.
pub fn migrated_tables() -> (r: Vec<String>)
    ensures
        views(r@) == seq!["runs"@, "sessions"@, "transcript_messages"@, "artifacts"@],
{
    let mut v: Vec<String> = Vec::new();
    v.push(String::from_str("runs"));
    v.push(String::from_str("sessions"));
    v.push(String::from_str("transcript_messages"));
    v.push(String::from_str("artifacts"));
    assert(views(v@) =~= seq!["runs"@, "sessions"@, "transcript_messages"@, "artifacts"@]);
    v
}

fn has_column(existing: &[(String, String)], table: &str, column: &str) -> (r: bool)
    ensures
        r == pairs_view(existing@).contains((table@, column@)),
{
    let mut i: usize = 0;
    while i < existing.len()
        invariant
            i <= existing@.len(),
            forall|k: int| 0 <= k < i ==> pairs_view(existing@)[k] != (table@, column@),
        decreases existing@.len() - i,
    {
        if crate::text::str_eq(existing[i].0.as_str(), table) && crate::text::str_eq(
            existing[i].1.as_str(),
            column,
        ) {
            assert(pairs_view(existing@)[i as int] == (table@, column@));
            return true;
        }
        i = i + 1;
    }
    false
}

/// The (table, column) texts of a list of pairs.
pub open spec fn pairs_view(v: Seq<(String, String)>) -> Columns {
    v.map_values(|p: (String, String)| (p.0@, p.1@))
}

/// The `ALTER TABLE` statements a store with these (table, column) pairs still needs,
/// in order.
pub fn pending_migrations(existing: &[(String, String)]) -> (r: Vec<String>)
    ensures
        views(r@) == pending(column_migrations(), pairs_view(existing@)),
{
    let migs: [(&str, &str, &str); 13] = [
        ("runs", "origin", "ALTER TABLE runs ADD COLUMN origin TEXT NOT NULL DEFAULT 'control_plane'"),
        ("runs", "parent_run_id", "ALTER TABLE runs ADD COLUMN parent_run_id TEXT"),
        ("sessions", "title", "ALTER TABLE sessions ADD COLUMN title TEXT"),
        ("sessions", "created_at", "ALTER TABLE sessions ADD COLUMN created_at INTEGER NOT NULL DEFAULT 0"),
        ("sessions", "updated_at", "ALTER TABLE sessions ADD COLUMN updated_at INTEGER NOT NULL DEFAULT 0"),
        ("transcript_messages", "message_id", "ALTER TABLE transcript_messages ADD COLUMN message_id TEXT NOT NULL DEFAULT ''"),
        ("transcript_messages", "run_id", "ALTER TABLE transcript_messages ADD COLUMN run_id TEXT"),
        ("transcript_messages", "created_at", "ALTER TABLE transcript_messages ADD COLUMN created_at INTEGER NOT NULL DEFAULT 0"),
        ("transcript_messages", "tool_name", "ALTER TABLE transcript_messages ADD COLUMN tool_name TEXT"),
        ("transcript_messages", "tool_status", "ALTER TABLE transcript_messages ADD COLUMN tool_status TEXT"),
        ("transcript_messages", "tool_summary", "ALTER TABLE transcript_messages ADD COLUMN tool_summary TEXT"),
        ("transcript_messages", "artifact_refs", "ALTER TABLE transcript_messages ADD COLUMN artifact_refs TEXT"),
        ("artifacts", "content_text", "ALTER TABLE artifacts ADD COLUMN content_text TEXT"),
    ];
    let ghost all = migs@.map_values(|m: (&str, &str, &str)| (m.0@, m.1@, m.2@));
    assert(all =~= column_migrations());
    let ghost ex = pairs_view(existing@);
    let mut out: Vec<String> = Vec::new();
    let mut i: usize = 0;
    assert(all.take(0) =~= Seq::<(Seq<char>, Seq<char>, Seq<char>)>::empty());
    while i < 13
        invariant
            i <= 13,
            all == migs@.map_values(|m: (&str, &str, &str)| (m.0@, m.1@, m.2@)),
            ex == pairs_view(existing@),
            views(out@) == pending(all.take(i as int), ex),
        decreases 13 - i,
    {
        let (table, column, alter) = migs[i];
        assert(all[i as int] == (table@, column@, alter@));
        assert(all.take(i + 1).drop_last() =~= all.take(i as int));
        let ghost before = views(out@);
        if !has_column(existing, table, column) {
            out.push(String::from_str(alter));
            assert(views(out@) =~= before + seq![alter@]);
        } else {
            assert(views(out@) =~= before + Seq::<Seq<char>>::empty());
        }
        i = i + 1;
    }
    assert(all.take(13) =~= all);
    out
}

proof fn lemma_migrated_contains(migs: Seq<(Seq<char>, Seq<char>, Seq<char>)>, existing: Columns, k: int)
    requires
        0 <= k < migs.len(),
    ensures
        migrated(migs, existing).contains((migs[k].0, migs[k].1)),
    decreases migs.len(),
{
    let before = migrated(migs.drop_last(), existing);
    if k < migs.len() - 1 {
        lemma_migrated_contains(migs.drop_last(), existing, k);
        assert(migs.drop_last()[k] == migs[k]);
        if !before.contains((migs.last().0, migs.last().1)) {
            let j = choose|j: int| 0 <= j < before.len() && before[j] == (migs[k].0, migs[k].1);
            assert(before.push((migs.last().0, migs.last().1))[j] == before[j]);
        }
    } else {
        if !before.contains((migs.last().0, migs.last().1)) {
            assert(before.push((migs.last().0, migs.last().1))[before.len() as int] == (
                migs.last().0,
                migs.last().1,
            ));
        }
    }
}

proof fn lemma_none_pending(migs: Seq<(Seq<char>, Seq<char>, Seq<char>)>, cols: Columns)
    requires
        forall|k: int| 0 <= k < migs.len() ==> cols.contains((migs[k].0, migs[k].1)),
    ensures
        pending(migs, cols).len() == 0,
    decreases migs.len(),
{
    if migs.len() > 0 {
        assert forall|k: int| 0 <= k < migs.drop_last().len() implies cols.contains(
            (migs.drop_last()[k].0, migs.drop_last()[k].1),
        ) by {
            assert(migs.drop_last()[k] == migs[k]);
        }
        lemma_none_pending(migs.drop_last(), cols);
        assert(cols.contains((migs[migs.len() - 1].0, migs[migs.len() - 1].1)));
    }
}

/// Migrating is idempotent: once the pending statements have run, none is pending.
pub proof fn lemma_migration_idempotent(existing: Columns)
    ensures
        pending(column_migrations(), migrated(column_migrations(), existing)).len() == 0,
{
    let migs = column_migrations();
    let cols = migrated(migs, existing);
    assert forall|k: int| 0 <= k < migs.len() implies cols.contains((migs[k].0, migs[k].1)) by {
        lemma_migrated_contains(migs, existing, k);
    }
    lemma_none_pending(migs, cols);
}

/// The full-text query for a Memory search: the query, its double quotes dropped,
/// quoted as one phrase.
pub open spec fn fts_phrase(query: Seq<char>) -> Seq<char> {
    "\""@ + query.filter(|c: char| c != '"') + "\""@
}

/// The full-text phrase of a Memory search.
pub fn fts_query(query: &str) -> (r: String)
    ensures
        r@ == fts_phrase(query@),
{
    let q = crate::text::chars_of(query);
    let ghost pred = |c: char| c != '"';
    let mut out: Vec<char> = Vec::new();
    out.push('"');
    let mut i: usize = 0;
    assert(q@.take(0).filter(pred) =~= Seq::<char>::empty()) by {
        reveal(Seq::filter);
    }
    while i < q.len()
        invariant
            i <= q@.len(),
            pred == (|c: char| c != '"'),
            out@ == seq!['"'] + q@.take(i as int).filter(pred),
        decreases q@.len() - i,
    {
        assert(q@.take(i + 1).drop_last() =~= q@.take(i as int));
        let ghost before = out@;
        if q[i] != '"' {
            out.push(q[i]);
        }
        assert(out@ == seq!['"'] + q@.take(i + 1).filter(pred)) by {
            reveal(Seq::filter);
            if q@[i as int] != '"' {
                assert(before.push(q@[i as int]) =~= seq!['"'] + q@.take(i as int).filter(pred).push(
                    q@[i as int],
                ));
            }
        }
        i = i + 1;
    }
    assert(q@.take(i as int) =~= q@);
    out.push('"');
    proof {
        reveal_strlit("\"");
    }
    assert(out@ =~= fts_phrase(query@));
    crate::text::string_of(out.as_slice())
}

/// The `LIKE` pattern of a substring search.
pub fn like_pattern(query: &str) -> (r: String)
    ensures
        r@ == "%"@ + query@ + "%"@,
{
    String::from_str("%").concat(query).concat("%")
}

/// The row limit of a query: at least one.
pub fn row_limit(limit: usize) -> (r: usize)
    ensures
        r == if limit == 0 {
            1
        } else {
            limit
        },
{
    if limit == 0 {
        1
    } else {
        limit
    }
}

/// The cursor for the next Transcript page: the id of the oldest message of a full
/// page, none for a short page.
pub fn next_page_cursor(page: &[TranscriptMessage], limit: usize) -> (r: Option<String>)
    requires
        limit > 0,
    ensures
        page@.len() == limit && page@.len() > 0 ==> (r matches Some(id) && id@ == page@.last().id@),
        page@.len() != limit ==> r is None,
{
    if page.len() == limit && page.len() > 0 {
        Some(page[page.len() - 1].id.clone())
    } else {
        None
    }
}

/// The artifact references a stored list holds: a JSON array of strings; anything
/// else is no references.
pub open spec fn refs_of(parsed: Result<crate::json::Json, Seq<char>>) -> Seq<Seq<char>> {
    match parsed {
        Ok(crate::json::Json::Array(items)) => if forall|i: int|
            0 <= i < items@.len() ==> (#[trigger] items@[i]) is Str {
            items@.map_values(|j: crate::json::Json| crate::json::str_of(j)->0)
        } else {
            Seq::empty()
        },
        _ => Seq::empty(),
    }
}

fn artifact_refs(raw: Option<&str>) -> (r: Vec<String>)
    ensures
        views(r@) == match raw {
            Some(s) => refs_of(crate::json::serde_parse(s@)),
            None => Seq::empty(),
        },
{
    let empty: Vec<String> = Vec::new();
    assert(views(empty@) =~= Seq::<Seq<char>>::empty());
    let s = match raw {
        Some(s) => s,
        None => {
            return empty;
        },
    };
    let parsed = crate::json::parse_json(s);
    let items = match &parsed {
        Ok(crate::json::Json::Array(items)) => items,
        _ => {
            return empty;
        },
    };
    let mut out: Vec<String> = Vec::new();
    let mut i: usize = 0;
    while i < items.len()
        invariant
            i <= items@.len(),
            raw == Some(s),
            crate::json::serde_parse(s@) == Ok::<crate::json::Json, Seq<char>>(
                crate::json::Json::Array(*items),
            ),
            views(empty@) == Seq::<Seq<char>>::empty(),
            out@.len() == i,
            forall|k: int| 0 <= k < i ==> (#[trigger] items@[k]) is Str && out@[k]@ == crate::json::str_of(items@[k])->0,
        decreases items@.len() - i,
    {
        match &items[i] {
            crate::json::Json::Str(t) => {
                out.push(t.clone());
            },
            _ => {
                assert(!(items@[i as int] is Str));
                return empty;
            },
        }
        i = i + 1;
    }
    assert(views(out@) =~= items@.map_values(|j: crate::json::Json| crate::json::str_of(j)->0));
    out
}

/// A stored Transcript row, column by column.
#[derive(Debug)]
pub struct MessageRow {
    pub row_id: i64,
    pub message_id: String,
    pub run_id: Option<String>,
    pub created_at: i64,
    pub role: String,
    pub content: String,
    pub tool_name: Option<String>,
    pub tool_status: Option<String>,
    pub tool_summary: Option<String>,
    pub artifact_refs: Option<String>,
}

/// Why a stored Transcript row is not a message, if it is not: an unreadable run id,
/// then an unknown role.
pub open spec fn message_row_error(row: MessageRow) -> Option<Seq<char>> {
    match row.run_id {
        Some(s) if s@.len() > 0 && uuid_parse(s@) is Err => Some(uuid_parse(s@)->Err_0),
        _ => if forall|role: crate::domain::MessageRole|
            crate::storage::records::role_name(role) != row.role@ {
            Some("unknown message role: "@ + row.role@)
        } else {
            None
        },
    }
}

/// The message a stored Transcript row holds (where `message_row_error` is `None`):
/// a row without message id is named after its row number; a tool name makes a tool
/// record (unknown status, empty summary where missing).
pub open spec fn message_of_row(row: MessageRow, m: TranscriptMessage) -> bool {
    &&& m.id@ == if row.message_id@.len() == 0 {
        "row-"@ + crate::model::registry::int_text(row.row_id as int)
    } else {
        row.message_id@
    }
    &&& m.run_id == match row.run_id {
        Some(s) => if s@.len() > 0 {
            Some(uuid_parse(s@)->Ok_0)
        } else {
            None
        },
        None => None,
    }
    &&& m.created_at == row.created_at
    &&& crate::storage::records::role_name(m.role) == row.role@
    &&& m.content@ == row.content@
    &&& match row.tool_name {
        Some(name) => m.tool matches Some(t) && t.name@ == name@ && t.status@ == crate::model::registry::value_or(
            opt_view(row.tool_status),
            "unknown"@,
        ) && t.summary@ == crate::model::registry::value_or(opt_view(row.tool_summary), Seq::empty())
            && views(t.artifact_refs@) == match row.artifact_refs {
            Some(s) => refs_of(crate::json::serde_parse(s@)),
            None => Seq::empty(),
        },
        None => m.tool is None,
    }
}

/// A stored Transcript row as a message.
pub fn message_from_row(row: MessageRow) -> (r: Result<TranscriptMessage, String>)
    ensures
        match message_row_error(row) {
            Some(e) => r matches Err(x) && x@ == e,
            None => r matches Ok(m) && message_of_row(row, m),
        },
{
    let ghost rv = row;
    let id = if row.message_id.as_str().is_empty() {
        String::from_str("row-").concat(crate::model::registry::int64_string(row.row_id).as_str())
    } else {
        row.message_id
    };
    let tool = match row.tool_name {
        Some(name) => Some(
            ToolCompact {
                name,
                status: match row.tool_status {
                    Some(s) => s,
                    None => String::from_str("unknown"),
                },
                summary: match row.tool_summary {
                    Some(s) => s,
                    None => String::new(),
                },
                artifact_refs: artifact_refs(match &row.artifact_refs {
                    Some(s) => Some(s.as_str()),
                    None => None,
                }),
            },
        ),
        None => None,
    };
    let run_id = match &row.run_id {
        Some(s) => if s.as_str().is_empty() {
            None
        } else {
            match parse_uuid(s.as_str()) {
                Ok(v) => Some(v),
                Err(e) => {
                    return Err(e);
                },
            }
        },
        None => None,
    };
    let role = match role_from_str(row.role.as_str()) {
        Ok(r) => r,
        Err(e) => {
            return Err(e);
        },
    };
    Ok(TranscriptMessage { id, run_id, created_at: row.created_at, role, content: row.content, tool })
}

/// A stored Session row as a session: the id must read as a UUID; a blank title is
/// none.
pub fn session_from_row(
    id: &str,
    principal: String,
    title: Option<String>,
    created_at: i64,
    updated_at: i64,
) -> (r: Result<Session, String>)
    ensures
        match uuid_parse(id@) {
            Err(e) => r matches Err(x) && x@ == e,
            Ok(v) => r matches Ok(s) && s.id == v && s.principal_id@ == principal@ && opt_view(s.title)
                == match title {
                Some(t) => if t@.len() > 0 {
                    Some(t@)
                } else {
                    None
                },
                None => None,
            } && s.created_at == created_at && s.updated_at == updated_at,
        },
{
    let sid = match parse_uuid(id) {
        Ok(v) => v,
        Err(e) => {
            return Err(e);
        },
    };
    let title = match title {
        Some(t) => if t.as_str().is_empty() {
            None
        } else {
            Some(t)
        },
        None => None,
    };
    Ok(Session { id: sid, principal_id: principal, title, created_at, updated_at })
}

/// A stored optional id: absent is none, and so is a blank one where blanks mean
/// absent; otherwise it must read as a UUID.
pub open spec fn stored_id(s: Option<String>, blank_is_none: bool) -> Result<Option<u128>, Seq<char>> {
    match s {
        None => Ok(None),
        Some(t) => if blank_is_none && t@.len() == 0 {
            Ok(None)
        } else {
            match uuid_parse(t@) {
                Ok(v) => Ok(Some(v)),
                Err(e) => Err(e),
            }
        },
    }
}

fn read_stored_id(s: Option<String>, blank_is_none: bool) -> (r: Result<Option<u128>, String>)
    ensures
        match stored_id(s, blank_is_none) {
            Ok(v) => r == Ok::<Option<u128>, String>(v),
            Err(e) => r matches Err(x) && x@ == e,
        },
{
    match s {
        None => Ok(None),
        Some(t) => if blank_is_none && t.as_str().is_empty() {
            Ok(None)
        } else {
            match parse_uuid(t.as_str()) {
                Ok(v) => Ok(Some(v)),
                Err(e) => Err(e),
            }
        },
    }
}

/// Why a stored Run row is not a Run, if it is not: its id, its session id, its
/// status, its origin, then its parent id (blank is none), in that order.
pub open spec fn run_row_error(
    id: Seq<char>,
    session_id: Seq<char>,
    status: Seq<char>,
    origin: Seq<char>,
    parent: Option<String>,
) -> Option<Seq<char>> {
    if uuid_parse(id) is Err {
        Some(uuid_parse(id)->Err_0)
    } else if uuid_parse(session_id) is Err {
        Some(uuid_parse(session_id)->Err_0)
    } else if forall|st: crate::storage::records::RunStatus| run_status_name(st) != status {
        Some("unknown run status: "@ + status)
    } else if forall|o: crate::domain::RunOrigin| origin_name(o) != origin {
        Some("unknown run origin: "@ + origin)
    } else if stored_id(parent, true) is Err {
        Some(stored_id(parent, true)->Err_0)
    } else {
        None
    }
}

/// A stored Run row as a Run.
pub fn run_from_row(
    id: &str,
    session_id: &str,
    principal: String,
    goal: String,
    status: &str,
    result: Option<String>,
    origin: &str,
    parent: Option<String>,
) -> (r: Result<Run, String>)
    ensures
        match run_row_error(id@, session_id@, status@, origin@, parent) {
            Some(e) => r matches Err(x) && x@ == e,
            None => r matches Ok(run) && run.id == uuid_parse(id@)->Ok_0 && run.session_id
                == uuid_parse(session_id@)->Ok_0 && run.principal_id == principal && run.goal
                == goal && run_status_name(run.status) == status@ && origin_name(run.origin)
                == origin@ && Ok::<Option<u128>, Seq<char>>(run.parent_run_id) == stored_id(
                parent,
                true,
            ) && run.result == result,
        },
{
    let rid = match parse_uuid(id) {
        Ok(v) => v,
        Err(e) => {
            return Err(e);
        },
    };
    let sid = match parse_uuid(session_id) {
        Ok(v) => v,
        Err(e) => {
            return Err(e);
        },
    };
    let st = match status_from_str(status) {
        Ok(v) => v,
        Err(e) => {
            return Err(e);
        },
    };
    let o = match origin_from_str(origin) {
        Ok(v) => v,
        Err(e) => {
            return Err(e);
        },
    };
    let parent_run_id = match read_stored_id(parent, true) {
        Ok(v) => v,
        Err(e) => {
            return Err(e);
        },
    };
    Ok(
        Run {
            id: rid,
            session_id: sid,
            principal_id: principal,
            goal,
            status: st,
            origin: o,
            parent_run_id,
            result,
        },
    )
}

/// Why a stored Approval row is not an Approval, if it is not: its id, its Run id,
/// then its status.
pub open spec fn approval_row_error(id: Seq<char>, run_id: Seq<char>, status: Seq<char>) -> Option<
    Seq<char>,
> {
    if uuid_parse(id) is Err {
        Some(uuid_parse(id)->Err_0)
    } else if uuid_parse(run_id) is Err {
        Some(uuid_parse(run_id)->Err_0)
    } else if forall|st: crate::storage::records::ApprovalStatus|
        approval_status_name(st) != status {
        Some("unknown approval status: "@ + status)
    } else {
        None
    }
}

/// A stored Approval row as an Approval.
pub fn approval_from_row(
    id: &str,
    run_id: &str,
    action: String,
    summary: String,
    status: &str,
    requested_by: String,
    decided_by: Option<String>,
) -> (r: Result<Approval, String>)
    ensures
        match approval_row_error(id@, run_id@, status@) {
            Some(e) => r matches Err(x) && x@ == e,
            None => r matches Ok(a) && a.id == uuid_parse(id@)->Ok_0 && a.run_id == uuid_parse(
                run_id@,
            )->Ok_0 && a.action == action && a.summary == summary && approval_status_name(a.status)
                == status@ && a.requested_by == requested_by && a.decided_by == decided_by,
        },
{
    let aid = match parse_uuid(id) {
        Ok(v) => v,
        Err(e) => {
            return Err(e);
        },
    };
    let rid = match parse_uuid(run_id) {
        Ok(v) => v,
        Err(e) => {
            return Err(e);
        },
    };
    let st = match approval_status_from_str(status) {
        Ok(v) => v,
        Err(e) => {
            return Err(e);
        },
    };
    Ok(Approval { id: aid, run_id: rid, action, summary, status: st, requested_by, decided_by })
}

/// A stored Memory row as an entry: the id must read as a UUID, and so must the
/// source Run id when present.
pub fn memory_from_row(
    id: &str,
    content: String,
    label: Option<String>,
    source_run_id: Option<String>,
    source_principal_id: Option<String>,
) -> (r: Result<MemoryEntry, String>)
    ensures
        match uuid_parse(id@) {
            Err(e) => r matches Err(x) && x@ == e,
            Ok(mid) => match stored_id(source_run_id, false) {
                Err(e) => r matches Err(x) && x@ == e,
                Ok(src) => r matches Ok(m) && m.id == mid && m.content == content && m.label == label
                    && m.source_run_id == src && m.source_principal_id == source_principal_id,
            },
        },
{
    let mid = match parse_uuid(id) {
        Ok(v) => v,
        Err(e) => {
            return Err(e);
        },
    };
    let src = match read_stored_id(source_run_id, false) {
        Ok(v) => v,
        Err(e) => {
            return Err(e);
        },
    };
    Ok(MemoryEntry { id: mid, content, label, source_run_id: src, source_principal_id })
}

/// Why a stored Schedule row is not a Schedule, if it is not: its id, its session id
/// (blank is none), then its status.
pub open spec fn schedule_row_error(id: Seq<char>, session_id: Option<String>, status: Seq<char>) -> Option<
    Seq<char>,
> {
    if uuid_parse(id) is Err {
        Some(uuid_parse(id)->Err_0)
    } else if stored_id(session_id, true) is Err {
        Some(stored_id(session_id, true)->Err_0)
    } else if forall|st: crate::storage::records::ScheduleStatus|
        schedule_status_name(st) != status {
        Some("unknown schedule status: "@ + status)
    } else {
        None
    }
}

/// A stored Schedule row as a Schedule: the interval is at least one second, and the
/// policy tools are the stored JSON array of strings (none when it is anything else).
pub fn schedule_from_row(
    id: &str,
    principal_id: String,
    session_id: Option<String>,
    goal: String,
    interval_secs: i64,
    status: &str,
    next_fire_at: i64,
    policy_tools: &str,
    last_fired_at: Option<i64>,
) -> (r: Result<Schedule, String>)
    ensures
        match schedule_row_error(id@, session_id, status@) {
            Some(e) => r matches Err(x) && x@ == e,
            None => r matches Ok(s) && s.id == uuid_parse(id@)->Ok_0 && s.principal_id
                == principal_id && Ok::<Option<u128>, Seq<char>>(s.session_id) == stored_id(
                session_id,
                true,
            ) && s.goal == goal && s.interval_secs == (if interval_secs < 1 {
                1
            } else {
                interval_secs
            }) && schedule_status_name(s.status) == status@ && s.next_fire_at == next_fire_at
                && views(s.policy_tools@) == refs_of(crate::json::serde_parse(policy_tools@))
                && s.last_fired_at == last_fired_at,
        },
{
    let sid = match parse_uuid(id) {
        Ok(v) => v,
        Err(e) => {
            return Err(e);
        },
    };
    let session = match read_stored_id(session_id, true) {
        Ok(v) => v,
        Err(e) => {
            return Err(e);
        },
    };
    let st = match schedule_status_from_str(status) {
        Ok(v) => v,
        Err(e) => {
            return Err(e);
        },
    };
    let interval: u64 = if interval_secs < 1 {
        1
    } else {
        interval_secs as u64
    };
    Ok(
        Schedule {
            id: sid,
            principal_id,
            session_id: session,
            goal,
            interval_secs: interval,
            status: st,
            next_fire_at,
            policy_tools: artifact_refs(Some(policy_tools)),
            last_fired_at,
        },
    )
}

} // verus!
