//! Memory and session_search tools over the Session store.

use crate::domain::{is_empty_params, ToolCall, ToolError, ToolResult, ToolSpec};
use crate::json::{get_str, get_u64, Json};
use crate::storage::memory::{
    all_messages, at_most, derefs, hits_query, memory_hit, not_found, pair_derefs,
    InMemorySessionStore,
};
use crate::storage::records::{parse_uuid, uuid_parse, uuid_string, uuid_text, MemoryEntry};
use crate::text::{debug_str, debug_str_exec, decimal, truncate_chars, views};
use crate::tools::workspace::{arg_string, disallowed, missing_arg};
use vstd::prelude::*;
use vstd::utf8::encode_utf8;

verus! {

/// Policy-gated Memory and session_search tools, with the provenance written on new
/// entries.
pub struct MemoryTools {
    pub allowed: Vec<String>,
    pub run_id: Option<u128>,
    pub principal_id: Option<String>,
}

/// The tools of this runtime, in catalog order, with their descriptions.
pub open spec fn memory_tools() -> Seq<(Seq<char>, Seq<char>)> {
    seq![
        ("memory_read"@, "Read a Memory entry by id"@),
        ("memory_write"@, "Write a new Memory entry"@),
        ("memory_update"@, "Update a Memory entry"@),
        ("memory_delete"@, "Delete a Memory entry"@),
        ("memory_search"@, "Search Memory entries"@),
        ("session_search"@, "Search Session transcripts"@),
    ]
}

/// The number of hits asked for: `max_results` clamped to 1..=50, 10 when absent.
pub open spec fn search_limit(requested: Option<u64>) -> nat {
    match requested {
        Some(v) => if v < 1 {
            1
        } else if v > 50 {
            50
        } else {
            v as nat
        },
        None => 10,
    }
}

/// What `Debug` writes for an optional label.
pub open spec fn label_debug(label: Option<Seq<char>>) -> Seq<char> {
    match label {
        Some(l) => "Some("@ + debug_str(l) + ")"@,
        None => "None"@,
    }
}

/// Why a call's `id` argument cannot name an entry, if it cannot: it is missing, or it is
/// not a UUID (the parser's message).
pub open spec fn id_failure(args: Json) -> Option<Seq<char>> {
    match get_str(args, "id"@) {
        None => Some(missing_arg("id"@)),
        Some(t) => match uuid_parse(t) {
            Err(e) => Some(e),
            Ok(_) => None,
        },
    }
}

/// The UUID a call's `id` argument names (meaningful where `id_failure` is `None`).
pub open spec fn id_of(args: Json) -> u128 {
    match get_str(args, "id"@) {
        Some(t) => match uuid_parse(t) {
            Ok(v) => v,
            Err(_) => 0,
        },
        None => 0,
    }
}

/// The call failed with this message.
pub open spec fn failed(r: Result<ToolResult, ToolError>, m: Seq<char>) -> bool {
    r matches Err(ToolError::Failed(e)) && e@ == m
}

/// The call answered with this content and summary.
pub open spec fn answered(r: Result<ToolResult, ToolError>, content: Seq<char>, summary: Seq<char>) -> bool {
    r matches Ok(res) && res.content@ == content && res.summary@ == summary
}

/// Every table but Memory is as it was.
pub open spec fn only_memory_changed(before: InMemorySessionStore, after: InMemorySessionStore) -> bool {
    &&& after.sessions == before.sessions
    &&& after.runs == before.runs
    &&& after.transcripts == before.transcripts
    &&& after.approvals == before.approvals
    &&& after.schedules == before.schedules
}

/// Every Memory entry but the one with this id is as it was.
pub open spec fn others_kept(before: InMemorySessionStore, after: InMemorySessionStore, id: u128) -> bool {
    forall|k: u128| k != id ==> #[trigger] after.memory.entry(k) == before.memory.entry(k)
}

/// What `memory_write` does with a new id: content is required and not blank; the entry
/// is stored under the id with the call's label and the runtime's provenance.
pub open spec fn write_outcome(
    tools: MemoryTools,
    before: InMemorySessionStore,
    after: InMemorySessionStore,
    args: Json,
    id: u128,
    r: Result<ToolResult, ToolError>,
) -> bool {
    match get_str(args, "content"@) {
        None => failed(r, missing_arg("content"@)) && after == before,
        Some(c) => if crate::text::trim(c).len() == 0 {
            failed(r, "memory_write: content empty"@) && after == before
        } else {
            &&& answered(r, "memory stored id="@ + uuid_text(id), "memory_write id="@ + uuid_text(id))
            &&& after.memory.entry(id) matches Some(e) && e.id == id && e.content@ == c
                && crate::text::opt_view(e.label) == get_str(args, "label"@) && e.source_run_id
                == tools.run_id && e.source_principal_id == tools.principal_id
            &&& others_kept(before, after, id)
            &&& only_memory_changed(before, after)
        },
    }
}

/// What `memory_update` does: the named entry must exist; a given content must not be
/// blank and replaces the old one, a given label replaces the old one.
pub open spec fn update_outcome(
    before: InMemorySessionStore,
    after: InMemorySessionStore,
    args: Json,
    r: Result<ToolResult, ToolError>,
) -> bool {
    let id = id_of(args);
    match id_failure(args) {
        Some(m) => failed(r, m) && after == before,
        None => match before.memory.entry(id) {
            None => failed(r, not_found("memory"@, id)) && after == before,
            Some(e) => if get_str(args, "content"@) matches Some(c) && crate::text::trim(c).len()
                == 0 {
                failed(r, "memory_update: content empty"@) && after == before
            } else {
                &&& answered(
                    r,
                    "memory updated id="@ + uuid_text(id),
                    "memory_update id="@ + uuid_text(id),
                )
                &&& after.memory.entry(id) matches Some(n) && n.id == id && n.content@ == (
                match get_str(args, "content"@) {
                    Some(c) => c,
                    None => e.content@,
                }) && (match get_str(args, "label"@) {
                    Some(l) => crate::text::opt_view(n.label) == Some(l),
                    None => n.label == e.label,
                }) && n.source_run_id == e.source_run_id && n.source_principal_id
                    == e.source_principal_id
                &&& others_kept(before, after, id)
                &&& only_memory_changed(before, after)
            },
        },
    }
}

/// What `memory_delete` does: the named entry is gone; naming no entry is an error.
pub open spec fn delete_outcome(
    before: InMemorySessionStore,
    after: InMemorySessionStore,
    args: Json,
    r: Result<ToolResult, ToolError>,
) -> bool {
    let id = id_of(args);
    match id_failure(args) {
        Some(m) => failed(r, m) && after == before,
        None => {
            &&& after.memory.entry(id) is None
            &&& others_kept(before, after, id)
            &&& only_memory_changed(before, after)
            &&& match before.memory.entry(id) {
                None => failed(r, not_found("memory"@, id)),
                Some(_) => answered(
                    r,
                    "memory deleted id="@ + uuid_text(id),
                    "memory_delete id="@ + uuid_text(id),
                ),
            }
        },
    }
}

/// What `memory_read` answers: the entry's id, label and content.
pub open spec fn read_outcome(store: InMemorySessionStore, args: Json, r: Result<ToolResult, ToolError>) -> bool {
    let id = id_of(args);
    match id_failure(args) {
        Some(m) => failed(r, m),
        None => match store.memory.entry(id) {
            None => failed(r, not_found("memory"@, id)),
            Some(e) => answered(
                r,
                "id="@ + uuid_text(e.id) + " label="@ + label_debug(crate::text::opt_view(e.label)) + "\n"@ + e.content@,
                "memory_read id="@ + uuid_text(e.id) + " chars="@ + decimal(
                    (encode_utf8(e.content@).len() as usize) as nat,
                ),
            ),
        },
    }
}

/// The Memory entries a search for `q` finds, at most `n`.
pub open spec fn memory_hits(store: InMemorySessionStore, q: Seq<char>, n: nat) -> Seq<MemoryEntry> {
    at_most(store.memory.rows@.filter(|e: MemoryEntry| memory_hit(e, q)), n)
}

/// The Transcript messages a search for `q` finds, at most `n`.
pub open spec fn transcript_hits(store: InMemorySessionStore, q: Seq<char>, n: nat) -> Seq<
    (u128, crate::storage::records::TranscriptMessage),
> {
    at_most(all_messages(store.transcripts.rows@).filter(hits_query(q)), n)
}

/// What `memory_search` answers: one line per hit, or a note that nothing matched.
pub open spec fn memory_search_outcome(store: InMemorySessionStore, args: Json, r: Result<ToolResult, ToolError>) -> bool {
    match get_str(args, "query"@) {
        None => failed(r, missing_arg("query"@)),
        Some(q) => {
            let hits = memory_hits(store, q, search_limit(get_u64(args, "max_results"@)));
            answered(
                r,
                if hits.len() == 0 {
                    "no memory matches for "@ + debug_str(q)
                } else {
                    crate::model::consumer::join_lines(hits.map_values(|e: MemoryEntry| memory_line(e)))
                },
                "memory_search hits="@ + decimal(hits.len()),
            )
        },
    }
}

/// What `session_search` answers: one line per hit, or a note that nothing matched.
pub open spec fn session_search_outcome(store: InMemorySessionStore, args: Json, r: Result<ToolResult, ToolError>) -> bool {
    match get_str(args, "query"@) {
        None => failed(r, missing_arg("query"@)),
        Some(q) => {
            let hits = transcript_hits(store, q, search_limit(get_u64(args, "max_results"@)));
            answered(
                r,
                if hits.len() == 0 {
                    "no transcript matches for "@ + debug_str(q)
                } else {
                    crate::model::consumer::join_lines(
                        hits.map_values(
                            |p: (u128, crate::storage::records::TranscriptMessage)| session_line(p),
                        ),
                    )
                },
                "session_search hits="@ + decimal(hits.len()),
            )
        },
    }
}

/// One line of a `memory_search` answer.
pub open spec fn memory_line(e: MemoryEntry) -> Seq<char> {
    "- "@ + uuid_text(e.id) + " ["@ + (match e.label {
        Some(l) => l@,
        None => Seq::empty(),
    }) + "]: "@ + truncate_chars(e.content@, 200)
}

/// One line of a `session_search` answer.
pub open spec fn session_line(p: (u128, crate::storage::records::TranscriptMessage)) -> Seq<
    char,
> {
    "- session="@ + uuid_text(p.0) + " role="@ + role_debug(p.1.role) + ": "@ + truncate_chars(
        p.1.content@,
        200,
    )
}

/// What `Debug` writes for a message role.
pub open spec fn role_debug(r: crate::domain::MessageRole) -> Seq<char> {
    match r {
        crate::domain::MessageRole::System => "System"@,
        crate::domain::MessageRole::User => "User"@,
        crate::domain::MessageRole::Assistant => "Assistant"@,
        crate::domain::MessageRole::Tool => "Tool"@,
    }
}

fn failure(m: String) -> (r: Result<ToolResult, ToolError>)
    ensures
        failed(r, m@),
{
    Err(ToolError::Failed(m))
}

fn answer(content: String, summary: String) -> (r: Result<ToolResult, ToolError>)
    ensures
        answered(r, content@, summary@),
{
    Ok(ToolResult { content, summary })
}

/// The text of a string argument when it is present.
fn opt_arg(args: &Json, key: &str) -> (r: Option<String>)
    ensures
        crate::text::opt_view(r) == get_str(*args, key@),
{
    match crate::json::get_str_exec(args, key) {
        Some(s) => Some(s.clone()),
        None => None,
    }
}

/// The id named by the call's `id` argument, or the failure.
fn read_id(args: &Json) -> (r: Result<u128, String>)
    ensures
        match r {
            Ok(v) => id_failure(*args) is None && v == id_of(*args),
            Err(m) => id_failure(*args) == Some(m@),
        },
{
    let t = match arg_string(args, "id") {
        Ok(t) => t,
        Err(ToolError::Failed(m)) => return Err(m),
        Err(_) => return Err(String::new()),
    };
    parse_uuid(t.as_str())
}

/// The number of hits a search call asks for.
fn limit_arg(args: &Json) -> (r: usize)
    ensures
        r as nat == search_limit(get_u64(*args, "max_results"@)),
        1 <= r <= 50,
{
    match crate::json::get_u64_exec(args, "max_results") {
        Some(v) => if v < 1 {
            1
        } else if v > 50 {
            50
        } else {
            v as usize
        },
        None => 10,
    }
}

impl MemoryTools {
    /// Tools with this allowlist and no provenance.
    pub fn new(allowed: Vec<String>) -> (r: Self)
        ensures
            r.allowed@ == allowed@,
            r.run_id is None,
            r.principal_id is None,
    {
        MemoryTools { allowed, run_id: None, principal_id: None }
    }

    /// The same tools, writing this provenance on new entries.
    pub fn with_provenance(self, run_id: Option<u128>, principal_id: Option<String>) -> (r: Self)
        ensures
            r.allowed@ == self.allowed@,
            r.run_id == run_id,
            r.principal_id == principal_id,
    {
        MemoryTools { allowed: self.allowed, run_id, principal_id }
    }

    /// Store a new entry under `id` (a fresh UUID).
    pub fn memory_write(&self, store: &mut InMemorySessionStore, args: &Json, id: u128) -> (r:
        Result<ToolResult, ToolError>)
        requires
            old(store).wf(),
        ensures
            final(store).wf(),
            write_outcome(*self, *old(store), *final(store), *args, id, r),
    {
        proof {
            reveal_strlit("memory_write: content empty");
        }
        let content = match arg_string(args, "content") {
            Ok(c) => c,
            Err(e) => return Err(e),
        };
        let trimmed = crate::text::trim_str(content.as_str());
        if trimmed.as_str().is_empty() {
            return failure(String::from_str("memory_write: content empty"));
        }
        let label = opt_arg(args, "label");
        let principal = crate::storage::records::copy_opt_string(&self.principal_id);
        let entry = MemoryEntry {
            id,
            content,
            label,
            source_run_id: self.run_id,
            source_principal_id: principal,
        };
        store.create_memory(entry);
        let idt = uuid_string(id);
        answer(
            String::from_str("memory stored id=").concat(idt.as_str()),
            String::from_str("memory_write id=").concat(idt.as_str()),
        )
    }

    /// Change the content or label of a stored entry.
    pub fn memory_update(&self, store: &mut InMemorySessionStore, args: &Json) -> (r: Result<
        ToolResult,
        ToolError,
    >)
        requires
            old(store).wf(),
        ensures
            final(store).wf(),
            update_outcome(*old(store), *final(store), *args, r),
    {
        proof {
            reveal_strlit("memory_update: content empty");
        }
        let id = match read_id(args) {
            Ok(v) => v,
            Err(m) => return failure(m),
        };
        let mut entry = match store.get_memory(id) {
            Some(e) => e.copied(),
            None => return failure(crate::storage::memory::not_found_error("memory", id)),
        };
        if let Some(c) = crate::json::get_str_exec(args, "content") {
            let trimmed = crate::text::trim_str(c.as_str());
            if trimmed.as_str().is_empty() {
                return failure(String::from_str("memory_update: content empty"));
            }
            entry.content = c.clone();
        }
        if let Some(l) = crate::json::get_str_exec(args, "label") {
            entry.label = Some(l.clone());
        }
        let _ = store.update_memory(entry);
        let idt = uuid_string(id);
        answer(
            String::from_str("memory updated id=").concat(idt.as_str()),
            String::from_str("memory_update id=").concat(idt.as_str()),
        )
    }

    /// Remove a stored entry.
    pub fn memory_delete(&self, store: &mut InMemorySessionStore, args: &Json) -> (r: Result<
        ToolResult,
        ToolError,
    >)
        requires
            old(store).wf(),
        ensures
            final(store).wf(),
            delete_outcome(*old(store), *final(store), *args, r),
    {
        let id = match read_id(args) {
            Ok(v) => v,
            Err(m) => return failure(m),
        };
        match store.delete_memory(id) {
            Ok(()) => {
                let idt = uuid_string(id);
                answer(
                    String::from_str("memory deleted id=").concat(idt.as_str()),
                    String::from_str("memory_delete id=").concat(idt.as_str()),
                )
            },
            Err(m) => failure(m),
        }
    }

    /// A stored entry: its id, label and content.
    pub fn memory_read(&self, store: &InMemorySessionStore, args: &Json) -> (r: Result<
        ToolResult,
        ToolError,
    >)
        requires
            store.wf(),
        ensures
            read_outcome(*store, *args, r),
    {
        let id = match read_id(args) {
            Ok(v) => v,
            Err(m) => return failure(m),
        };
        let e = match store.get_memory(id) {
            Some(e) => e,
            None => return failure(crate::storage::memory::not_found_error("memory", id)),
        };
        let idt = uuid_string(e.id);
        let label = match &e.label {
            Some(l) => String::from_str("Some(").concat(debug_str_exec(l.as_str()).as_str()).concat(
                ")",
            ),
            None => String::from_str("None"),
        };
        let content = String::from_str("id=").concat(idt.as_str()).concat(" label=").concat(
            label.as_str(),
        ).concat("\n").concat(e.content.as_str());
        let n = e.content.as_str().len();
        let summary = String::from_str("memory_read id=").concat(idt.as_str()).concat(
            " chars=",
        ).concat(crate::text::decimal_string(n as u64).as_str());
        answer(content, summary)
    }
}

fn memory_line_exec(e: &MemoryEntry) -> (r: String)
    ensures
        r@ == memory_line(*e),
{
    let label = match &e.label {
        Some(l) => l.clone(),
        None => String::new(),
    };
    String::from_str("- ").concat(uuid_string(e.id).as_str()).concat(" [").concat(label.as_str()).concat(
        "]: ",
    ).concat(crate::text::truncate_str(e.content.as_str(), 200).as_str())
}

fn role_debug_exec(r: crate::domain::MessageRole) -> (s: &'static str)
    ensures
        s@ == role_debug(r),
{
    match r {
        crate::domain::MessageRole::System => "System",
        crate::domain::MessageRole::User => "User",
        crate::domain::MessageRole::Assistant => "Assistant",
        crate::domain::MessageRole::Tool => "Tool",
    }
}

fn session_line_exec(sid: u128, m: &crate::storage::records::TranscriptMessage) -> (r: String)
    ensures
        r@ == session_line((sid, *m)),
{
    String::from_str("- session=").concat(uuid_string(sid).as_str()).concat(" role=").concat(
        role_debug_exec(m.role),
    ).concat(": ").concat(crate::text::truncate_str(m.content.as_str(), 200).as_str())
}

impl MemoryTools {
    /// Memory entries whose content or label holds the query.
    pub fn memory_search(&self, store: &InMemorySessionStore, args: &Json) -> (r: Result<
        ToolResult,
        ToolError,
    >)
        ensures
            memory_search_outcome(*store, *args, r),
    {
        let query = match arg_string(args, "query") {
            Ok(q) => q,
            Err(e) => return Err(e),
        };
        let limit = limit_arg(args);
        let hits = store.search_memory(query.as_str(), limit);
        let ghost found = memory_hits(*store, query@, limit as nat);
        assert(derefs(hits@) == found);
        let content = if hits.len() == 0 {
            String::from_str("no memory matches for ").concat(debug_str_exec(query.as_str()).as_str())
        } else {
            let mut lines: Vec<String> = Vec::new();
            let mut i: usize = 0;
            while i < hits.len()
                invariant
                    i <= hits@.len(),
                    derefs(hits@) == found,
                    views(lines@) == found.take(i as int).map_values(|e: MemoryEntry| memory_line(e)),
                decreases hits@.len() - i,
            {
                let ghost before = views(lines@);
                let line = memory_line_exec(hits[i]);
                lines.push(line);
                assert(derefs(hits@)[i as int] == *hits@[i as int]);
                assert(views(lines@) =~= before.push(memory_line(found[i as int])));
                assert(views(lines@) =~= found.take(i + 1).map_values(|e: MemoryEntry| memory_line(e)));
                i = i + 1;
            }
            assert(found.take(i as int) =~= found);
            crate::tools::workspace::join_with_newlines(&lines)
        };
        let summary = String::from_str("memory_search hits=").concat(
            crate::text::decimal_string(hits.len() as u64).as_str(),
        );
        answer(content, summary)
    }

    /// Transcript messages that hold the query.
    pub fn session_search(&self, store: &InMemorySessionStore, args: &Json) -> (r: Result<
        ToolResult,
        ToolError,
    >)
        ensures
            session_search_outcome(*store, *args, r),
    {
        let query = match arg_string(args, "query") {
            Ok(q) => q,
            Err(e) => return Err(e),
        };
        let limit = limit_arg(args);
        let hits = store.search_transcripts(query.as_str(), limit);
        let ghost found = transcript_hits(*store, query@, limit as nat);
        assert(pair_derefs(hits@) == found);
        let content = if hits.len() == 0 {
            String::from_str("no transcript matches for ").concat(
                debug_str_exec(query.as_str()).as_str(),
            )
        } else {
            let mut lines: Vec<String> = Vec::new();
            let mut i: usize = 0;
            while i < hits.len()
                invariant
                    i <= hits@.len(),
                    pair_derefs(hits@) == found,
                    views(lines@) == found.take(i as int).map_values(
                        |p: (u128, crate::storage::records::TranscriptMessage)| session_line(p),
                    ),
                decreases hits@.len() - i,
            {
                let ghost before = views(lines@);
                let (sid, m) = hits[i];
                let line = session_line_exec(sid, m);
                lines.push(line);
                assert(pair_derefs(hits@)[i as int] == (sid, *m));
                assert(views(lines@) =~= before.push(session_line(found[i as int])));
                assert(views(lines@) =~= found.take(i + 1).map_values(
                    |p: (u128, crate::storage::records::TranscriptMessage)| session_line(p),
                ));
                i = i + 1;
            }
            assert(found.take(i as int) =~= found);
            crate::tools::workspace::join_with_newlines(&lines)
        };
        let summary = String::from_str("session_search hits=").concat(
            crate::text::decimal_string(hits.len() as u64).as_str(),
        );
        answer(content, summary)
    }
}

/// The call was refused with this message.
pub open spec fn denied(r: Result<ToolResult, ToolError>, m: Seq<char>) -> bool {
    r matches Err(ToolError::Denied(e)) && e@ == m
}

impl MemoryTools {
    /// The catalog: the tools of this runtime that are allowed, in order.
    pub fn catalog(&self) -> (r: Vec<ToolSpec>)
        ensures
            crate::domain::listing(r@) == crate::domain::offered(memory_tools(), views(self.allowed@)),
            forall|i: int| 0 <= i < r@.len() ==> is_empty_params(#[trigger] r@[i].parameters),
    {
        let tools: [(&str, &str); 6] = [
            ("memory_read", "Read a Memory entry by id"),
            ("memory_write", "Write a new Memory entry"),
            ("memory_update", "Update a Memory entry"),
            ("memory_delete", "Delete a Memory entry"),
            ("memory_search", "Search Memory entries"),
            ("session_search", "Search Session transcripts"),
        ];
        assert(crate::domain::pair_views(tools@) =~= memory_tools());
        crate::domain::catalog_of(self.allowed.as_slice(), &tools)
    }

    /// Run one call against the store: the allowlist first, then the tool it names (a new
    /// entry gets a fresh random UUID).
    pub fn invoke(&self, store: &mut InMemorySessionStore, call: &ToolCall) -> (r: Result<
        ToolResult,
        ToolError,
    >)
        requires
            old(store).wf(),
        ensures
            final(store).wf(),
            !views(self.allowed@).contains(call.name@) ==> denied(r, disallowed(call.name@))
                && *final(store) == *old(store),
            views(self.allowed@).contains(call.name@) && call.name@ == "memory_write"@ ==> exists|
                id: u128,
            | write_outcome(*self, *old(store), *final(store), call.arguments, id, r),
            views(self.allowed@).contains(call.name@) && call.name@ == "memory_update"@
                ==> update_outcome(*old(store), *final(store), call.arguments, r),
            views(self.allowed@).contains(call.name@) && call.name@ == "memory_delete"@
                ==> delete_outcome(*old(store), *final(store), call.arguments, r),
            views(self.allowed@).contains(call.name@) && call.name@ == "memory_read"@
                ==> read_outcome(*old(store), call.arguments, r) && *final(store) == *old(store),
            views(self.allowed@).contains(call.name@) && call.name@ == "memory_search"@
                ==> memory_search_outcome(*old(store), call.arguments, r) && *final(store)
                == *old(store),
            views(self.allowed@).contains(call.name@) && call.name@ == "session_search"@
                ==> session_search_outcome(*old(store), call.arguments, r) && *final(store)
                == *old(store),
            views(self.allowed@).contains(call.name@) && call.name@ != "memory_write"@ && call.name@
                != "memory_update"@ && call.name@ != "memory_delete"@ && call.name@
                != "memory_read"@ && call.name@ != "memory_search"@ && call.name@
                != "session_search"@ ==> denied(r, disallowed(call.name@)) && *final(store)
                == *old(store),
    {
        proof {
            reveal_strlit("memory_write");
            reveal_strlit("memory_update");
            reveal_strlit("memory_delete");
            reveal_strlit("memory_read");
            reveal_strlit("memory_search");
            reveal_strlit("session_search");
            assert("memory_write"@.len() == 12 && "memory_read"@.len() == 11);
            assert("memory_update"@.len() == 13 && "memory_delete"@.len() == 13);
            assert("memory_search"@.len() == 13 && "session_search"@.len() == 14);
            assert("memory_update"@[7] != "memory_delete"@[7]);
            assert("memory_update"@[7] != "memory_search"@[7]);
            assert("memory_delete"@[7] != "memory_search"@[7]);
        }
        let name = call.name.as_str();
        if !crate::text::list_contains(self.allowed.as_slice(), name) {
            return Err(
                ToolError::Denied(
                    String::from_str("unknown or disallowed tool '").concat(name).concat("'"),
                ),
            );
        }
        if crate::text::str_eq(name, "memory_write") {
            let id = crate::storage::records::random_uuid();
            self.memory_write(store, &call.arguments, id)
        } else if crate::text::str_eq(name, "memory_update") {
            self.memory_update(store, &call.arguments)
        } else if crate::text::str_eq(name, "memory_delete") {
            self.memory_delete(store, &call.arguments)
        } else if crate::text::str_eq(name, "memory_read") {
            self.memory_read(store, &call.arguments)
        } else if crate::text::str_eq(name, "memory_search") {
            self.memory_search(store, &call.arguments)
        } else if crate::text::str_eq(name, "session_search") {
            self.session_search(store, &call.arguments)
        } else {
            Err(
                ToolError::Denied(
                    String::from_str("unknown or disallowed tool '").concat(name).concat("'"),
                ),
            )
        }
    }
}

/// A read that names a freshly written entry answers with the written content and
/// label.
pub proof fn lemma_write_then_read(
    tools: MemoryTools,
    before: InMemorySessionStore,
    after: InMemorySessionStore,
    args: Json,
    id: u128,
    r: Result<ToolResult, ToolError>,
    read_args: Json,
    r2: Result<ToolResult, ToolError>,
)
    requires
        write_outcome(tools, before, after, args, id, r),
        r is Ok,
        id_failure(read_args) is None,
        id_of(read_args) == id,
        read_outcome(after, read_args, r2),
    ensures
        get_str(args, "content"@) matches Some(c) && answered(
            r2,
            "id="@ + uuid_text(id) + " label="@ + label_debug(get_str(args, "label"@)) + "\n"@ + c,
            "memory_read id="@ + uuid_text(id) + " chars="@ + decimal(
                (encode_utf8(c).len() as usize) as nat,
            ),
        ),
{
}

/// A read that names a deleted entry fails as not found.
pub proof fn lemma_delete_then_read(
    before: InMemorySessionStore,
    after: InMemorySessionStore,
    args: Json,
    r: Result<ToolResult, ToolError>,
    read_args: Json,
    r2: Result<ToolResult, ToolError>,
)
    requires
        delete_outcome(before, after, args, r),
        id_failure(args) is None,
        id_failure(read_args) is None,
        id_of(read_args) == id_of(args),
        read_outcome(after, read_args, r2),
    ensures
        failed(r2, not_found("memory"@, id_of(args))),
{
}

/// A read that names an updated entry answers with the new content and label where the
/// update gave them, and the old ones where it did not.
pub proof fn lemma_update_then_read(
    before: InMemorySessionStore,
    after: InMemorySessionStore,
    args: Json,
    r: Result<ToolResult, ToolError>,
    read_args: Json,
    r2: Result<ToolResult, ToolError>,
)
    requires
        update_outcome(before, after, args, r),
        r is Ok,
        id_failure(args) is None,
        id_failure(read_args) is None,
        id_of(read_args) == id_of(args),
        read_outcome(after, read_args, r2),
    ensures
        before.memory.entry(id_of(args)) matches Some(e) && r2 matches Ok(res) && res.content@
            == "id="@ + uuid_text(id_of(args)) + " label="@ + label_debug(
            match get_str(args, "label"@) {
                Some(l) => Some(l),
                None => crate::text::opt_view(e.label),
            },
        ) + "\n"@ + (match get_str(args, "content"@) {
            Some(c) => c,
            None => e.content@,
        }),
{
}

} // verus!
