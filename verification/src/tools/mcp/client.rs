//! MCP client sessions: discovered tools, the decisions around a `tools/call`, the
//! multi-server registry and the doctor report. Transports (stdio pipes, HTTP) run
//! around the library and hand their replies in.

use crate::domain::{ToolCall, ToolError, ToolResult, ToolSpec};
use crate::json::{copy_json, same, Json};
use crate::model::consumer::join_lines;
use crate::text::{debug_strings, decimal, views};
use crate::tools::mcp::config::{McpConfig, McpServerConfig};
use crate::tools::mcp::protocol::{namespaced, namespaced_tool_name};
use vstd::prelude::*;

verus! {

/// How long a request may take when the server config does not say.
pub const DEFAULT_TIMEOUT_MS: u64 = 30000;

/// How many characters of a tool result are kept when the server config does not say.
pub const DEFAULT_MAX_RESULT_CHARS: usize = 50000;

/// How many unread bytes a stdio transport may hold before it gives up.
pub const MAX_FRAME_BUF: usize = 4194304;

/// Health of one configured MCP server (no secrets).
#[derive(Debug)]
pub struct McpServerHealth {
    pub server_id: String,
    pub configured: bool,
    pub connected: bool,
    pub error: Option<String>,
    /// Namespaced tool names discovered.
    pub discovered_tools: Vec<String>,
    /// Namespaced names on the control-plane allowlist.
    pub allowlisted_tools: Vec<String>,
    /// Namespaced names declared high-blast.
    pub high_blast_tools: Vec<String>,
}

/// Health of every configured MCP server.
#[derive(Debug)]
pub struct McpDoctorReport {
    pub servers: Vec<McpServerHealth>,
}

/// The status word of a server in the doctor report.
pub open spec fn status_word(s: McpServerHealth) -> Seq<char> {
    if s.connected {
        "connected"@
    } else if s.configured {
        "error"@
    } else {
        "not_configured"@
    }
}

/// The error line of a server, if it has an error.
pub open spec fn error_lines(e: Option<String>) -> Seq<Seq<char>> {
    match e {
        Some(e) => seq!["     error: "@ + e@],
        None => Seq::empty(),
    }
}

/// The doctor lines of one server: the summary, then the error and the non-empty name
/// lists.
pub open spec fn server_lines(s: McpServerHealth) -> Seq<Seq<char>> {
    let head = (if s.connected {
        "ok  "@
    } else {
        "warn"@
    }) + " MCP server '"@ + s.server_id@ + "' status="@ + status_word(s) + " discovered="@
        + decimal(s.discovered_tools@.len()) + " allowlisted="@ + decimal(
        s.allowlisted_tools@.len(),
    ) + " high_blast="@ + decimal(s.high_blast_tools@.len());
    seq![head] + error_lines(s.error) + (if s.discovered_tools@.len() > 0 {
        seq!["     discovered: "@ + debug_strings(views(s.discovered_tools@))]
    } else {
        Seq::empty()
    }) + (if s.allowlisted_tools@.len() > 0 {
        seq!["     control_plane allowlist: "@ + debug_strings(views(s.allowlisted_tools@))]
    } else {
        Seq::empty()
    }) + (if s.high_blast_tools@.len() > 0 {
        seq!["     high_blast: "@ + debug_strings(views(s.high_blast_tools@))]
    } else {
        Seq::empty()
    })
}

/// The doctor lines of several servers, one after another.
pub open spec fn servers_lines(servers: Seq<McpServerHealth>) -> Seq<Seq<char>>
    decreases servers.len(),
{
    if servers.len() == 0 {
        Seq::empty()
    } else {
        servers_lines(servers.drop_last()) + server_lines(servers.last())
    }
}

/// The doctor lines of a report; a note when no server is configured.
pub open spec fn report_lines(r: McpDoctorReport) -> Seq<Seq<char>> {
    if r.servers@.len() == 0 {
        seq!["info MCP: no servers configured (set KERYX_MCP_CONFIG)"@]
    } else {
        servers_lines(r.servers@)
    }
}

fn push_lines_of(out: &mut Vec<String>, s: &McpServerHealth)
    ensures
        views(final(out)@) == views(old(out)@) + server_lines(*s),
{
    let ghost before = views(out@);
    let head = String::from_str(if s.connected {
        "ok  "
    } else {
        "warn"
    }).concat(" MCP server '").concat(s.server_id.as_str()).concat("' status=").concat(
        if s.connected {
            "connected"
        } else if s.configured {
            "error"
        } else {
            "not_configured"
        },
    ).concat(" discovered=").concat(
        crate::text::decimal_string(s.discovered_tools.len() as u64).as_str(),
    ).concat(" allowlisted=").concat(
        crate::text::decimal_string(s.allowlisted_tools.len() as u64).as_str(),
    ).concat(" high_blast=").concat(
        crate::text::decimal_string(s.high_blast_tools.len() as u64).as_str(),
    );
    out.push(head);
    let ghost l1 = views(out@);
    assert(l1 =~= before + seq![server_lines(*s)[0]]);
    let ghost e = error_lines(s.error);
    if let Some(err) = &s.error {
        out.push(String::from_str("     error: ").concat(err.as_str()));
    }
    assert(views(out@) =~= l1 + e);
    let ghost l2 = views(out@);
    let ghost d = if s.discovered_tools@.len() > 0 {
        seq!["     discovered: "@ + debug_strings(views(s.discovered_tools@))]
    } else {
        Seq::<Seq<char>>::empty()
    };
    if s.discovered_tools.len() > 0 {
        out.push(
            String::from_str("     discovered: ").concat(
                crate::text::debug_strings_exec(s.discovered_tools.as_slice()).as_str(),
            ),
        );
    }
    assert(views(out@) =~= l2 + d);
    let ghost l3 = views(out@);
    let ghost a = if s.allowlisted_tools@.len() > 0 {
        seq!["     control_plane allowlist: "@ + debug_strings(views(s.allowlisted_tools@))]
    } else {
        Seq::<Seq<char>>::empty()
    };
    if s.allowlisted_tools.len() > 0 {
        out.push(
            String::from_str("     control_plane allowlist: ").concat(
                crate::text::debug_strings_exec(s.allowlisted_tools.as_slice()).as_str(),
            ),
        );
    }
    assert(views(out@) =~= l3 + a);
    let ghost l4 = views(out@);
    let ghost h = if s.high_blast_tools@.len() > 0 {
        seq!["     high_blast: "@ + debug_strings(views(s.high_blast_tools@))]
    } else {
        Seq::<Seq<char>>::empty()
    };
    if s.high_blast_tools.len() > 0 {
        out.push(
            String::from_str("     high_blast: ").concat(
                crate::text::debug_strings_exec(s.high_blast_tools.as_slice()).as_str(),
            ),
        );
    }
    assert(views(out@) =~= l4 + h);
    assert(server_lines(*s) =~= seq![server_lines(*s)[0]] + e + d + a + h);
}

impl McpDoctorReport {
    /// A report with no server.
    pub fn new() -> (r: Self)
        ensures
            r.servers@.len() == 0,
    {
        McpDoctorReport { servers: Vec::new() }
    }

    /// No server is configured.
    pub fn is_empty(&self) -> (r: bool)
        ensures
            r == (self.servers@.len() == 0),
    {
        self.servers.len() == 0
    }

    /// The doctor lines, in order (no secrets).
    pub fn lines(&self) -> (r: Vec<String>)
        ensures
            views(r@) == report_lines(*self),
    {
        let mut out: Vec<String> = Vec::new();
        if self.servers.len() == 0 {
            out.push(String::from_str("info MCP: no servers configured (set KERYX_MCP_CONFIG)"));
            assert(views(out@) =~= report_lines(*self));
            return out;
        }
        let mut i: usize = 0;
        assert(self.servers@.take(0) =~= Seq::<McpServerHealth>::empty());
        while i < self.servers.len()
            invariant
                i <= self.servers@.len(),
                views(out@) == servers_lines(self.servers@.take(i as int)),
            decreases self.servers@.len() - i,
        {
            push_lines_of(&mut out, &self.servers[i]);
            assert(self.servers@.take(i + 1).drop_last() =~= self.servers@.take(i as int));
            i = i + 1;
        }
        assert(self.servers@.take(i as int) =~= self.servers@);
        out
    }
}

impl Default for McpDoctorReport {
    fn default() -> (r: Self)
        ensures
            r.servers@.len() == 0,
    {
        McpDoctorReport { servers: Vec::new() }
    }
}

/// A JSON-RPC error object.
#[derive(Debug)]
pub struct JsonRpcError {
    pub code: i64,
    pub message: String,
}

/// One content block of a `tools/call` result.
#[derive(Debug)]
pub struct ContentBlock {
    pub kind: Option<String>,
    pub text: Option<String>,
}

/// A `tools/call` result: content blocks and the error flag.
#[derive(Debug)]
pub struct ToolsCallResult {
    pub content: Vec<ContentBlock>,
    pub is_error: bool,
}

/// The texts of the blocks that have one, in order.
pub open spec fn block_texts(blocks: Seq<ContentBlock>) -> Seq<Seq<char>>
    decreases blocks.len(),
{
    if blocks.len() == 0 {
        Seq::empty()
    } else {
        block_texts(blocks.drop_last()) + (match blocks.last().text {
            Some(t) => seq![t@],
            None => Seq::empty(),
        })
    }
}

/// The text of a result: the block texts joined by newlines.
pub open spec fn content_text(blocks: Seq<ContentBlock>) -> Seq<char> {
    join_lines(block_texts(blocks))
}

/// The text of a result's content blocks.
pub fn content_to_text(blocks: &[ContentBlock]) -> (r: String)
    ensures
        r@ == content_text(blocks@),
{
    let mut texts: Vec<String> = Vec::new();
    let mut i: usize = 0;
    assert(blocks@.take(0) =~= Seq::<ContentBlock>::empty());
    while i < blocks.len()
        invariant
            i <= blocks@.len(),
            views(texts@) == block_texts(blocks@.take(i as int)),
        decreases blocks@.len() - i,
    {
        let ghost before = views(texts@);
        if let Some(t) = &blocks[i].text {
            texts.push(t.clone());
        }
        assert(blocks@.take(i + 1).drop_last() =~= blocks@.take(i as int));
        assert(views(texts@) =~= before + (match blocks@[i as int].text {
            Some(t) => seq![t@],
            None => Seq::<Seq<char>>::empty(),
        }));
        i = i + 1;
    }
    assert(blocks@.take(i as int) =~= blocks@);
    crate::tools::workspace::join_with_newlines(&texts)
}

/// A result text cut to `max` characters, with a marker when it was longer.
pub open spec fn capped_text(t: Seq<char>, max: nat) -> Seq<char> {
    if t.len() > max {
        t.take(max as int) + "…[truncated]"@
    } else {
        t
    }
}

/// What a `tools/call` answer becomes: a parse failure or an error result fails
/// (closed), anything else is the joined text, capped.
pub open spec fn call_outcome(
    server_id: Seq<char>,
    parsed: Result<ToolsCallResult, String>,
    max: nat,
) -> Result<Seq<char>, Seq<char>> {
    match parsed {
        Err(e) => Err("MCP tools/call result parse error on '"@ + server_id + "': "@ + e@),
        Ok(res) => if res.is_error {
            Err("MCP tools/call error on '"@ + server_id + "': "@ + content_text(res.content@))
        } else {
            Ok(capped_text(content_text(res.content@), max))
        },
    }
}

/// The view of a call's text or failure.
pub open spec fn text_view(r: Result<String, ToolError>) -> Result<Seq<char>, Seq<char>> {
    match r {
        Ok(t) => Ok(t@),
        Err(ToolError::Failed(m)) => Err(m@),
        Err(_) => Err(Seq::empty()),
    }
}

/// A tool as the server declared it in `tools/list`.
#[derive(Debug)]
pub struct McpToolDef {
    pub name: String,
    pub description: Option<String>,
    pub input_schema: Option<Json>,
}

/// A discovered tool: its name on the server, its namespaced name, description and
/// schema.
#[derive(Debug)]
pub struct RegisteredMcpTool {
    pub local_name: String,
    pub namespaced: String,
    pub description: String,
    pub parameters: Json,
}

/// The schema of a tool that declared none: any object.
pub open spec fn is_open_schema(j: Json) -> bool {
    &&& crate::json::size(j) == 3
    &&& crate::json::member(j, 0, "type"@) matches Some(t) && crate::json::is_text(t, "object"@)
    &&& crate::json::member(j, 1, "properties"@) matches Some(p) && p matches Json::Object(m)
        && m@.len() == 0
    &&& crate::json::member(j, 2, "additionalProperties"@) == Some(Json::Bool(true))
}

/// A declared tool is kept: no filter, or the filter names it.
pub open spec fn kept(d: McpToolDef, filter: Seq<Seq<char>>) -> bool {
    filter.len() == 0 || filter.contains(d.name@)
}

/// A registered tool is the declared one under the server's namespace, with the
/// default description and schema where none was declared.
pub open spec fn registers(server_id: Seq<char>, d: McpToolDef, t: RegisteredMcpTool) -> bool {
    &&& t.local_name@ == d.name@
    &&& t.namespaced@ == namespaced(server_id, d.name@)
    &&& t.description@ == (match d.description {
        Some(s) => s@,
        None => "MCP tool"@,
    })
    &&& match d.input_schema {
        Some(s) => same(s, t.parameters),
        None => is_open_schema(t.parameters),
    }
}

/// The declared tools that are kept, in order.
pub open spec fn kept_defs(defs: Seq<McpToolDef>, filter: Seq<Seq<char>>) -> Seq<McpToolDef> {
    defs.filter(|d: McpToolDef| kept(d, filter))
}

fn register_one(server_id: &str, d: &McpToolDef) -> (t: RegisteredMcpTool)
    ensures
        registers(server_id@, *d, t),
{
    RegisteredMcpTool {
        local_name: d.name.clone(),
        namespaced: namespaced_tool_name(server_id, d.name.as_str()),
        description: match &d.description {
            Some(s) => s.clone(),
            None => String::from_str("MCP tool"),
        },
        parameters: match &d.input_schema {
            Some(s) => copy_json(s),
            None => crate::json::open_object_schema(),
        },
    }
}

/// The tools a session registers from `tools/list`: those the filter keeps (all when
/// it is empty), namespaced under the server id.
pub fn register_tools(server_id: &str, defs: &[McpToolDef], filter: &[String]) -> (r: Vec<
    RegisteredMcpTool,
>)
    ensures
        r@.len() == kept_defs(defs@, views(filter@)).len(),
        forall|i: int|
            0 <= i < r@.len() ==> registers(
                server_id@,
                #[trigger] kept_defs(defs@, views(filter@))[i],
                r@[i],
            ),
{
    let ghost f = views(filter@);
    let ghost pred = |d: McpToolDef| kept(d, f);
    let mut out: Vec<RegisteredMcpTool> = Vec::new();
    let mut i: usize = 0;
    assert(defs@.take(0) =~= Seq::<McpToolDef>::empty());
    assert(defs@.take(0).filter(pred) =~= Seq::<McpToolDef>::empty()) by {
        reveal(Seq::filter);
    }
    while i < defs.len()
        invariant
            i <= defs@.len(),
            f == views(filter@),
            pred == (|d: McpToolDef| kept(d, f)),
            out@.len() == defs@.take(i as int).filter(pred).len(),
            forall|k: int|
                0 <= k < out@.len() ==> registers(
                    server_id@,
                    #[trigger] defs@.take(i as int).filter(pred)[k],
                    out@[k],
                ),
        decreases defs@.len() - i,
    {
        let ghost before = defs@.take(i as int).filter(pred);
        let ghost old_out = out@;
        assert(defs@.take(i + 1).drop_last() =~= defs@.take(i as int));
        let keep = filter.len() == 0 || crate::text::list_contains(filter, defs[i].name.as_str());
        assert(keep == pred(defs@[i as int]));
        if keep {
            let t = register_one(server_id, &defs[i]);
            out.push(t);
            assert(defs@.take(i + 1).filter(pred) == before.push(defs@[i as int])) by {
                reveal(Seq::filter);
            }
            assert forall|k: int| 0 <= k < out@.len() implies registers(
                server_id@,
                #[trigger] defs@.take(i + 1).filter(pred)[k],
                out@[k],
            ) by {
                if k < old_out.len() {
                    assert(before[k] == defs@.take(i + 1).filter(pred)[k]);
                }
            }
        } else {
            assert(defs@.take(i + 1).filter(pred) == before) by {
                reveal(Seq::filter);
            }
        }
        i = i + 1;
    }
    assert(defs@.take(i as int) =~= defs@);
    out
}

/// The value of the first entry with key `k`.
pub open spec fn assoc<V>(entries: Seq<(String, V)>, k: Seq<char>) -> Option<V>
    decreases entries.len(),
{
    if entries.len() == 0 {
        None
    } else if entries[0].0@ == k {
        Some(entries[0].1)
    } else {
        assoc(entries.drop_first(), k)
    }
}

/// The keys of a list of entries, in order.
pub open spec fn keys<V>(entries: Seq<(String, V)>) -> Seq<Seq<char>> {
    entries.map_values(|e: (String, V)| e.0@)
}

proof fn lemma_assoc_absent<V>(entries: Seq<(String, V)>, k: Seq<char>)
    requires
        !keys(entries).contains(k),
    ensures
        assoc(entries, k) is None,
    decreases entries.len(),
{
    if entries.len() > 0 {
        assert(keys(entries)[0] == entries[0].0@);
        assert(keys(entries.drop_first()) =~= keys(entries).drop_first());
        lemma_assoc_absent(entries.drop_first(), k);
    }
}

proof fn lemma_assoc_at<V>(entries: Seq<(String, V)>, i: int, k: Seq<char>)
    requires
        0 <= i < entries.len(),
        entries[i].0@ == k,
        forall|j: int| 0 <= j < i ==> entries[j].0@ != k,
    ensures
        assoc(entries, k) == Some(entries[i].1),
    decreases i,
{
    if i > 0 {
        lemma_assoc_at(entries.drop_first(), i - 1, k);
    }
}

proof fn lemma_assoc_update<V>(entries: Seq<(String, V)>, i: int, k: Seq<char>, v: V, q: Seq<char>)
    requires
        0 <= i < entries.len(),
        entries[i].0@ == k,
    ensures
        q != k ==> assoc(entries.update(i, (entries[i].0, v)), q) == assoc(entries, q),
        q == k && (forall|j: int| 0 <= j < i ==> entries[j].0@ != k) ==> assoc(
            entries.update(i, (entries[i].0, v)),
            q,
        ) == Some(v),
    decreases i,
{
    if i > 0 {
        lemma_assoc_update(entries.drop_first(), i - 1, k, v, q);
        assert(entries.update(i, (entries[i].0, v)).drop_first() =~= entries.drop_first().update(
            i - 1,
            (entries[i].0, v),
        ));
    } else {
        assert(entries.update(i, (entries[i].0, v)).drop_first() =~= entries.drop_first());
    }
}

proof fn lemma_assoc_push<V>(entries: Seq<(String, V)>, k: String, v: V, q: Seq<char>)
    requires
        !keys(entries).contains(k@),
    ensures
        assoc(entries.push((k, v)), q) == if q == k@ {
            Some(v)
        } else {
            assoc(entries, q)
        },
    decreases entries.len(),
{
    if entries.len() == 0 {
        assert(entries.push((k, v))[0] == (k, v));
        assert(entries.push((k, v)).drop_first() =~= Seq::<(String, V)>::empty());
        assert(assoc(entries.push((k, v)).drop_first(), q) is None);
    } else {
        assert(keys(entries)[0] == entries[0].0@);
        assert(keys(entries.drop_first()) =~= keys(entries).drop_first());
        assert(!keys(entries.drop_first()).contains(k@)) by {
            if keys(entries.drop_first()).contains(k@) {
                let j = choose|j: int|
                    0 <= j < keys(entries.drop_first()).len() && keys(entries.drop_first())[j] == k@;
                assert(keys(entries)[j + 1] == k@);
            }
        }
        assert(entries.push((k, v))[0] == entries[0]);
        assert(entries.push((k, v)).drop_first() =~= entries.drop_first().push((k, v)));
        lemma_assoc_push(entries.drop_first(), k, v, q);
    }
}

/// The position of the first entry with this key.
fn position_of<V>(entries: &Vec<(String, V)>, k: &str) -> (r: Option<usize>)
    ensures
        match r {
            Some(i) => i < entries@.len() && entries@[i as int].0@ == k@ && forall|j: int|
                0 <= j < i ==> entries@[j].0@ != k@,
            None => !keys(entries@).contains(k@),
        },
{
    let mut i: usize = 0;
    while i < entries.len()
        invariant
            i <= entries@.len(),
            forall|j: int| 0 <= j < i ==> entries@[j].0@ != k@,
        decreases entries@.len() - i,
    {
        if crate::text::str_eq(entries[i].0.as_str(), k) {
            return Some(i);
        }
        i = i + 1;
    }
    assert forall|j: int| 0 <= j < keys(entries@).len() implies keys(entries@)[j] != k@ by {
        assert(keys(entries@)[j] == entries@[j].0@);
    }
    None
}

/// Set the value of key `k`: in place when present, appended otherwise.
fn put<V>(entries: &mut Vec<(String, V)>, k: String, v: V)
    ensures
        assoc(final(entries)@, k@) == Some(v),
        forall|q: Seq<char>| q != k@ ==> assoc(final(entries)@, q) == assoc(old(entries)@, q),
        keys(old(entries)@).contains(k@) ==> keys(final(entries)@) == keys(old(entries)@),
        !keys(old(entries)@).contains(k@) ==> keys(final(entries)@) == keys(old(entries)@).push(k@),
{
    match position_of(entries, k.as_str()) {
        Some(i) => {
            let ghost before = entries@;
            let key = entries[i].0.clone();
            entries.set(i, (key, v));
            proof {
                assert(entries@ == before.update(i as int, (before[i as int].0, v)));
                lemma_assoc_update(before, i as int, k@, v, k@);
                assert forall|q: Seq<char>| q != k@ implies assoc(entries@, q) == assoc(before, q) by {
                    lemma_assoc_update(before, i as int, k@, v, q);
                }
                assert(keys(entries@) =~= keys(before));
                assert(keys(before)[i as int] == k@);
            }
        },
        None => {
            let ghost before = entries@;
            entries.push((k, v));
            proof {
                lemma_assoc_push(before, k, v, k@);
                assert forall|q: Seq<char>| q != k@ implies assoc(entries@, q) == assoc(before, q) by {
                    lemma_assoc_push(before, k, v, q);
                }
                assert(keys(entries@) =~= keys(before).push(k@));
            }
        },
    }
}

/// A scripted MCP peer: per local tool name a fixed result, a description and a schema.
#[derive(Debug)]
pub struct MockMcpPeer {
    /// Local name and result content.
    pub tools: Vec<(String, String)>,
    /// Local name and description.
    pub descriptions: Vec<(String, String)>,
    /// Local name and input schema.
    pub schemas: Vec<(String, Json)>,
    pub disconnected: bool,
}

/// The description a peer lists for a tool.
pub open spec fn peer_description(p: MockMcpPeer, name: Seq<char>) -> Seq<char> {
    match assoc(p.descriptions@, name) {
        Some(d) => d@,
        None => "mock MCP tool"@,
    }
}

/// The schema a peer lists for a tool is the configured one, or the open schema.
pub open spec fn peer_schema(p: MockMcpPeer, name: Seq<char>, j: Json) -> bool {
    match assoc(p.schemas@, name) {
        Some(s) => same(s, j),
        None => is_open_schema(j),
    }
}

impl MockMcpPeer {
    /// A connected peer with no tools.
    pub fn new() -> (r: Self)
        ensures
            r.tools@.len() == 0,
            r.descriptions@.len() == 0,
            r.schemas@.len() == 0,
            !r.disconnected,
    {
        MockMcpPeer { tools: Vec::new(), descriptions: Vec::new(), schemas: Vec::new(), disconnected: false }
    }

    /// Add (or replace) a tool answering `result`; a tool without a description gets the
    /// default one.
    pub fn with_tool(self, name: &str, result: &str) -> (r: Self)
        ensures
            assoc(r.tools@, name@) matches Some(v) && v@ == result@,
            forall|q: Seq<char>| q != name@ ==> assoc(r.tools@, q) == assoc(self.tools@, q),
            keys(self.tools@).contains(name@) ==> keys(r.tools@) == keys(self.tools@),
            !keys(self.tools@).contains(name@) ==> keys(r.tools@) == keys(self.tools@).push(name@),
            peer_description(r, name@) == peer_description(self, name@),
            forall|q: Seq<char>| #[trigger] peer_description(r, q) == peer_description(self, q),
            r.schemas@ == self.schemas@,
            r.disconnected == self.disconnected,
    {
        let mut p = self;
        put(&mut p.tools, String::from_str(name), String::from_str(result));
        if position_of(&p.descriptions, name).is_none() {
            let ghost before = p.descriptions@;
            proof {
                lemma_assoc_absent(before, name@);
            }
            put(&mut p.descriptions, String::from_str(name), String::from_str("mock MCP tool"));
            proof {
                reveal_strlit("mock MCP tool");
            }
        }
        p
    }

    /// Add (or replace) a tool with its result, description and schema.
    pub fn with_tool_schema(self, name: &str, result: &str, description: &str, schema: Json) -> (r:
        Self)
        ensures
            assoc(r.tools@, name@) matches Some(v) && v@ == result@,
            forall|q: Seq<char>| q != name@ ==> assoc(r.tools@, q) == assoc(self.tools@, q),
            keys(self.tools@).contains(name@) ==> keys(r.tools@) == keys(self.tools@),
            !keys(self.tools@).contains(name@) ==> keys(r.tools@) == keys(self.tools@).push(name@),
            peer_description(r, name@) == description@,
            forall|q: Seq<char>| q != name@ ==> peer_description(r, q) == peer_description(self, q),
            assoc(r.schemas@, name@) == Some(schema),
            forall|q: Seq<char>| q != name@ ==> assoc(r.schemas@, q) == assoc(self.schemas@, q),
            r.disconnected == self.disconnected,
    {
        let mut p = self;
        put(&mut p.tools, String::from_str(name), String::from_str(result));
        put(&mut p.descriptions, String::from_str(name), String::from_str(description));
        put(&mut p.schemas, String::from_str(name), schema);
        p
    }

    /// The peer goes away: calls through it fail closed from now on.
    pub fn disconnect(&mut self)
        ensures
            final(self).disconnected,
            final(self).tools@ == old(self).tools@,
            final(self).descriptions@ == old(self).descriptions@,
            final(self).schemas@ == old(self).schemas@,
    {
        self.disconnected = true;
    }

    pub fn is_disconnected(&self) -> (r: bool)
        ensures
            r == self.disconnected,
    {
        self.disconnected
    }

    /// The result content of a local tool, if the peer has it.
    pub fn tool_result(&self, local_name: &str) -> (r: Option<String>)
        ensures
            crate::text::opt_view(r) == crate::text::opt_view(assoc(self.tools@, local_name@)),
    {
        match position_of(&self.tools, local_name) {
            Some(i) => {
                proof {
                    lemma_assoc_at(self.tools@, i as int, local_name@);
                }
                Some(self.tools[i].1.clone())
            },
            None => {
                proof {
                    lemma_assoc_absent(self.tools@, local_name@);
                }
                None
            },
        }
    }

    fn description_of(&self, name: &str) -> (r: String)
        ensures
            r@ == peer_description(*self, name@),
    {
        match position_of(&self.descriptions, name) {
            Some(i) => {
                proof {
                    lemma_assoc_at(self.descriptions@, i as int, name@);
                }
                self.descriptions[i].1.clone()
            },
            None => {
                proof {
                    lemma_assoc_absent(self.descriptions@, name@);
                }
                String::from_str("mock MCP tool")
            },
        }
    }

    fn schema_of(&self, name: &str) -> (r: Json)
        ensures
            peer_schema(*self, name@, r),
    {
        match position_of(&self.schemas, name) {
            Some(i) => {
                proof {
                    lemma_assoc_at(self.schemas@, i as int, name@);
                }
                copy_json(&self.schemas[i].1)
            },
            None => {
                proof {
                    lemma_assoc_absent(self.schemas@, name@);
                }
                crate::json::open_object_schema()
            },
        }
    }

    /// Every tool of the peer with its description and schema, in the order the tools
    /// were first added.
    pub fn local_tools(&self) -> (r: Vec<(String, String, Json)>)
        ensures
            r@.len() == self.tools@.len(),
            forall|i: int|
                0 <= i < r@.len() ==> (#[trigger] r@[i]).0@ == self.tools@[i].0@ && r@[i].1@
                    == peer_description(*self, self.tools@[i].0@) && peer_schema(
                    *self,
                    self.tools@[i].0@,
                    r@[i].2,
                ),
    {
        let mut out: Vec<(String, String, Json)> = Vec::new();
        let mut i: usize = 0;
        while i < self.tools.len()
            invariant
                i <= self.tools@.len(),
                out@.len() == i,
                forall|k: int|
                    0 <= k < i ==> (#[trigger] out@[k]).0@ == self.tools@[k].0@ && out@[k].1@
                        == peer_description(*self, self.tools@[k].0@) && peer_schema(
                        *self,
                        self.tools@[k].0@,
                        out@[k].2,
                    ),
            decreases self.tools@.len() - i,
        {
            let name = &self.tools[i].0;
            let d = self.description_of(name.as_str());
            let sc = self.schema_of(name.as_str());
            out.push((name.clone(), d, sc));
            i = i + 1;
        }
        out
    }
}

/// One MCP session: the server, its discovered tools, its limits, whether it is still
/// connected, and the scripted peer behind it when it talks to one in-process.
#[derive(Debug)]
pub struct McpSession {
    pub server_id: String,
    pub tools: Vec<RegisteredMcpTool>,
    pub timeout_ms: u64,
    pub max_result_chars: usize,
    pub connected: bool,
    pub peer: Option<MockMcpPeer>,
}

/// A session is live: connected, and its peer (if in-process) still there.
pub open spec fn live(s: McpSession) -> bool {
    s.connected && match s.peer {
        Some(p) => !p.disconnected,
        None => true,
    }
}

/// The namespaced names of a session's tools, in order.
pub open spec fn session_names(s: McpSession) -> Seq<Seq<char>> {
    s.tools@.map_values(|t: RegisteredMcpTool| t.namespaced@)
}

/// Name and description of each of a session's tools.
pub open spec fn session_listing(s: McpSession) -> Seq<(Seq<char>, Seq<char>)> {
    s.tools@.map_values(|t: RegisteredMcpTool| (t.namespaced@, t.description@))
}

/// The session knows a tool by this local name.
pub open spec fn knows(s: McpSession, local: Seq<char>) -> bool {
    exists|i: int| 0 <= i < s.tools@.len() && (#[trigger] s.tools@[i]).local_name@ == local
}

/// What a call to a scripted peer answers: its result for the tool, capped, or a denial
/// when it has none.
pub open spec fn peer_answer(p: MockMcpPeer, local: Seq<char>, max: nat) -> Result<
    Seq<char>,
    Seq<char>,
> {
    match assoc(p.tools@, local) {
        Some(c) => Ok(capped_text(c@, max)),
        None => Err("MCP tool '"@ + local + "' not registered"@),
    }
}

/// The text of a capped result.
fn cap_text(t: String, max: usize) -> (r: String)
    ensures
        r@ == capped_text(t@, max as nat),
{
    let v = crate::text::chars_of(t.as_str());
    if v.len() > max {
        let mut out: Vec<char> = Vec::new();
        let mut i: usize = 0;
        while i < max
            invariant
                i <= max < v@.len(),
                out@ == v@.take(i as int),
            decreases max - i,
        {
            out.push(v[i]);
            i = i + 1;
            assert(out@ =~= v@.take(i as int));
        }
        crate::text::string_of(out.as_slice()).concat("…[truncated]")
    } else {
        t
    }
}

impl McpSession {
    /// The session after `initialize` and `tools/list`: the listed tools the filter
    /// keeps, under the server's namespace.
    pub fn open(
        server_id: &str,
        defs: &[McpToolDef],
        filter: &[String],
        timeout_ms: u64,
        max_result_chars: usize,
    ) -> (r: Self)
        ensures
            r.server_id@ == server_id@,
            r.tools@.len() == kept_defs(defs@, views(filter@)).len(),
            forall|i: int|
                0 <= i < r.tools@.len() ==> registers(
                    server_id@,
                    #[trigger] kept_defs(defs@, views(filter@))[i],
                    r.tools@[i],
                ),
            r.timeout_ms == timeout_ms,
            r.max_result_chars == max_result_chars,
            r.connected,
            r.peer is None,
    {
        McpSession {
            server_id: String::from_str(server_id),
            tools: register_tools(server_id, defs, filter),
            timeout_ms,
            max_result_chars,
            connected: true,
            peer: None,
        }
    }

    /// A session over a scripted peer: every peer tool, as the peer lists it.
    pub fn over_peer(server_id: &str, peer: MockMcpPeer) -> (r: Self)
        ensures
            r.server_id@ == server_id@,
            r.tools@.len() == peer.tools@.len(),
            forall|i: int|
                0 <= i < r.tools@.len() ==> (#[trigger] r.tools@[i]).local_name@ == peer.tools@[i].0@
                    && r.tools@[i].namespaced@ == namespaced(server_id@, peer.tools@[i].0@)
                    && r.tools@[i].description@ == peer_description(peer, peer.tools@[i].0@)
                    && peer_schema(peer, peer.tools@[i].0@, r.tools@[i].parameters),
            r.timeout_ms == DEFAULT_TIMEOUT_MS,
            r.max_result_chars == DEFAULT_MAX_RESULT_CHARS,
            r.connected,
            r.peer == Some(peer),
    {
        let mut listed = peer.local_tools();
        let ghost all = listed@;
        let n = listed.len();
        assert(all.len() == n);
        let mut tools: Vec<RegisteredMcpTool> = Vec::new();
        let mut i: usize = 0;
        while listed.len() > 0
            invariant
                i <= all.len(),
                all.len() <= usize::MAX,
                listed@ == all.skip(i as int),
                all.len() == peer.tools@.len(),
                forall|k: int|
                    0 <= k < all.len() ==> (#[trigger] all[k]).0@ == peer.tools@[k].0@ && all[k].1@
                        == peer_description(peer, peer.tools@[k].0@) && peer_schema(
                        peer,
                        peer.tools@[k].0@,
                        all[k].2,
                    ),
                tools@.len() == i,
                forall|k: int|
                    0 <= k < i ==> (#[trigger] tools@[k]).local_name@ == peer.tools@[k].0@
                        && tools@[k].namespaced@ == namespaced(server_id@, peer.tools@[k].0@)
                        && tools@[k].description@ == peer_description(peer, peer.tools@[k].0@)
                        && peer_schema(peer, peer.tools@[k].0@, tools@[k].parameters),
            decreases listed@.len(),
        {
            assert(all.skip(i as int).len() == all.len() - i);
            assert(listed@[0] == all[i as int]);
            let (local, desc, schema) = listed.remove(0);
            assert(listed@ =~= all.skip(i + 1));
            tools.push(
                RegisteredMcpTool {
                    namespaced: namespaced_tool_name(server_id, local.as_str()),
                    local_name: local,
                    description: desc,
                    parameters: schema,
                },
            );
            i = i + 1;
        }
        assert(i == all.len()) by {
            assert(all.skip(i as int).len() == 0);
        }
        McpSession {
            server_id: String::from_str(server_id),
            tools,
            timeout_ms: DEFAULT_TIMEOUT_MS,
            max_result_chars: DEFAULT_MAX_RESULT_CHARS,
            connected: true,
            peer: Some(peer),
        }
    }

    pub fn server_id(&self) -> (r: &str)
        ensures
            r@ == self.server_id@,
    {
        self.server_id.as_str()
    }

    /// The namespaced names of the discovered tools.
    pub fn registered_names(&self) -> (r: Vec<String>)
        ensures
            views(r@) == session_names(*self),
    {
        let mut out: Vec<String> = Vec::new();
        let mut i: usize = 0;
        while i < self.tools.len()
            invariant
                i <= self.tools@.len(),
                views(out@) == session_names(*self).take(i as int),
            decreases self.tools@.len() - i,
        {
            let ghost before = views(out@);
            out.push(self.tools[i].namespaced.clone());
            assert(views(out@) =~= before.push(self.tools@[i as int].namespaced@));
            assert(session_names(*self)[i as int] == self.tools@[i as int].namespaced@);
            i = i + 1;
            assert(views(out@) =~= session_names(*self).take(i as int));
        }
        assert(session_names(*self).take(i as int) =~= session_names(*self));
        out
    }

    /// The discovered tools as the model sees them: namespaced name, description and
    /// the declared schema.
    pub fn catalog(&self) -> (r: Vec<ToolSpec>)
        ensures
            crate::domain::listing(r@) == session_listing(*self),
            r@.len() == self.tools@.len(),
            forall|i: int| 0 <= i < r@.len() ==> same(self.tools@[i].parameters, #[trigger] r@[i].parameters),
    {
        let mut out: Vec<ToolSpec> = Vec::new();
        let mut i: usize = 0;
        while i < self.tools.len()
            invariant
                i <= self.tools@.len(),
                crate::domain::listing(out@) == session_listing(*self).take(i as int),
                out@.len() == i,
                forall|k: int| 0 <= k < out@.len() ==> same(self.tools@[k].parameters, #[trigger] out@[k].parameters),
            decreases self.tools@.len() - i,
        {
            let t = &self.tools[i];
            let ghost before = crate::domain::listing(out@);
            out.push(
                ToolSpec {
                    name: t.namespaced.clone(),
                    description: t.description.clone(),
                    parameters: copy_json(&t.parameters),
                },
            );
            assert(crate::domain::listing(out@) =~= before.push((t.namespaced@, t.description@)));
            assert(session_listing(*self)[i as int] == (t.namespaced@, t.description@));
            i = i + 1;
            assert(crate::domain::listing(out@) =~= session_listing(*self).take(i as int));
        }
        assert(session_listing(*self).take(i as int) =~= session_listing(*self));
        out
    }

    /// Whether calls may go through.
    pub fn is_connected(&self) -> (r: bool)
        ensures
            r == live(*self),
    {
        self.connected && match &self.peer {
            Some(p) => !p.is_disconnected(),
            None => true,
        }
    }

    /// Fail closed from now on (the in-process peer goes away too).
    pub fn disconnect(&mut self)
        ensures
            !live(*final(self)),
            !final(self).connected,
            final(self).server_id == old(self).server_id,
            final(self).tools == old(self).tools,
            final(self).timeout_ms == old(self).timeout_ms,
            final(self).max_result_chars == old(self).max_result_chars,
    {
        self.connected = false;
        if let Some(p) = &mut self.peer {
            p.disconnect();
        }
    }

    /// Whether a tool of this local name was discovered.
    pub fn knows_tool(&self, local: &str) -> (r: bool)
        ensures
            r == knows(*self, local@),
    {
        let mut i: usize = 0;
        while i < self.tools.len()
            invariant
                i <= self.tools@.len(),
                forall|k: int| 0 <= k < i ==> (#[trigger] self.tools@[k]).local_name@ != local@,
            decreases self.tools@.len() - i,
        {
            if crate::text::str_eq(self.tools[i].local_name.as_str(), local) {
                return true;
            }
            i = i + 1;
        }
        false
    }

    /// The `tools/call` parameters for a local tool, or the fail-closed error when the
    /// session is not live.
    pub fn call_request(&self, local: &str, arguments: Json) -> (r: Result<Json, ToolError>)
        ensures
            !live(*self) ==> (r matches Err(ToolError::Failed(m)) && m@ == "MCP server '"@
                + self.server_id@ + "': disconnected (fail closed)"@),
            live(*self) ==> (r matches Ok(p) && crate::json::size(p) == 2 && (crate::json::member(
                p,
                0,
                "name"@,
            ) matches Some(n) && crate::json::is_text(n, local@)) && crate::json::member(
                p,
                1,
                "arguments"@,
            ) == Some(arguments)),
    {
        if !self.is_connected() {
            return Err(
                ToolError::Failed(
                    String::from_str("MCP server '").concat(self.server_id.as_str()).concat(
                        "': disconnected (fail closed)",
                    ),
                ),
            );
        }
        let mut m: Vec<(String, Json)> = Vec::new();
        m.push((String::from_str("name"), crate::json::text(local)));
        m.push((String::from_str("arguments"), arguments));
        Ok(Json::Object(m))
    }

    /// What the session makes of a `tools/call` answer (parsed, or the parse error).
    pub fn finish_call(&self, parsed: Result<ToolsCallResult, String>) -> (r: Result<
        String,
        ToolError,
    >)
        ensures
            text_view(r) == call_outcome(self.server_id@, parsed, self.max_result_chars as nat),
            r is Err ==> r matches Err(ToolError::Failed(_)),
    {
        match parsed {
            Err(e) => Err(
                ToolError::Failed(
                    String::from_str("MCP tools/call result parse error on '").concat(
                        self.server_id.as_str(),
                    ).concat("': ").concat(e.as_str()),
                ),
            ),
            Ok(res) => {
                let text = content_to_text(res.content.as_slice());
                if res.is_error {
                    Err(
                        ToolError::Failed(
                            String::from_str("MCP tools/call error on '").concat(
                                self.server_id.as_str(),
                            ).concat("': ").concat(text.as_str()),
                        ),
                    )
                } else {
                    Ok(cap_text(text, self.max_result_chars))
                }
            },
        }
    }

    /// A call answered by the in-process peer: fail closed when not live, the peer's
    /// result (capped) otherwise.
    pub fn call_peer(&self, local: &str) -> (r: Result<String, ToolError>)
        requires
            self.peer is Some,
        ensures
            !live(*self) ==> (r matches Err(ToolError::Failed(m)) && m@ == "MCP server '"@
                + self.server_id@ + "': disconnected (fail closed)"@),
            live(*self) ==> match peer_answer(self.peer->0, local@, self.max_result_chars as nat) {
                Ok(t) => r matches Ok(x) && x@ == t,
                Err(m) => r matches Err(ToolError::Denied(x)) && x@ == m,
            },
    {
        if !self.is_connected() {
            return Err(
                ToolError::Failed(
                    String::from_str("MCP server '").concat(self.server_id.as_str()).concat(
                        "': disconnected (fail closed)",
                    ),
                ),
            );
        }
        let p = match &self.peer {
            Some(p) => p,
            None => {
                return Err(ToolError::Failed(String::new()));
            },
        };
        match p.tool_result(local) {
            Some(c) => Ok(cap_text(c, self.max_result_chars)),
            None => Err(
                ToolError::Denied(String::from_str("MCP tool '").concat(local).concat("' not registered")),
            ),
        }
    }
}


/// Every local name under a server's namespace, in order.
pub open spec fn namespaced_all(server_id: Seq<char>, locals: Seq<Seq<char>>) -> Seq<Seq<char>> {
    locals.map_values(|l: Seq<char>| namespaced(server_id, l))
}

/// Every local name under a server's namespace.
pub fn namespace_all(server_id: &str, locals: &[String]) -> (r: Vec<String>)
    ensures
        views(r@) == namespaced_all(server_id@, views(locals@)),
{
    let mut out: Vec<String> = Vec::new();
    let mut i: usize = 0;
    while i < locals.len()
        invariant
            i <= locals@.len(),
            views(out@) == namespaced_all(server_id@, views(locals@)).take(i as int),
        decreases locals@.len() - i,
    {
        let ghost before = views(out@);
        out.push(namespaced_tool_name(server_id, locals[i].as_str()));
        assert(views(out@) =~= before.push(namespaced(server_id@, locals@[i as int]@)));
        i = i + 1;
        assert(views(out@) =~= namespaced_all(server_id@, views(locals@)).take(i as int));
    }
    assert(namespaced_all(server_id@, views(locals@)).take(i as int) =~= namespaced_all(
        server_id@,
        views(locals@),
    ));
    out
}

/// Add each name not yet in the set, in order.
fn add_names(set: &mut Vec<String>, names: &Vec<String>)
    ensures
        forall|n: Seq<char>|
            views(final(set)@).contains(n) <==> (views(old(set)@).contains(n) || views(names@).contains(n)),
{
    let mut i: usize = 0;
    while i < names.len()
        invariant
            i <= names@.len(),
            forall|n: Seq<char>|
                views(set@).contains(n) <==> (views(old(set)@).contains(n) || views(
                    names@.take(i as int),
                ).contains(n)),
        decreases names@.len() - i,
    {
        let ghost before = set@;
        if !crate::text::list_contains(set.as_slice(), names[i].as_str()) {
            set.push(names[i].clone());
        }
        proof {
            broadcast use vstd::seq_lib::lemma_seq_contains_after_push;

            let x = names@[i as int]@;
            assert(views(names@.take(i + 1)) =~= views(names@.take(i as int)).push(x));
            if set@.len() > before.len() {
                assert(views(set@) =~= views(before).push(x));
            } else {
                assert(views(set@) =~= views(before));
                assert(views(before).contains(x));
            }
        }
        i = i + 1;
    }
    assert(names@.take(i as int) =~= names@);
}

/// What the registry keeps of a health entry, as values.
pub open spec fn health_view(h: McpServerHealth) -> (
    Seq<char>,
    bool,
    bool,
    Option<Seq<char>>,
    Seq<Seq<char>>,
    Seq<Seq<char>>,
    Seq<Seq<char>>,
) {
    (
        h.server_id@,
        h.configured,
        h.connected,
        crate::text::opt_view(h.error),
        views(h.discovered_tools@),
        views(h.allowlisted_tools@),
        views(h.high_blast_tools@),
    )
}

/// The health entries of a report, as values.
pub open spec fn report_view(r: McpDoctorReport) -> Seq<
    (Seq<char>, bool, bool, Option<Seq<char>>, Seq<Seq<char>>, Seq<Seq<char>>, Seq<Seq<char>>),
> {
    r.servers@.map_values(|h: McpServerHealth| health_view(h))
}

fn copy_health(h: &McpServerHealth) -> (r: McpServerHealth)
    ensures
        health_view(r) == health_view(*h),
{
    McpServerHealth {
        server_id: h.server_id.clone(),
        configured: h.configured,
        connected: h.connected,
        error: crate::storage::records::copy_opt_string(&h.error),
        discovered_tools: crate::text::clone_strings(&h.discovered_tools),
        allowlisted_tools: crate::text::clone_strings(&h.allowlisted_tools),
        high_blast_tools: crate::text::clone_strings(&h.high_blast_tools),
    }
}

fn copy_report(r: &McpDoctorReport) -> (c: McpDoctorReport)
    ensures
        report_view(c) == report_view(*r),
{
    let mut out: Vec<McpServerHealth> = Vec::new();
    let mut i: usize = 0;
    while i < r.servers.len()
        invariant
            i <= r.servers@.len(),
            out@.len() == i,
            forall|k: int| 0 <= k < i ==> health_view(#[trigger] out@[k]) == health_view(r.servers@[k]),
        decreases r.servers@.len() - i,
    {
        out.push(copy_health(&r.servers[i]));
        i = i + 1;
    }
    let c = McpDoctorReport { servers: out };
    assert(report_view(c) =~= report_view(*r));
    c
}

/// The server ids of a list of sessions.
pub open spec fn session_ids(sessions: Seq<McpSession>) -> Seq<Seq<char>> {
    sessions.map_values(|s: McpSession| s.server_id@)
}

/// The position of the first session of this server.
pub open spec fn session_index(sessions: Seq<McpSession>, id: Seq<char>) -> Option<int>
    decreases sessions.len(),
{
    if sessions.len() == 0 {
        None
    } else {
        match session_index(sessions.drop_last(), id) {
            Some(i) => Some(i),
            None => if sessions.last().server_id@ == id {
                Some(sessions.len() - 1)
            } else {
                None
            },
        }
    }
}

proof fn lemma_session_index(sessions: Seq<McpSession>, id: Seq<char>)
    ensures
        match session_index(sessions, id) {
            Some(i) => 0 <= i < sessions.len() && sessions[i].server_id@ == id && forall|j: int|
                0 <= j < i ==> sessions[j].server_id@ != id,
            None => forall|j: int| 0 <= j < sessions.len() ==> sessions[j].server_id@ != id,
        },
    decreases sessions.len(),
{
    if sessions.len() > 0 {
        lemma_session_index(sessions.drop_last(), id);
        assert forall|j: int| 0 <= j < sessions.len() - 1 implies sessions[j] == sessions.drop_last()[j] by {}
    }
}

/// Name and description of the tools of every live session, session by session.
pub open spec fn live_listing(sessions: Seq<McpSession>) -> Seq<(Seq<char>, Seq<char>)>
    decreases sessions.len(),
{
    if sessions.len() == 0 {
        Seq::empty()
    } else {
        live_listing(sessions.drop_last()) + if live(sessions.last()) {
            session_listing(sessions.last())
        } else {
            Seq::empty()
        }
    }
}

/// The multi-server registry: sessions (one per server id), every registered name, the
/// doctor report and the policy extras.
#[derive(Debug)]
pub struct McpClientRegistry {
    pub sessions: Vec<McpSession>,
    pub names: Vec<String>,
    pub doctor: McpDoctorReport,
    pub control_plane_extra: Vec<String>,
    pub high_blast: Vec<String>,
}

/// Where an invocation stands: answered, or a `tools/call` to send through the
/// session's transport.
#[derive(Debug)]
pub enum McpInvoke {
    Done(Result<ToolResult, ToolError>),
    Send { session: usize, params: Json },
}

impl McpClientRegistry {
    /// Session ids are distinct.
    pub open spec fn wf(&self) -> bool {
        session_ids(self.sessions@).no_duplicates()
    }

    /// A registry over one scripted peer: every peer tool registered, the allowlisted
    /// and high-blast local names namespaced.
    pub fn from_mock(server_id: &str, peer: MockMcpPeer, allowlist: &[String], high_blast: &[String]) -> (r:
        Self)
        ensures
            r.wf(),
            r.sessions@.len() == 1,
            r.sessions@[0].server_id@ == server_id@,
            r.sessions@[0].peer == Some(peer),
            r.sessions@[0].connected,
            session_names(r.sessions@[0]) == namespaced_all(server_id@, keys(peer.tools@)),
            forall|n: Seq<char>|
                views(r.names@).contains(n) <==> session_names(r.sessions@[0]).contains(n),
            views(r.control_plane_extra@) == namespaced_all(server_id@, views(allowlist@)),
            views(r.high_blast@) == namespaced_all(server_id@, views(high_blast@)),
            report_view(r.doctor) == seq![
                (
                    server_id@,
                    true,
                    true,
                    None::<Seq<char>>,
                    session_names(r.sessions@[0]),
                    namespaced_all(server_id@, views(allowlist@)),
                    namespaced_all(server_id@, views(high_blast@)),
                ),
            ],
    {
        let ghost p = peer;
        let session = McpSession::over_peer(server_id, peer);
        assert(session_names(session) =~= namespaced_all(server_id@, keys(p.tools@)));
        let discovered = session.registered_names();
        let allowlisted = namespace_all(server_id, allowlist);
        let hb = namespace_all(server_id, high_blast);
        let mut names: Vec<String> = Vec::new();
        add_names(&mut names, &discovered);
        let health = McpServerHealth {
            server_id: String::from_str(server_id),
            configured: true,
            connected: true,
            error: None,
            discovered_tools: discovered,
            allowlisted_tools: crate::text::clone_strings(&allowlisted),
            high_blast_tools: crate::text::clone_strings(&hb),
        };
        let mut servers: Vec<McpServerHealth> = Vec::new();
        servers.push(health);
        let mut sessions: Vec<McpSession> = Vec::new();
        sessions.push(session);
        let r = McpClientRegistry {
            sessions,
            names,
            doctor: McpDoctorReport { servers },
            control_plane_extra: allowlisted,
            high_blast: hb,
        };
        assert(session_ids(r.sessions@) =~= seq![server_id@]);
        assert(report_view(r.doctor) =~= seq![health_view(r.doctor.servers@[0])]);
        r
    }

    /// Every registered namespaced name.
    pub fn registered_names(&self) -> (r: Vec<String>)
        ensures
            views(r@) == views(self.names@),
    {
        crate::text::clone_strings(&self.names)
    }

    /// The namespaced names on the control-plane allowlist.
    pub fn control_plane_extra_tools(&self) -> (r: Vec<String>)
        ensures
            views(r@) == views(self.control_plane_extra@),
    {
        crate::text::clone_strings(&self.control_plane_extra)
    }

    /// The namespaced high-blast names.
    pub fn high_blast_tools(&self) -> (r: Vec<String>)
        ensures
            views(r@) == views(self.high_blast@),
    {
        crate::text::clone_strings(&self.high_blast)
    }

    /// A copy of the doctor report.
    pub fn doctor_report(&self) -> (r: McpDoctorReport)
        ensures
            report_view(r) == report_view(self.doctor),
    {
        copy_report(&self.doctor)
    }

    /// Fail closed everywhere: every session is disconnected.
    pub fn shutdown(&mut self)
        ensures
            final(self).sessions@.len() == old(self).sessions@.len(),
            forall|i: int| 0 <= i < final(self).sessions@.len() ==> !live(#[trigger] final(self).sessions@[i]),
            session_ids(final(self).sessions@) == session_ids(old(self).sessions@),
            final(self).names == old(self).names,
            final(self).doctor == old(self).doctor,
            final(self).control_plane_extra == old(self).control_plane_extra,
            final(self).high_blast == old(self).high_blast,
    {
        let mut sessions: Vec<McpSession> = Vec::new();
        std::mem::swap(&mut sessions, &mut self.sessions);
        let ghost before = sessions@;
        let mut i: usize = 0;
        while i < sessions.len()
            invariant
                i <= sessions@.len(),
                sessions@.len() == before.len(),
                forall|k: int| 0 <= k < i ==> !live(#[trigger] sessions@[k]),
                forall|k: int| 0 <= k < sessions@.len() ==> (#[trigger] sessions@[k]).server_id == before[k].server_id,
            decreases sessions@.len() - i,
        {
            let mut s = sessions.remove(i);
            s.disconnect();
            sessions.insert(i, s);
            i = i + 1;
        }
        self.sessions = sessions;
        assert(session_ids(self.sessions@) =~= session_ids(before));
    }
}

/// A health entry as values: id, configured, connected, error and the three name lists.
pub type HealthView = (
    Seq<char>,
    bool,
    bool,
    Option<Seq<char>>,
    Seq<Seq<char>>,
    Seq<Seq<char>>,
    Seq<Seq<char>>,
);

/// A health entry after its server was disconnected, when it is that server's.
pub open spec fn marked_disconnected(h: HealthView, server_id: Seq<char>) -> HealthView {
    if h.0 == server_id {
        (h.0, h.1, false, Some("disconnected"@), h.4, h.5, h.6)
    } else {
        h
    }
}

/// Where a registry call goes: the session index and local name, or why it is refused
/// before any server sees it (`true` for a denial, `false` for a failure).
pub open spec fn route_result(sessions: Seq<McpSession>, name: Seq<char>) -> Result<
    (int, Seq<char>),
    (bool, Seq<char>),
> {
    match crate::tools::mcp::protocol::parse_namespaced(name) {
        None => Err((true, "not an MCP namespaced tool '"@ + name + "'"@)),
        Some((sid, local)) => match session_index(sessions, sid) {
            None => Err(
                (true, "MCP server '"@ + sid + "' not registered for tool '"@ + name + "'"@),
            ),
            Some(i) => if !live(sessions[i]) {
                Err((false, "MCP server '"@ + sid + "' disconnected (fail closed)"@))
            } else if !knows(sessions[i], local) {
                Err(
                    (true, "MCP tool '"@ + name + "' not registered on server '"@ + sid + "'"@),
                )
            } else {
                Ok((i, local))
            },
        },
    }
}

/// What disconnecting a server leaves: the same sessions, those of the server no
/// longer live, the others unchanged.
pub open spec fn disconnected(before: Seq<McpSession>, after: Seq<McpSession>, server_id: Seq<char>) -> bool {
    &&& after.len() == before.len()
    &&& session_ids(after) == session_ids(before)
    &&& forall|i: int|
        0 <= i < after.len() ==> if before[i].server_id@ == server_id {
            !live(#[trigger] after[i])
        } else {
            after[i] == before[i]
        }
}

/// Once a registered server is disconnected, a call to any tool named under it fails
/// closed, naming the server, before anything is sent.
pub proof fn lemma_disconnect_fails_closed(
    before: Seq<McpSession>,
    after: Seq<McpSession>,
    server_id: Seq<char>,
    name: Seq<char>,
)
    requires
        disconnected(before, after, server_id),
        session_index(before, server_id) is Some,
        crate::tools::mcp::protocol::parse_namespaced(name) matches Some((sid, _)) && sid == server_id,
    ensures
        route_result(after, name) == Err::<(int, Seq<char>), (bool, Seq<char>)>(
            (false, "MCP server '"@ + server_id + "' disconnected (fail closed)"@),
        ),
{
    lemma_session_index(before, server_id);
    lemma_session_index(after, server_id);
    assert forall|j: int| 0 <= j < after.len() implies after[j].server_id@ == before[j].server_id@ by {
        assert(session_ids(after)[j] == session_ids(before)[j]);
    }
    let i = session_index(before, server_id)->Some_0;
    match session_index(after, server_id) {
        Some(k) => {
            if k < i {
                assert(before[k].server_id@ == server_id);
            } else if k > i {
                assert(after[i].server_id@ == server_id);
            }
            assert(k == i);
        },
        None => {
            assert(after[i].server_id@ == server_id);
        },
    }
}

/// The error of a refusal: a denial or a failure with this message.
pub open spec fn refusal(e: ToolError, denied: bool, m: Seq<char>) -> bool {
    if denied {
        e matches ToolError::Denied(x) && x@ == m
    } else {
        e matches ToolError::Failed(x) && x@ == m
    }
}

/// The answer of a registry call: the content and the `mcp_client` summary.
pub open spec fn tool_answer(name: Seq<char>, r: Result<Seq<char>, Seq<char>>, denied: bool, out: Result<ToolResult, ToolError>) -> bool {
    match r {
        Ok(t) => out matches Ok(res) && res.content@ == t && res.summary@ == "mcp_client tool="@ + name,
        Err(m) => out matches Err(e) && refusal(e, denied, m),
    }
}

fn find_session(sessions: &Vec<McpSession>, id: &str) -> (r: Option<usize>)
    ensures
        match r {
            Some(i) => session_index(sessions@, id@) == Some(i as int),
            None => session_index(sessions@, id@) is None,
        },
{
    proof {
        lemma_session_index(sessions@, id@);
    }
    let mut i: usize = 0;
    while i < sessions.len()
        invariant
            i <= sessions@.len(),
            forall|j: int| 0 <= j < i ==> sessions@[j].server_id@ != id@,
        decreases sessions@.len() - i,
    {
        if crate::text::str_eq(sessions[i].server_id.as_str(), id) {
            proof {
                lemma_session_index(sessions@, id@);
                if let Some(k) = session_index(sessions@, id@) {
                    if k > i {
                        assert(sessions@[i as int].server_id@ != id@);
                    }
                }
            }
            return Some(i);
        }
        i = i + 1;
    }
    None
}

impl McpClientRegistry {
    /// Disconnect one server (fail closed) and mark it so in the doctor report.
    pub fn disconnect_server(&mut self, server_id: &str)
        ensures
            final(self).sessions@.len() == old(self).sessions@.len(),
            session_ids(final(self).sessions@) == session_ids(old(self).sessions@),
            forall|i: int|
                0 <= i < final(self).sessions@.len() ==> if old(self).sessions@[i].server_id@
                    == server_id@ {
                    !live(#[trigger] final(self).sessions@[i])
                } else {
                    final(self).sessions@[i] == old(self).sessions@[i]
                },
            report_view(final(self).doctor) == report_view(old(self).doctor).map_values(
                |h: HealthView| marked_disconnected(h, server_id@),
            ),
            final(self).names == old(self).names,
            final(self).control_plane_extra == old(self).control_plane_extra,
            final(self).high_blast == old(self).high_blast,
    {
        let mut sessions: Vec<McpSession> = Vec::new();
        std::mem::swap(&mut sessions, &mut self.sessions);
        let ghost before = sessions@;
        let mut i: usize = 0;
        while i < sessions.len()
            invariant
                i <= sessions@.len(),
                sessions@.len() == before.len(),
                forall|k: int| 0 <= k < sessions@.len() ==> (#[trigger] sessions@[k]).server_id == before[k].server_id,
                forall|k: int|
                    0 <= k < sessions@.len() ==> if k < i && before[k].server_id@ == server_id@ {
                        !live(#[trigger] sessions@[k])
                    } else {
                        sessions@[k] == before[k]
                    },
            decreases sessions@.len() - i,
        {
            if crate::text::str_eq(sessions[i].server_id.as_str(), server_id) {
                let mut s = sessions.remove(i);
                s.disconnect();
                sessions.insert(i, s);
            }
            i = i + 1;
        }
        self.sessions = sessions;
        assert(session_ids(self.sessions@) =~= session_ids(before));
        let mut servers: Vec<McpServerHealth> = Vec::new();
        std::mem::swap(&mut servers, &mut self.doctor.servers);
        let ghost hs = servers@;
        let mut j: usize = 0;
        while j < servers.len()
            invariant
                j <= servers@.len(),
                servers@.len() == hs.len(),
                forall|k: int|
                    0 <= k < servers@.len() ==> health_view(#[trigger] servers@[k]) == if k < j
                        && hs[k].server_id@ == server_id@ {
                        (
                            hs[k].server_id@,
                            hs[k].configured,
                            false,
                            Some("disconnected"@),
                            views(hs[k].discovered_tools@),
                            views(hs[k].allowlisted_tools@),
                            views(hs[k].high_blast_tools@),
                        )
                    } else {
                        health_view(hs[k])
                    },
            decreases servers@.len() - j,
        {
            if crate::text::str_eq(servers[j].server_id.as_str(), server_id) {
                let mut h = servers.remove(j);
                h.connected = false;
                h.error = Some(String::from_str("disconnected"));
                servers.insert(j, h);
            }
            j = j + 1;
        }
        self.doctor.servers = servers;
        assert(report_view(self.doctor) =~= hs.map_values(|h: McpServerHealth| health_view(h)).map_values(
            |h: HealthView| marked_disconnected(h, server_id@),
        ));
    }

    /// Where a call goes, or why it is refused before any server sees it.
    pub fn route(&self, name: &str) -> (r: Result<(usize, String), ToolError>)
        ensures
            match route_result(self.sessions@, name@) {
                Ok((i, local)) => r matches Ok((j, l)) && j == i && l@ == local,
                Err((denied, m)) => r matches Err(e) && refusal(e, denied, m),
            },
    {
        let (sid, local) = match crate::tools::mcp::protocol::parse_namespaced_tool(name) {
            Some(p) => p,
            None => {
                return Err(
                    ToolError::Denied(
                        String::from_str("not an MCP namespaced tool '").concat(name).concat("'"),
                    ),
                );
            },
        };
        let i = match find_session(&self.sessions, sid) {
            Some(i) => i,
            None => {
                return Err(
                    ToolError::Denied(
                        String::from_str("MCP server '").concat(sid).concat(
                            "' not registered for tool '",
                        ).concat(name).concat("'"),
                    ),
                );
            },
        };
        proof {
            lemma_session_index(self.sessions@, sid@);
        }
        let session = &self.sessions[i];
        if !session.is_connected() {
            return Err(
                ToolError::Failed(
                    String::from_str("MCP server '").concat(sid).concat(
                        "' disconnected (fail closed)",
                    ),
                ),
            );
        }
        if !session.knows_tool(local) {
            return Err(
                ToolError::Denied(
                    String::from_str("MCP tool '").concat(name).concat(
                        "' not registered on server '",
                    ).concat(sid).concat("'"),
                ),
            );
        }
        Ok((i, String::from_str(local)))
    }

    /// Invoke a namespaced tool: refused, answered by an in-process peer, or a
    /// `tools/call` to send through the session's transport.
    pub fn invoke(&self, call: &ToolCall) -> (r: McpInvoke)
        ensures
            match route_result(self.sessions@, call.name@) {
                Err((denied, m)) => r matches McpInvoke::Done(Err(e)) && refusal(e, denied, m),
                Ok((i, local)) => match self.sessions@[i].peer {
                    Some(p) => r matches McpInvoke::Done(out) && tool_answer(
                        call.name@,
                        peer_answer(p, local, self.sessions@[i].max_result_chars as nat),
                        true,
                        out,
                    ),
                    None => r matches McpInvoke::Send { session, params } && session == i
                        && crate::json::size(params) == 2 && (crate::json::member(params, 0, "name"@) matches Some(n)
                        && crate::json::is_text(n, local)) && (crate::json::member(
                        params,
                        1,
                        "arguments"@,
                    ) matches Some(a) && same(call.arguments, a)),
                },
            },
    {
        let (i, local) = match self.route(call.name.as_str()) {
            Ok(x) => x,
            Err(e) => {
                return McpInvoke::Done(Err(e));
            },
        };
        proof {
            if let Some((sid, _)) = crate::tools::mcp::protocol::parse_namespaced(call.name@) {
                lemma_session_index(self.sessions@, sid);
            }
        }
        let session = &self.sessions[i];
        if session.peer.is_some() {
            let out = match session.call_peer(local.as_str()) {
                Ok(content) => Ok(
                    ToolResult {
                        content,
                        summary: String::from_str("mcp_client tool=").concat(call.name.as_str()),
                    },
                ),
                Err(e) => Err(e),
            };
            McpInvoke::Done(out)
        } else {
            let args = copy_json(&call.arguments);
            match session.call_request(local.as_str(), args) {
                Ok(params) => McpInvoke::Send { session: i, params },
                Err(e) => McpInvoke::Done(Err(e)),
            }
        }
    }

    /// The answer of a call sent through a session's transport, from what came back
    /// (parsed, or why it did not parse).
    pub fn finish_invoke(&self, name: &str, session: usize, parsed: Result<ToolsCallResult, String>) -> (r: Result<ToolResult, ToolError>)
        requires
            session < self.sessions@.len(),
        ensures
            tool_answer(
                name@,
                call_outcome(
                    self.sessions@[session as int].server_id@,
                    parsed,
                    self.sessions@[session as int].max_result_chars as nat,
                ),
                false,
                r,
            ),
    {
        match self.sessions[session].finish_call(parsed) {
            Ok(content) => Ok(
                ToolResult {
                    content,
                    summary: String::from_str("mcp_client tool=").concat(name),
                },
            ),
            Err(e) => Err(e),
        }
    }

    /// The tools of every live session.
    pub fn catalog(&self) -> (r: Vec<ToolSpec>)
        ensures
            crate::domain::listing(r@) == live_listing(self.sessions@),
    {
        let mut out: Vec<ToolSpec> = Vec::new();
        let mut i: usize = 0;
        assert(self.sessions@.take(0) =~= Seq::<McpSession>::empty());
        while i < self.sessions.len()
            invariant
                i <= self.sessions@.len(),
                crate::domain::listing(out@) == live_listing(self.sessions@.take(i as int)),
            decreases self.sessions@.len() - i,
        {
            let ghost before = crate::domain::listing(out@);
            assert(self.sessions@.take(i + 1).drop_last() =~= self.sessions@.take(i as int));
            if self.sessions[i].is_connected() {
                let mut c = self.sessions[i].catalog();
                let ghost added = crate::domain::listing(c@);
                out.append(&mut c);
                assert(crate::domain::listing(out@) =~= before + added);
            }
            i = i + 1;
        }
        assert(self.sessions@.take(i as int) =~= self.sessions@);
        out
    }
}

/// What composing the configured servers produced: the registry (when some server
/// connected), the policy extras, the high-blast names and the doctor report.
#[derive(Debug)]
pub struct McpRuntimeBundle {
    pub runtime: Option<McpClientRegistry>,
    pub control_plane_extra: Vec<String>,
    pub high_blast: Vec<String>,
    pub doctor: McpDoctorReport,
}

/// Server `k` is enabled and its connection succeeded.
pub open spec fn connected_at(
    servers: Seq<McpServerConfig>,
    conns: Seq<Option<Result<McpSession, String>>>,
    k: int,
) -> bool {
    servers[k].enabled && conns[k] matches Some(Ok(_))
}

/// The health entry composing gives a server, from its config and connection outcome.
pub open spec fn health_for(
    cfg: McpServerConfig,
    conn: Option<Result<McpSession, String>>,
    h: HealthView,
) -> bool {
    let id = cfg.server_id@;
    let allow = namespaced_all(id, views(cfg.policy_allowlist@));
    let hb = namespaced_all(id, views(cfg.high_blast@));
    if !cfg.enabled {
        h == (id, true, false, Some("disabled"@), Seq::<Seq<char>>::empty(), Seq::<Seq<char>>::empty(), Seq::<Seq<char>>::empty())
    } else {
        match conn {
            Some(Ok(s)) => h == (id, true, true, None::<Seq<char>>, session_names(s), allow, hb),
            Some(Err(e)) => h == (id, true, false, Some(e@), Seq::<Seq<char>>::empty(), allow, hb),
            None => false,
        }
    }
}

/// The namespaced allowlists of the enabled servers, in order.
pub open spec fn extras_of(servers: Seq<McpServerConfig>) -> Seq<Seq<char>>
    decreases servers.len(),
{
    if servers.len() == 0 {
        Seq::empty()
    } else {
        extras_of(servers.drop_last()) + if servers.last().enabled {
            namespaced_all(servers.last().server_id@, views(servers.last().policy_allowlist@))
        } else {
            Seq::empty()
        }
    }
}

/// The namespaced high-blast names of the enabled servers, in order.
pub open spec fn blasts_of(servers: Seq<McpServerConfig>) -> Seq<Seq<char>>
    decreases servers.len(),
{
    if servers.len() == 0 {
        Seq::empty()
    } else {
        blasts_of(servers.drop_last()) + if servers.last().enabled {
            namespaced_all(servers.last().server_id@, views(servers.last().high_blast@))
        } else {
            Seq::empty()
        }
    }
}

/// The names a server registers: its session's, when it connected.
pub open spec fn names_at(
    servers: Seq<McpServerConfig>,
    conns: Seq<Option<Result<McpSession, String>>>,
    k: int,
) -> Seq<Seq<char>> {
    if connected_at(servers, conns, k) {
        session_names(conns[k]->Some_0->Ok_0)
    } else {
        Seq::empty()
    }
}

/// Store a session, replacing one of the same server.
fn put_session(sessions: &mut Vec<McpSession>, s: McpSession)
    requires
        session_ids(old(sessions)@).no_duplicates(),
    ensures
        session_ids(final(sessions)@).no_duplicates(),
        session_ids(final(sessions)@).contains(s.server_id@),
        final(sessions)@.contains(s),
        forall|j: int|
            0 <= j < final(sessions)@.len() ==> (#[trigger] final(sessions)@[j] == s || old(sessions)@.contains(final(sessions)@[j])),
        forall|j: int|
            0 <= j < old(sessions)@.len() && old(sessions)@[j].server_id@ != s.server_id@
                ==> final(sessions)@.contains(#[trigger] old(sessions)@[j]),
        final(sessions)@.len() > 0,
{
    let ghost before = sessions@;
    match find_session(sessions, s.server_id.as_str()) {
        Some(i) => {
            proof {
                lemma_session_index(before, s.server_id@);
            }
            sessions.set(i, s);
            proof {
                assert(session_ids(sessions@) =~= session_ids(before));
                assert(session_ids(sessions@)[i as int] == s.server_id@);
                assert(sessions@[i as int] == s);
                assert forall|j: int|
                    0 <= j < before.len() && before[j].server_id@ != s.server_id@ implies sessions@.contains(
                    #[trigger] before[j],
                ) by {
                    assert(j != i);
                    assert(sessions@[j] == before[j]);
                }
                assert forall|j: int| 0 <= j < sessions@.len() implies (#[trigger] sessions@[j] == s
                    || before.contains(sessions@[j])) by {
                    if j != i {
                        assert(sessions@[j] == before[j]);
                    }
                }
            }
        },
        None => {
            proof {
                lemma_session_index(before, s.server_id@);
            }
            sessions.push(s);
            proof {
                assert(session_ids(sessions@) =~= session_ids(before).push(s.server_id@));
                assert(session_ids(sessions@)[before.len() as int] == s.server_id@);
                assert(sessions@[before.len() as int] == s);
                assert forall|a: int, b: int|
                    0 <= a < b < session_ids(sessions@).len() implies session_ids(sessions@)[a]
                    != session_ids(sessions@)[b] by {
                    if b == before.len() {
                        assert(session_ids(sessions@)[a] == before[a].server_id@);
                    } else {
                        assert(session_ids(sessions@)[a] == session_ids(before)[a]);
                        assert(session_ids(sessions@)[b] == session_ids(before)[b]);
                    }
                }
                assert forall|j: int|
                    0 <= j < before.len() && before[j].server_id@ != s.server_id@ implies sessions@.contains(
                    #[trigger] before[j],
                ) by {
                    assert(sessions@[j] == before[j]);
                }
                assert forall|j: int| 0 <= j < sessions@.len() implies (#[trigger] sessions@[j] == s
                    || before.contains(sessions@[j])) by {
                    if j < before.len() {
                        assert(sessions@[j] == before[j]);
                    }
                }
            }
        },
    }
}

fn copy_strings_into(dst: &mut Vec<String>, src: &Vec<String>)
    ensures
        views(final(dst)@) == views(old(dst)@) + views(src@),
{
    let mut c = crate::text::clone_strings(src);
    let ghost before = views(dst@);
    let ghost added = views(c@);
    dst.append(&mut c);
    assert(views(dst@) =~= before + added);
}

/// Compose the configured servers with the outcome of connecting each enabled one
/// (`None` for a disabled server): a health entry per server, the policy extras and
/// high-blast names of the enabled servers, and a registry of the sessions that
/// connected (none when no server did). A server that failed contributes no tool.
pub fn build_bundle(config: &McpConfig, connections: Vec<Option<Result<McpSession, String>>>) -> (r:
    McpRuntimeBundle)
    requires
        connections@.len() == config.servers@.len(),
        forall|k: int|
            0 <= k < config.servers@.len() ==> ((#[trigger] config.servers@[k]).enabled <==> connections@[k] is Some),
        forall|k: int|
            0 <= k < config.servers@.len() && connected_at(config.servers@, connections@, k)
                ==> (#[trigger] connections@[k])->Some_0->Ok_0.server_id@ == config.servers@[k].server_id@,
    ensures
        report_view(r.doctor).len() == config.servers@.len(),
        forall|k: int|
            0 <= k < config.servers@.len() ==> health_for(
                #[trigger] config.servers@[k],
                connections@[k],
                report_view(r.doctor)[k],
            ),
        views(r.control_plane_extra@) == extras_of(config.servers@),
        views(r.high_blast@) == blasts_of(config.servers@),
        r.runtime is Some <==> exists|k: int|
            0 <= k < config.servers@.len() && connected_at(config.servers@, connections@, k),
        r.runtime matches Some(reg) ==> {
            &&& reg.wf()
            &&& views(reg.control_plane_extra@) == extras_of(config.servers@)
            &&& views(reg.high_blast@) == blasts_of(config.servers@)
            &&& report_view(reg.doctor) == report_view(r.doctor)
            &&& forall|k: int|
                0 <= k < config.servers@.len() && connected_at(config.servers@, connections@, k)
                    ==> session_ids(reg.sessions@).contains(config.servers@[k].server_id@)
            &&& forall|j: int|
                0 <= j < reg.sessions@.len() ==> exists|k: int|
                    0 <= k < config.servers@.len() && connected_at(config.servers@, connections@, k)
                        && connections@[k] == Some(Ok::<McpSession, String>(#[trigger] reg.sessions@[j]))
            &&& forall|n: Seq<char>|
                views(reg.names@).contains(n) <==> exists|k: int|
                    0 <= k < config.servers@.len() && #[trigger] names_at(config.servers@, connections@, k).contains(n)
        },
{
    let ghost conns = connections@;
    let ghost servers_cfg = config.servers@;
    let mut pending = connections;
    let mut sessions: Vec<McpSession> = Vec::new();
    let mut names: Vec<String> = Vec::new();
    let mut extra: Vec<String> = Vec::new();
    let mut blast: Vec<String> = Vec::new();
    let mut servers: Vec<McpServerHealth> = Vec::new();
    let mut i: usize = 0;
    assert(servers_cfg.take(0) =~= Seq::<McpServerConfig>::empty());
    while i < config.servers.len()
        invariant
            i <= servers_cfg.len(),
            servers_cfg == config.servers@,
            conns.len() == servers_cfg.len(),
            pending@ == conns.skip(i as int),
            forall|k: int| 0 <= k < servers_cfg.len() ==> ((#[trigger] servers_cfg[k]).enabled <==> conns[k] is Some),
            forall|k: int|
                0 <= k < servers_cfg.len() && connected_at(servers_cfg, conns, k)
                    ==> (#[trigger] conns[k])->Some_0->Ok_0.server_id@ == servers_cfg[k].server_id@,
            servers@.len() == i,
            forall|k: int| 0 <= k < i ==> health_for(servers_cfg[k], conns[k], health_view(#[trigger] servers@[k])),
            views(extra@) == extras_of(servers_cfg.take(i as int)),
            views(blast@) == blasts_of(servers_cfg.take(i as int)),
            session_ids(sessions@).no_duplicates(),
            (sessions@.len() > 0) <==> exists|k: int| 0 <= k < i && connected_at(servers_cfg, conns, k),
            forall|k: int|
                0 <= k < i && connected_at(servers_cfg, conns, k) ==> session_ids(sessions@).contains(
                    #[trigger] servers_cfg[k].server_id@,
                ),
            forall|j: int|
                0 <= j < sessions@.len() ==> exists|k: int|
                    0 <= k < i && connected_at(servers_cfg, conns, k) && conns[k] == Some(
                        Ok::<McpSession, String>(#[trigger] sessions@[j]),
                    ),
            forall|n: Seq<char>|
                views(names@).contains(n) <==> exists|k: int|
                    0 <= k < i && #[trigger] names_at(servers_cfg, conns, k).contains(n),
        decreases servers_cfg.len() - i,
    {
        let ghost old_sessions = sessions@;
        let ghost old_names = views(names@);
        let cfg = &config.servers[i];
        assert(servers_cfg.take(i + 1).drop_last() =~= servers_cfg.take(i as int));
        assert(servers_cfg.take(i + 1).last() == *cfg);
        assert(conns.skip(i as int).len() > 0);
        assert(pending@[0] == conns[i as int]);
        let conn = pending.remove(0);
        assert(pending@ =~= conns.skip(i + 1));
        if !cfg.enabled {
            servers.push(
                McpServerHealth {
                    server_id: cfg.server_id.clone(),
                    configured: true,
                    connected: false,
                    error: Some(String::from_str("disabled")),
                    discovered_tools: Vec::new(),
                    allowlisted_tools: Vec::new(),
                    high_blast_tools: Vec::new(),
                },
            );
            proof {
                assert(views(Seq::<String>::empty()) =~= Seq::<Seq<char>>::empty());
                assert(!connected_at(servers_cfg, conns, i as int));
                assert(names_at(servers_cfg, conns, i as int) =~= Seq::<Seq<char>>::empty());
            }
        } else {
            let allowlisted = namespace_all(cfg.server_id.as_str(), cfg.policy_allowlist.as_slice());
            let hb = namespace_all(cfg.server_id.as_str(), cfg.high_blast.as_slice());
            copy_strings_into(&mut extra, &allowlisted);
            copy_strings_into(&mut blast, &hb);
            match conn {
                Some(Ok(session)) => {
                    let discovered = session.registered_names();
                    add_names(&mut names, &discovered);
                    servers.push(
                        McpServerHealth {
                            server_id: cfg.server_id.clone(),
                            configured: true,
                            connected: true,
                            error: None,
                            discovered_tools: discovered,
                            allowlisted_tools: allowlisted,
                            high_blast_tools: hb,
                        },
                    );
                    let ghost s = session;
                    put_session(&mut sessions, session);
                    proof {
                        assert(connected_at(servers_cfg, conns, i as int));
                        assert(names_at(servers_cfg, conns, i as int) == session_names(s));
                    }
                },
                Some(Err(err)) => {
                    servers.push(
                        McpServerHealth {
                            server_id: cfg.server_id.clone(),
                            configured: true,
                            connected: false,
                            error: Some(err),
                            discovered_tools: Vec::new(),
                            allowlisted_tools: allowlisted,
                            high_blast_tools: hb,
                        },
                    );
                    proof {
                        assert(views(Seq::<String>::empty()) =~= Seq::<Seq<char>>::empty());
                        assert(!connected_at(servers_cfg, conns, i as int));
                        assert(names_at(servers_cfg, conns, i as int) =~= Seq::<Seq<char>>::empty());
                    }
                },
                None => {
                    proof {
                        assert(false);
                    }
                },
            }
        }
        proof {
            assert forall|n: Seq<char>|
                views(names@).contains(n) <==> exists|k: int|
                    0 <= k < i + 1 && #[trigger] names_at(servers_cfg, conns, k).contains(n) by {
                if views(names@).contains(n) && !old_names.contains(n) {
                    assert(names_at(servers_cfg, conns, i as int).contains(n));
                }
                if exists|k: int| 0 <= k < i + 1 && #[trigger] names_at(servers_cfg, conns, k).contains(n) {
                    let k = choose|k: int| 0 <= k < i + 1 && #[trigger] names_at(servers_cfg, conns, k).contains(n);
                    if k < i {
                        assert(old_names.contains(n));
                    }
                }
            }
            assert forall|j: int|
                0 <= j < sessions@.len() implies exists|k: int|
                    0 <= k < i + 1 && connected_at(servers_cfg, conns, k) && conns[k] == Some(
                        Ok::<McpSession, String>(#[trigger] sessions@[j]),
                    ) by {
                if old_sessions.contains(sessions@[j]) {
                    let jj = choose|jj: int| 0 <= jj < old_sessions.len() && old_sessions[jj] == sessions@[j];
                    assert(exists|k: int|
                        0 <= k < i && connected_at(servers_cfg, conns, k) && conns[k] == Some(
                            Ok::<McpSession, String>(#[trigger] old_sessions[jj]),
                        ));
                } else {
                    assert(connected_at(servers_cfg, conns, i as int));
                }
            }
            assert forall|k: int|
                0 <= k < i + 1 && connected_at(servers_cfg, conns, k) implies session_ids(sessions@).contains(
                #[trigger] servers_cfg[k].server_id@,
            ) by {
                if k < i && sessions@.len() > 0 {
                    let id = servers_cfg[k].server_id@;
                    assert(session_ids(old_sessions).contains(id));
                    let jj = choose|jj: int| 0 <= jj < session_ids(old_sessions).len() && session_ids(old_sessions)[jj] == id;
                    if connected_at(servers_cfg, conns, i as int) && conns[i as int]->Some_0->Ok_0.server_id@ == id {
                    } else {
                        assert(old_sessions[jj].server_id@ == id);
                        assert(sessions@.contains(old_sessions[jj]));
                        let m = choose|m: int| 0 <= m < sessions@.len() && sessions@[m] == old_sessions[jj];
                        assert(session_ids(sessions@)[m] == id);
                    }
                }
            }
        }
        i = i + 1;
    }
    assert(servers_cfg.take(i as int) =~= servers_cfg);
    let doctor = McpDoctorReport { servers };
    let runtime = if sessions.len() == 0 {
        None
    } else {
        Some(
            McpClientRegistry {
                sessions,
                names,
                doctor: copy_report(&doctor),
                control_plane_extra: crate::text::clone_strings(&extra),
                high_blast: crate::text::clone_strings(&blast),
            },
        )
    };
    McpRuntimeBundle { runtime, control_plane_extra: extra, high_blast: blast, doctor }
}

/// The registry over one scripted peer that tests and Seam-1 wiring use.
pub fn mock_registry_from_peer(
    server_id: &str,
    peer: MockMcpPeer,
    policy_allowlist_local: &[String],
    high_blast_local: &[String],
) -> (r: McpClientRegistry)
    ensures
        r.wf(),
        r.sessions@.len() == 1,
        r.sessions@[0].server_id@ == server_id@,
        r.sessions@[0].peer == Some(peer),
        session_names(r.sessions@[0]) == namespaced_all(server_id@, keys(peer.tools@)),
        views(r.control_plane_extra@) == namespaced_all(server_id@, views(policy_allowlist_local@)),
        views(r.high_blast@) == namespaced_all(server_id@, views(high_blast_local@)),
{
    McpClientRegistry::from_mock(server_id, peer, policy_allowlist_local, high_blast_local)
}

/// How a scripted peer answers a JSON-RPC request: `initialize` with its server info,
/// `tools/list` with its tools, `tools/call` with the tool's result as one text block;
/// a request to a gone peer fails closed.
pub open spec fn mock_answer_ok(peer: MockMcpPeer, method: Seq<char>, params: Option<Json>, r: Json) -> bool {
    if method == "initialize"@ {
        crate::json::get(r, "protocolVersion"@) matches Some(v) && crate::json::is_text(
            v,
            crate::tools::mcp::protocol::PROTOCOL_VERSION@,
        )
    } else if method == "tools/list"@ {
        crate::json::get(r, "tools"@) matches Some(Json::Array(ts)) && ts@.len() == peer.tools@.len()
            && forall|i: int|
            0 <= i < ts@.len() ==> (crate::json::get(#[trigger] ts@[i], "name"@) matches Some(n)
                && crate::json::is_text(n, peer.tools@[i].0@))
    } else {
        &&& method == "tools/call"@
        &&& single_text_block(r) is Some
        &&& single_text_block(r) == call_answer_text(peer, params)
        &&& crate::json::get(r, "isError"@) == Some(Json::Bool(false))
    }
}

/// The result text a scripted peer has for the tool a `tools/call` names.
pub open spec fn call_answer_text(peer: MockMcpPeer, params: Option<Json>) -> Option<Seq<char>> {
    match params {
        Some(p) => match crate::json::get_str(p, "name"@) {
            Some(l) => match assoc(peer.tools@, l) {
                Some(c) => Some(c@),
                None => None,
            },
            None => None,
        },
        None => None,
    }
}

/// The text of a result whose content is exactly one text block.
pub open spec fn single_text_block(r: Json) -> Option<Seq<char>> {
    match crate::json::get(r, "content"@) {
        Some(Json::Array(bs)) => if bs@.len() == 1 {
            crate::json::get_str(bs@[0], "text"@)
        } else {
            None
        },
        _ => None,
    }
}

fn obj2(k1: &str, v1: Json, k2: &str, v2: Json) -> (r: Json)
    ensures
        r matches Json::Object(m) && m@.len() == 2 && m@[0].0@ == k1@ && m@[0].1 == v1 && m@[1].0@
            == k2@ && m@[1].1 == v2,
{
    let mut m: Vec<(String, Json)> = Vec::new();
    m.push((String::from_str(k1), v1));
    m.push((String::from_str(k2), v2));
    Json::Object(m)
}

fn obj3(k1: &str, v1: Json, k2: &str, v2: Json, k3: &str, v3: Json) -> (r: Json)
    ensures
        r matches Json::Object(m) && m@.len() == 3 && m@[0].0@ == k1@ && m@[0].1 == v1 && m@[1].0@
            == k2@ && m@[1].1 == v2 && m@[2].0@ == k3@ && m@[2].1 == v3,
{
    let mut m: Vec<(String, Json)> = Vec::new();
    m.push((String::from_str(k1), v1));
    m.push((String::from_str(k2), v2));
    m.push((String::from_str(k3), v3));
    Json::Object(m)
}

/// A scripted peer answering one request over a transport that is `connected`.
pub fn mock_request(peer: &MockMcpPeer, connected: bool, method: &str, params: Option<&Json>) -> (r:
    Result<Json, ToolError>)
    ensures
        !connected || peer.disconnected ==> (r matches Err(ToolError::Failed(m)) && m@
            == "MCP client disconnect: fail closed for in-flight invocation"@),
        r matches Ok(j) ==> mock_answer_ok(*peer, method@, match params {
            Some(p) => Some(*p),
            None => None,
        }, j),
        connected && !peer.disconnected && method@ == "tools/call"@ ==> match params {
            Some(p) => match crate::json::get_str(*p, "name"@) {
                Some(l) => match assoc(peer.tools@, l) {
                    Some(_) => r is Ok,
                    None => r matches Err(ToolError::Denied(m)) && m@ == "MCP tool '"@ + l
                        + "' not registered"@,
                },
                None => r matches Err(ToolError::Failed(m)) && m@ == "tools/call missing name"@,
            },
            None => r matches Err(ToolError::Failed(m)) && m@ == "tools/call missing name"@,
        },
        connected && !peer.disconnected && method@ != "initialize"@ && method@ != "tools/list"@
            && method@ != "tools/call"@ ==> (r matches Err(ToolError::Failed(m)) && m@
            == "mock MCP: unsupported method '"@ + method@ + "'"@),
        connected && !peer.disconnected && (method@ == "initialize"@ || method@ == "tools/list"@) ==> r is Ok,
{
    proof {
        reveal_strlit("initialize");
        reveal_strlit("tools/list");
        reveal_strlit("tools/call");
        assert("initialize"@[0] != "tools/list"@[0]);
        assert("initialize"@[0] != "tools/call"@[0]);
        assert("tools/list"@[6] != "tools/call"@[6]);
    }
    if !connected || peer.is_disconnected() {
        return Err(
            ToolError::Failed(
                String::from_str("MCP client disconnect: fail closed for in-flight invocation"),
            ),
        );
    }
    if crate::text::str_eq(method, "initialize") {
        let mut cm: Vec<(String, Json)> = Vec::new();
        cm.push((String::from_str("tools"), crate::json::empty_object()));
        let info = obj2("name", crate::json::text("mock"), "version", crate::json::text("0"));
        let r = obj3(
            "protocolVersion",
            crate::json::text(crate::tools::mcp::protocol::PROTOCOL_VERSION),
            "capabilities",
            Json::Object(cm),
            "serverInfo",
            info,
        );
        proof {
            let m = r->Object_0@;
            assert(crate::json::lookup(m, "protocolVersion"@) == Some(m[0].1));
        }
        Ok(r)
    } else if crate::text::str_eq(method, "tools/list") {
        let listed = peer.local_tools();
        let mut tools: Vec<Json> = Vec::new();
        let mut i: usize = 0;
        let mut rest = listed;
        let ghost all = rest@;
        let n = rest.len();
        assert(all.len() == n);
        while rest.len() > 0
            invariant
                i <= all.len(),
                all.len() == peer.tools@.len(),
                all.len() <= usize::MAX,
                rest@ == all.skip(i as int),
                forall|k: int| 0 <= k < all.len() ==> (#[trigger] all[k]).0@ == peer.tools@[k].0@,
                tools@.len() == i,
                forall|k: int|
                    0 <= k < i ==> (crate::json::get(#[trigger] tools@[k], "name"@) matches Some(n)
                        && crate::json::is_text(n, peer.tools@[k].0@)),
            decreases rest@.len(),
        {
            assert(all.skip(i as int).len() == all.len() - i);
            assert(rest@[0] == all[i as int]);
            let (name, desc, schema) = rest.remove(0);
            assert(rest@ =~= all.skip(i + 1));
            let t = obj3(
                "name",
                Json::Str(name),
                "description",
                Json::Str(desc),
                "inputSchema",
                schema,
            );
            proof {
                let m = t->Object_0@;
                assert(crate::json::lookup(m, "name"@) == Some(m[0].1));
            }
            tools.push(t);
            i = i + 1;
        }
        let mut m: Vec<(String, Json)> = Vec::new();
        m.push((String::from_str("tools"), Json::Array(tools)));
        let r = Json::Object(m);
        proof {
            assert(all.skip(i as int).len() == 0);
            let mm = r->Object_0@;
            assert(crate::json::lookup(mm, "tools"@) == Some(mm[0].1));
        }
        Ok(r)
    } else if crate::text::str_eq(method, "tools/call") {
        let local = match params {
            Some(p) => match crate::json::get_str_exec(p, "name") {
                Some(l) => l,
                None => {
                    return Err(ToolError::Failed(String::from_str("tools/call missing name")));
                },
            },
            None => {
                return Err(ToolError::Failed(String::from_str("tools/call missing name")));
            },
        };
        let content = match peer.tool_result(local.as_str()) {
            Some(c) => c,
            None => {
                return Err(
                    ToolError::Denied(
                        String::from_str("MCP tool '").concat(local.as_str()).concat(
                            "' not registered",
                        ),
                    ),
                );
            },
        };
        let ghost cv = content@;
        let block = obj2("type", crate::json::text("text"), "text", Json::Str(content));
        let mut items: Vec<Json> = Vec::new();
        items.push(block);
        let r = obj2("content", Json::Array(items), "isError", Json::Bool(false));
        proof {
            let bm = block->Object_0@;
            assert(crate::json::lookup(bm, "type"@) == Some(bm[0].1));
            reveal_strlit("type");
            reveal_strlit("text");
            assert("type"@[1] != "text"@[1]);
            assert(bm.drop_first()[0] == bm[1]);
            assert(crate::json::lookup(bm.drop_first(), "text"@) == Some(bm[1].1));
            assert(crate::json::lookup(bm, "text"@) == Some(bm[1].1));
            let m = r->Object_0@;
            assert(crate::json::lookup(m, "content"@) == Some(m[0].1));
            reveal_strlit("content");
            reveal_strlit("isError");
            assert("content"@[0] != "isError"@[0]);
            assert(m.drop_first()[0] == m[1]);
            assert(crate::json::lookup(m.drop_first(), "isError"@) == Some(m[1].1));
            assert(crate::json::lookup(m, "isError"@) == Some(m[1].1));
        }
        Ok(r)
    } else {
        Err(
            ToolError::Failed(
                String::from_str("mock MCP: unsupported method '").concat(method).concat("'"),
            ),
        )
    }
}

/// The per-call timeout and result cap of a server: its own, or the defaults.
pub fn session_limits(cfg: &McpServerConfig) -> (r: (u64, usize))
    ensures
        r.0 == match cfg.timeout_ms {
            Some(t) => t,
            None => DEFAULT_TIMEOUT_MS,
        },
        r.1 == match cfg.max_result_chars {
            Some(m) => m,
            None => DEFAULT_MAX_RESULT_CHARS,
        },
{
    let t = match cfg.timeout_ms {
        Some(t) => t,
        None => DEFAULT_TIMEOUT_MS,
    };
    let m = match cfg.max_result_chars {
        Some(m) => m,
        None => DEFAULT_MAX_RESULT_CHARS,
    };
    (t, m)
}

/// The only variables of the worker's own environment a stdio child inherits (no
/// secrets, no provider keys).
pub open spec fn inherited_names() -> Seq<Seq<char>> {
    seq!["PATH"@, "HOME"@, "LANG"@, "TMPDIR"@, "TERM"@, "USER"@, "LOGNAME"@]
}

/// The names of the variables a stdio child inherits, in order.
pub fn inherited_env_names() -> (r: Vec<String>)
    ensures
        views(r@) == inherited_names(),
{
    let mut v: Vec<String> = Vec::new();
    v.push(String::from_str("PATH"));
    v.push(String::from_str("HOME"));
    v.push(String::from_str("LANG"));
    v.push(String::from_str("TMPDIR"));
    v.push(String::from_str("TERM"));
    v.push(String::from_str("USER"));
    v.push(String::from_str("LOGNAME"));
    assert(views(v@) =~= inherited_names());
    v
}

/// The value an env file gives a variable: the (trimmed) contents of the last file
/// entry for it.
pub open spec fn file_value(files: Seq<(String, String)>, reads: Seq<Result<String, String>>, q: Seq<char>) -> Option<
    Seq<char>,
>
    decreases files.len(),
{
    if files.len() == 0 || reads.len() != files.len() {
        None
    } else if files.last().0@ == q {
        match reads.last() {
            Ok(c) => Some(crate::text::trim(c@)),
            Err(_) => None,
        }
    } else {
        file_value(files.drop_last(), reads.drop_last(), q)
    }
}

/// The value of the first entry with key `k`, given by position.
fn first_with_key(entries: &[(String, String)], k: &str) -> (r: Option<usize>)
    ensures
        match r {
            Some(i) => i < entries@.len() && assoc(entries@, k@) == Some(entries@[i as int].1),
            None => assoc(entries@, k@) is None,
        },
{
    let mut i: usize = 0;
    while i < entries.len()
        invariant
            i <= entries@.len(),
            forall|j: int| 0 <= j < i ==> entries@[j].0@ != k@,
        decreases entries@.len() - i,
    {
        if crate::text::str_eq(entries[i].0.as_str(), k) {
            proof {
                lemma_assoc_at(entries@, i as int, k@);
            }
            return Some(i);
        }
        i = i + 1;
    }
    proof {
        assert forall|j: int| 0 <= j < keys(entries@).len() implies keys(entries@)[j] != k@ by {
            assert(keys(entries@)[j] == entries@[j].0@);
        }
        lemma_assoc_absent(entries@, k@);
    }
    None
}

proof fn lemma_assoc_take<V>(s: Seq<(String, V)>, i: int, q: Seq<char>)
    requires
        0 <= i < s.len(),
    ensures
        assoc(s.take(i + 1), q) == match assoc(s.take(i), q) {
            Some(v) => Some(v),
            None => if s[i].0@ == q {
                Some(s[i].1)
            } else {
                None
            },
        },
    decreases i,
{
    if i == 0 {
        assert(s.take(1).drop_first() =~= Seq::<(String, V)>::empty());
        assert(s.take(0) =~= Seq::<(String, V)>::empty());
    } else {
        assert(s.take(i + 1)[0] == s[0]);
        assert(s.take(i)[0] == s[0]);
        assert(s.take(i + 1).drop_first() =~= s.drop_first().take(i));
        assert(s.take(i).drop_first() =~= s.drop_first().take(i - 1));
        lemma_assoc_take(s.drop_first(), i - 1, q);
    }
}

proof fn lemma_push_new_key<V>(entries: Seq<(String, V)>, k: String, v: V)
    requires
        keys(entries).no_duplicates(),
        !keys(entries).contains(k@),
    ensures
        keys(entries.push((k, v))).no_duplicates(),
{
    assert(keys(entries.push((k, v))) =~= keys(entries).push(k@));
    let ks = keys(entries).push(k@);
    assert forall|a: int, b: int| 0 <= a < ks.len() && 0 <= b < ks.len() && a != b implies ks[a]
        != ks[b] by {
        if a < keys(entries).len() && b < keys(entries).len() {
            assert(ks[a] == keys(entries)[a] && ks[b] == keys(entries)[b]);
        } else if a < keys(entries).len() {
            assert(ks[a] == keys(entries)[a]);
        } else if b < keys(entries).len() {
            assert(ks[b] == keys(entries)[b]);
        }
    }
}

/// What a stdio child sees for the variable `q`: the server's own setting when its
/// overlay has one, else the worker's value when `q` is one of the inherited names,
/// else nothing.
pub open spec fn child_value(
    worker_env: Seq<(String, String)>,
    overlay: Seq<(String, String)>,
    q: Seq<char>,
) -> Option<Seq<char>> {
    match assoc(overlay, q) {
        Some(v) => Some(v@),
        None => if inherited_names().contains(q) {
            crate::text::opt_view(assoc(worker_env, q))
        } else {
            None
        },
    }
}

/// The whole environment of a stdio child, one entry per variable: the server's
/// overlay (its `env`, then its env files, as `resolve_env` makes it) over the
/// worker's inherited variables, and no other variable of the worker.
pub fn child_env(worker_env: &[(String, String)], overlay: &[(String, String)]) -> (r: Vec<
    (String, String),
>)
    ensures
        keys(r@).no_duplicates(),
        forall|q: Seq<char>|
            crate::text::opt_view(#[trigger] assoc(r@, q)) == child_value(
                worker_env@,
                overlay@,
                q,
            ),
{
    let mut out: Vec<(String, String)> = Vec::new();
    let mut i: usize = 0;
    assert(overlay@.take(0) =~= Seq::<(String, String)>::empty());
    assert(keys(out@) =~= Seq::<Seq<char>>::empty());
    while i < overlay.len()
        invariant
            i <= overlay@.len(),
            keys(out@).no_duplicates(),
            forall|q: Seq<char>|
                crate::text::opt_view(#[trigger] assoc(out@, q)) == crate::text::opt_view(
                    assoc(overlay@.take(i as int), q),
                ),
        decreases overlay@.len() - i,
    {
        let ghost before = out@;
        let k = overlay[i].0.clone();
        proof {
            assert forall|q: Seq<char>| true implies #[trigger] assoc(overlay@.take(i + 1), q)
                == match assoc(overlay@.take(i as int), q) {
                Some(v) => Some(v),
                None => if overlay@[i as int].0@ == q {
                    Some(overlay@[i as int].1)
                } else {
                    None
                },
            } by {
                lemma_assoc_take(overlay@, i as int, q);
            }
        }
        match position_of(&out, k.as_str()) {
            Some(p) => {
                proof {
                    lemma_assoc_at(out@, p as int, k@);
                }
            },
            None => {
                let v = overlay[i].1.clone();
                out.push((k, v));
                proof {
                    lemma_push_new_key(before, overlay@[i as int].0, overlay@[i as int].1);
                    assert forall|q: Seq<char>| true implies crate::text::opt_view(
                        #[trigger] assoc(out@, q),
                    ) == crate::text::opt_view(assoc(overlay@.take(i + 1), q)) by {
                        lemma_assoc_push(before, overlay@[i as int].0, overlay@[i as int].1, q);
                        lemma_assoc_absent(before, overlay@[i as int].0@);
                    }
                }
            },
        }
        i = i + 1;
    }
    assert(overlay@.take(i as int) =~= overlay@);
    let names = inherited_env_names();
    let ghost nv = views(names@);
    let mut j: usize = 0;
    assert(nv.take(0) =~= Seq::<Seq<char>>::empty());
    while j < names.len()
        invariant
            j <= names@.len(),
            nv == views(names@),
            nv == inherited_names(),
            keys(out@).no_duplicates(),
            forall|q: Seq<char>|
                crate::text::opt_view(#[trigger] assoc(out@, q)) == match assoc(overlay@, q) {
                    Some(v) => Some(v@),
                    None => if nv.take(j as int).contains(q) {
                        crate::text::opt_view(assoc(worker_env@, q))
                    } else {
                        None
                    },
                },
        decreases names@.len() - j,
    {
        let ghost before = out@;
        let n = &names[j];
        assert(nv.take(j + 1) =~= nv.take(j as int).push(n@));
        assert(nv[j as int] == n@);
        match position_of(&out, n.as_str()) {
            Some(p) => {
                proof {
                    lemma_assoc_at(out@, p as int, n@);
                }
            },
            None => {
                proof {
                    lemma_assoc_absent(out@, n@);
                }
                match first_with_key(worker_env, n.as_str()) {
                    Some(w) => {
                        let v = worker_env[w].1.clone();
                        out.push((n.clone(), v));
                        proof {
                            lemma_push_new_key(before, *n, worker_env@[w as int].1);
                            assert forall|q: Seq<char>| true implies #[trigger] assoc(out@, q)
                                == if q == n@ {
                                Some(worker_env@[w as int].1)
                            } else {
                                assoc(before, q)
                            } by {
                                lemma_assoc_push(before, *n, worker_env@[w as int].1, q);
                            }
                        }
                    },
                    None => {},
                }
            },
        }
        proof {
            assert forall|q: Seq<char>| true implies crate::text::opt_view(
                #[trigger] assoc(out@, q),
            ) == match assoc(overlay@, q) {
                Some(v) => Some(v@),
                None => if nv.take(j + 1).contains(q) {
                    crate::text::opt_view(assoc(worker_env@, q))
                } else {
                    None
                },
            } by {
                assert(crate::text::opt_view(assoc(before, q)) == match assoc(overlay@, q) {
                    Some(v) => Some(v@),
                    None => if nv.take(j as int).contains(q) {
                        crate::text::opt_view(assoc(worker_env@, q))
                    } else {
                        None
                    },
                });
                if q == n@ {
                    assert(nv.take(j + 1)[j as int] == q);
                } else {
                    if nv.take(j + 1).contains(q) {
                        let x = choose|x: int| 0 <= x < nv.take(j + 1).len() && #[trigger] nv.take(j + 1)[x] == q;
                        assert(nv.take(j as int)[x] == q);
                    }
                    if nv.take(j as int).contains(q) {
                        let x = choose|x: int| 0 <= x < nv.take(j as int).len() && #[trigger] nv.take(j as int)[x] == q;
                        assert(nv.take(j + 1)[x] == q);
                    }
                }
            }
        }
        j = j + 1;
    }
    assert(nv.take(j as int) =~= nv);
    out
}

/// The first env file that could not be read, and why.
pub open spec fn first_unreadable(files: Seq<(String, String)>, reads: Seq<Result<String, String>>) -> Option<
    Seq<char>,
>
    decreases files.len(),
{
    if files.len() == 0 || reads.len() != files.len() {
        None
    } else {
        match first_unreadable(files.drop_last(), reads.drop_last()) {
            Some(e) => Some(e),
            None => match reads.last() {
                Err(e) => Some("env_files "@ + files.last().0@ + "="@ + files.last().1@ + ": "@ + e@),
                Ok(_) => None,
            },
        }
    }
}

/// The extra environment of a stdio child: the literal variables, then each env file's
/// trimmed contents (the outcome of reading each file is handed in, in order); the
/// first unreadable file is an error.
pub fn resolve_env(env: &[(String, String)], env_files: &[(String, String)], reads: &[Result<String, String>]) -> (r: Result<
    Vec<(String, String)>,
    String,
>)
    requires
        reads@.len() == env_files@.len(),
    ensures
        match first_unreadable(env_files@, reads@) {
            Some(e) => r matches Err(m) && m@ == e,
            None => r matches Ok(out) && forall|q: Seq<char>|
                crate::text::opt_view(#[trigger] assoc(out@, q)) == match file_value(env_files@, reads@, q) {
                    Some(v) => Some(v),
                    None => crate::text::opt_view(assoc(env@, q)),
                },
        },
{
    let mut out: Vec<(String, String)> = Vec::new();
    let mut i: usize = 0;
    while i < env.len()
        invariant
            i <= env@.len(),
            out@ == env@.take(i as int),
        decreases env@.len() - i,
    {
        out.push((env[i].0.clone(), env[i].1.clone()));
        i = i + 1;
        assert(out@ =~= env@.take(i as int));
    }
    assert(env@.take(i as int) =~= env@);
    let mut j: usize = 0;
    assert(env_files@.take(0) =~= Seq::<(String, String)>::empty());
    assert(reads@.take(0) =~= Seq::<Result<String, String>>::empty());
    while j < env_files.len()
        invariant
            j <= env_files@.len(),
            reads@.len() == env_files@.len(),
            first_unreadable(env_files@.take(j as int), reads@.take(j as int)) is None,
            forall|q: Seq<char>|
                crate::text::opt_view(#[trigger] assoc(out@, q)) == match file_value(
                    env_files@.take(j as int),
                    reads@.take(j as int),
                    q,
                ) {
                    Some(v) => Some(v),
                    None => crate::text::opt_view(assoc(env@, q)),
                },
        decreases env_files@.len() - j,
    {
        assert(env_files@.take(j + 1).drop_last() =~= env_files@.take(j as int));
        assert(reads@.take(j + 1).drop_last() =~= reads@.take(j as int));
        match &reads[j] {
            Err(e) => {
                proof {
                    lemma_first_unreadable_prefix(env_files@, reads@, j as int + 1);
                }
                return Err(
                    String::from_str("env_files ").concat(env_files[j].0.as_str()).concat("=").concat(
                        env_files[j].1.as_str(),
                    ).concat(": ").concat(e.as_str()),
                );
            },
            Ok(c) => {
                let v = crate::text::trim_str(c.as_str());
                let ghost before = out@;
                put(&mut out, env_files[j].0.clone(), v);
                proof {
                    assert forall|q: Seq<char>|
                        crate::text::opt_view(#[trigger] assoc(out@, q)) == match file_value(
                            env_files@.take(j + 1),
                            reads@.take(j + 1),
                            q,
                        ) {
                            Some(v) => Some(v),
                            None => crate::text::opt_view(assoc(env@, q)),
                        } by {
                        if q != env_files@[j as int].0@ {
                            assert(assoc(out@, q) == assoc(before, q));
                        }
                    }
                }
            },
        }
        j = j + 1;
    }
    assert(env_files@.take(j as int) =~= env_files@);
    assert(reads@.take(j as int) =~= reads@);
    Ok(out)
}

proof fn lemma_first_unreadable_prefix(files: Seq<(String, String)>, reads: Seq<Result<String, String>>, k: int)
    requires
        0 <= k <= files.len(),
        reads.len() == files.len(),
        first_unreadable(files.take(k), reads.take(k)) is Some,
    ensures
        first_unreadable(files, reads) == first_unreadable(files.take(k), reads.take(k)),
    decreases files.len() - k,
{
    if k < files.len() {
        assert(files.take(k + 1).drop_last() =~= files.take(k));
        assert(reads.take(k + 1).drop_last() =~= reads.take(k));
        lemma_first_unreadable_prefix(files, reads, k + 1);
    } else {
        assert(files.take(k) =~= files);
        assert(reads.take(k) =~= reads);
    }
}

/// A remote server's bearer token: from its secret file when one is configured (the
/// outcome of reading it is handed in; blank means none), else from its environment
/// variable when that is set and not empty.
pub fn secret_token(file: Option<&str>, file_read: Option<Result<String, String>>, env_value: Option<&str>) -> (r:
    Result<Option<String>, String>)
    requires
        file is Some <==> file_read is Some,
    ensures
        match file {
            Some(path) => match file_read {
                Some(Err(e)) => r matches Err(m) && m@ == "auth_token_file "@ + path@ + ": "@ + e@,
                Some(Ok(raw)) => r matches Ok(t) && if crate::text::trim(raw@).len() == 0 {
                    t is None
                } else {
                    t matches Some(x) && x@ == crate::text::trim(raw@)
                },
                None => false,
            },
            None => r matches Ok(t) && match env_value {
                Some(v) => if v@.len() > 0 {
                    t matches Some(x) && x@ == v@
                } else {
                    t is None
                },
                None => t is None,
            },
        },
{
    if let Some(path) = file {
        match file_read {
            Some(Err(e)) => Err(
                String::from_str("auth_token_file ").concat(path).concat(": ").concat(e.as_str()),
            ),
            Some(Ok(raw)) => {
                let t = crate::text::trim_str(raw.as_str());
                if t.as_str().is_empty() {
                    Ok(None)
                } else {
                    Ok(Some(t))
                }
            },
            None => Ok(None),
        }
    } else {
        match env_value {
            Some(v) => if v.is_empty() {
                Ok(None)
            } else {
                Ok(Some(String::from_str(v)))
            },
            None => Ok(None),
        }
    }
}

/// The `authorization` header value for a bearer token.
pub fn bearer_header(token: &str) -> (r: String)
    ensures
        r@ == "Bearer "@ + token@,
{
    String::from_str("Bearer ").concat(token)
}

/// A JSON-RPC request: version, id, method and (when given) params, in that order.
pub fn rpc_request(id: u64, method: &str, params: Option<Json>) -> (r: Json)
    ensures
        r matches Json::Object(m) && m@.len() == (if params is Some {
            4int
        } else {
            3int
        }) && m@[0].0@ == "jsonrpc"@ && crate::json::is_text(m@[0].1, "2.0"@) && m@[1].0@ == "id"@
            && m@[1].1 == Json::Number(crate::json::JsonNumber::PosInt(id)) && m@[2].0@ == "method"@
            && crate::json::is_text(m@[2].1, method@) && (params matches Some(p) ==> m@[3].0@
            == "params"@ && m@[3].1 == p),
{
    let mut m: Vec<(String, Json)> = Vec::new();
    m.push((String::from_str("jsonrpc"), crate::json::text("2.0")));
    m.push((String::from_str("id"), Json::Number(crate::json::JsonNumber::PosInt(id))));
    m.push((String::from_str("method"), crate::json::text(method)));
    if let Some(p) = params {
        m.push((String::from_str("params"), p));
    }
    Json::Object(m)
}

/// A JSON-RPC notification (no id): version, method and (when given) params.
pub fn rpc_notification(method: &str, params: Option<Json>) -> (r: Json)
    ensures
        r matches Json::Object(m) && m@.len() == (if params is Some {
            3int
        } else {
            2int
        }) && m@[0].0@ == "jsonrpc"@ && crate::json::is_text(m@[0].1, "2.0"@) && m@[1].0@
            == "method"@ && crate::json::is_text(m@[1].1, method@) && (params matches Some(p)
            ==> m@[2].0@ == "params"@ && m@[2].1 == p),
{
    let mut m: Vec<(String, Json)> = Vec::new();
    m.push((String::from_str("jsonrpc"), crate::json::text("2.0")));
    m.push((String::from_str("method"), crate::json::text(method)));
    if let Some(p) = params {
        m.push((String::from_str("params"), p));
    }
    Json::Object(m)
}

/// The `initialize` params: protocol revision, no capabilities, and the client's name
/// and version.
pub fn initialize_params(client_version: &str) -> (r: Json)
    ensures
        r matches Json::Object(m) && m@.len() == 3 && m@[0].0@ == "protocolVersion"@
            && crate::json::is_text(m@[0].1, crate::tools::mcp::protocol::PROTOCOL_VERSION@)
            && m@[1].0@ == "capabilities"@ && (m@[1].1 matches Json::Object(c) && c@.len() == 0)
            && m@[2].0@ == "clientInfo"@ && (m@[2].1 matches Json::Object(i) && i@.len() == 2
            && i@[0].0@ == "name"@ && crate::json::is_text(i@[0].1, "keryx"@) && i@[1].0@ == "version"@
            && crate::json::is_text(i@[1].1, client_version@)),
{
    let info = obj2("name", crate::json::text("keryx"), "version", crate::json::text(client_version));
    obj3(
        "protocolVersion",
        crate::json::text(crate::tools::mcp::protocol::PROTOCOL_VERSION),
        "capabilities",
        crate::json::empty_object(),
        "clientInfo",
        info,
    )
}

/// A JSON-RPC response: its id, result and error, as read from the wire.
#[derive(Debug)]
pub struct JsonRpcResponse {
    pub id: Option<Json>,
    pub result: Option<Json>,
    pub error: Option<JsonRpcError>,
}

/// The failure text of a JSON-RPC error.
pub open spec fn rpc_error_text(e: JsonRpcError) -> Seq<char> {
    "MCP JSON-RPC error "@ + crate::model::registry::int_text(e.code as int) + ": "@ + e.message@
}

/// What a response gives: the error when it carries one, else its result; a response
/// with neither fails with `empty`.
pub open spec fn reply_value(rpc: JsonRpcResponse, empty: Seq<char>) -> Result<Json, Seq<char>> {
    match rpc.error {
        Some(e) => Err(rpc_error_text(e)),
        None => match rpc.result {
            Some(v) => Ok(v),
            None => Err(empty),
        },
    }
}

/// The answer of a response as a tool error or value.
pub open spec fn answers(r: Result<Json, ToolError>, v: Result<Json, Seq<char>>) -> bool {
    match v {
        Ok(j) => r == Ok::<Json, ToolError>(j),
        Err(m) => r matches Err(ToolError::Failed(x)) && x@ == m,
    }
}

/// The reply of a remote (HTTP) request.
pub fn remote_reply(rpc: JsonRpcResponse) -> (r: Result<Json, ToolError>)
    ensures
        answers(r, reply_value(rpc, "MCP remote empty result"@)),
{
    match rpc.error {
        Some(e) => Err(
            ToolError::Failed(
                String::from_str("MCP JSON-RPC error ").concat(
                    crate::model::registry::int64_string(e.code).as_str(),
                ).concat(": ").concat(e.message.as_str()),
            ),
        ),
        None => match rpc.result {
            Some(v) => Ok(v),
            None => Err(ToolError::Failed(String::from_str("MCP remote empty result"))),
        },
    }
}

/// A response id names request `id`: the same number, or a string that reads as it.
pub open spec fn id_matches(rid: Option<Json>, id: u64) -> bool {
    match rid {
        Some(Json::Number(crate::json::JsonNumber::PosInt(n))) => n == id,
        Some(Json::Str(s)) => crate::tools::mcp::protocol::parse_u64(s@) == Ok::<nat, Seq<char>>(id as nat),
        _ => false,
    }
}

/// The reply of a stdio request to a response frame: `None` when the frame answers
/// something else (keep reading).
pub fn stdio_reply(id: u64, rpc: JsonRpcResponse) -> (r: Option<Result<Json, ToolError>>)
    ensures
        !id_matches(rpc.id, id) ==> r is None,
        id_matches(rpc.id, id) ==> (r matches Some(x) && answers(x, reply_value(rpc, "MCP stdio empty result"@))),
{
    let matches = match &rpc.id {
        Some(Json::Number(crate::json::JsonNumber::PosInt(n))) => *n == id,
        Some(Json::Str(s)) => {
            let c = crate::text::chars_of(s.as_str());
            match crate::tools::mcp::protocol::parse_u64_exec(c.as_slice()) {
                Ok(v) => v == id,
                Err(_) => false,
            }
        },
        _ => false,
    };
    if !matches {
        return None;
    }
    match rpc.error {
        Some(e) => Some(
            Err(
                ToolError::Failed(
                    String::from_str("MCP JSON-RPC error ").concat(
                        crate::model::registry::int64_string(e.code).as_str(),
                    ).concat(": ").concat(e.message.as_str()),
                ),
            ),
        ),
        None => match rpc.result {
            Some(v) => Some(Ok(v)),
            None => Some(Err(ToolError::Failed(String::from_str("MCP stdio empty result")))),
        },
    }
}

/// What a stdio transport does with the bytes it has read so far.
#[derive(Debug)]
pub enum FrameStep {
    /// A whole frame: its body and how many bytes it took.
    Frame(String, usize),
    /// Not a whole frame yet: read more.
    NeedMore,
    /// Too much unread data, or a broken header: fail closed.
    Fail(String),
}

/// The next step for a read buffer: a whole frame, a broken frame, too much unread
/// data, or read more.
pub fn frame_step(buf: &[u8]) -> (r: FrameStep)
    ensures
        match crate::tools::mcp::protocol::decoded_frame(buf@) {
            Err(e) => r matches FrameStep::Fail(m) && m@ == "MCP frame: "@ + e,
            Ok(Some((body, n))) => r matches FrameStep::Frame(b, k) && b@ == body && k == n,
            Ok(None) => if buf@.len() > MAX_FRAME_BUF {
                r matches FrameStep::Fail(m) && m@ == "MCP frame buffer overflow"@
            } else {
                r is NeedMore
            },
        },
{
    match crate::tools::mcp::protocol::try_decode_framed(buf) {
        Err(e) => FrameStep::Fail(String::from_str("MCP frame: ").concat(e.as_str())),
        Ok(Some((body, n))) => FrameStep::Frame(body, n),
        Ok(None) => if buf.len() > MAX_FRAME_BUF {
            FrameStep::Fail(String::from_str("MCP frame buffer overflow"))
        } else {
            FrameStep::NeedMore
        },
    }
}

} // verus!
