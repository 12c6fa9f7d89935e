//! OpenAI-compatible Chat Completions (OpenAI, Grok/xAI): configuration, request
//! shape, and the streamed response.

use crate::domain::{HttpRequestPlan, MessageRole, ModelRequest, ModelResponse, ToolCall, ToolSpec};
use crate::json::{is_text, lookup, member, parse_json, same, serde_parse, size, text, Json};
use crate::model::auth::{joined_url, opt_str_view, resolve_model_with, resolved_model};
use crate::model::error::{http_status_text, status_text, ModelError};
use crate::model::parse::sse_data;
use crate::text::{chars_of, split, split_exec, string_of, trim, trim_str, views};
use vstd::prelude::*;

verus! {

/// Configuration for an OpenAI-compatible Chat Completions HTTP API.
#[derive(Debug)]
pub struct OpenAiCompatibleConfig {
    /// Base URL including `/v1` (e.g. `https://api.openai.com/v1`).
    pub base_url: String,
    /// Bearer API key from env/secret file (never browser session cookies).
    pub api_key: String,
    /// Default model id.
    pub model: String,
    /// Provider name for errors/logs (`openai`, `grok`).
    pub provider_name: String,
    /// When non-empty, only these model ids are accepted.
    pub allowed_models: Vec<String>,
    /// Optional reasoning effort (`low` | `medium` | `high`) for models that support it.
    pub reasoning_effort: Option<String>,
}

impl OpenAiCompatibleConfig {
    /// OpenAI platform defaults.
    pub fn openai(api_key: String, model: String) -> (r: Self)
        ensures
            r.base_url@ == "https://api.openai.com/v1"@,
            r.api_key == api_key,
            r.model == model,
            r.provider_name@ == "openai"@,
            r.allowed_models@.len() == 0,
            r.reasoning_effort is None,
    {
        OpenAiCompatibleConfig {
            base_url: String::from_str("https://api.openai.com/v1"),
            api_key,
            model,
            provider_name: String::from_str("openai"),
            allowed_models: Vec::new(),
            reasoning_effort: None,
        }
    }

    /// xAI (Grok) defaults.
    pub fn grok(api_key: String, model: String) -> (r: Self)
        ensures
            r.base_url@ == "https://api.x.ai/v1"@,
            r.api_key == api_key,
            r.model == model,
            r.provider_name@ == "grok"@,
            r.allowed_models@.len() == 0,
            r.reasoning_effort is None,
    {
        OpenAiCompatibleConfig {
            base_url: String::from_str("https://api.x.ai/v1"),
            api_key,
            model,
            provider_name: String::from_str("grok"),
            allowed_models: Vec::new(),
            reasoning_effort: None,
        }
    }

    /// The same configuration with another base URL.
    pub fn with_base_url(self, base_url: String) -> (r: Self)
        ensures
            r.base_url == base_url,
            r.api_key == self.api_key,
            r.model == self.model,
            r.provider_name == self.provider_name,
            r.allowed_models == self.allowed_models,
            r.reasoning_effort == self.reasoning_effort,
    {
        OpenAiCompatibleConfig { base_url, ..self }
    }

    /// The same configuration with a model allowlist.
    pub fn with_allowed_models(self, models: Vec<String>) -> (r: Self)
        ensures
            r.allowed_models == models,
            r.base_url == self.base_url,
            r.api_key == self.api_key,
            r.model == self.model,
            r.provider_name == self.provider_name,
            r.reasoning_effort == self.reasoning_effort,
    {
        OpenAiCompatibleConfig { allowed_models: models, ..self }
    }

    /// The same configuration with a reasoning effort; a blank effort clears it.
    pub fn with_reasoning_effort(self, effort: String) -> (r: Self)
        ensures
            trim(effort@).len() == 0 ==> r.reasoning_effort is None,
            trim(effort@).len() > 0 ==> r.reasoning_effort == Some(effort),
            r.allowed_models == self.allowed_models,
            r.base_url == self.base_url,
            r.api_key == self.api_key,
            r.model == self.model,
            r.provider_name == self.provider_name,
    {
        let t = trim_str(effort.as_str());
        let reasoning_effort = if t.as_str().is_empty() {
            None
        } else {
            Some(effort)
        };
        OpenAiCompatibleConfig { reasoning_effort, ..self }
    }

    /// Request model: the override (trimmed, non-empty) or the default, then the allowlist.
    pub fn resolve_model(&self, override_model: Option<&str>) -> (r: Result<String, ModelError>)
        ensures
            match r {
                Ok(m) => resolved_model(
                    self.provider_name@,
                    self.model@,
                    views(self.allowed_models@),
                    opt_str_view(override_model),
                ) == Ok::<Seq<char>, Seq<char>>(m@),
                Err(e) => resolved_model(
                    self.provider_name@,
                    self.model@,
                    views(self.allowed_models@),
                    opt_str_view(override_model),
                ) == Err::<Seq<char>, Seq<char>>(e.message@),
            },
    {
        match resolve_model_with(
            self.provider_name.as_str(),
            self.model.as_str(),
            &self.allowed_models,
            override_model,
        ) {
            Ok(m) => Ok(m),
            Err(e) => Err(ModelError::new(e)),
        }
    }

    /// The Chat Completions endpoint.
    pub fn chat_url(&self) -> (r: String)
        ensures
            r@ == joined_url(self.base_url@, "/chat/completions"@),
    {
        crate::model::auth::join_url(self.base_url.as_str(), "/chat/completions")
    }
}

/// The OpenAI role of a Transcript message (tool observations go to the user channel).
pub open spec fn openai_role(r: MessageRole) -> Seq<char> {
    match r {
        MessageRole::System => "system"@,
        MessageRole::User => "user"@,
        MessageRole::Assistant => "assistant"@,
        MessageRole::Tool => "user"@,
    }
}

/// `m` is the chat message `{"role": role, "content": content}`.
pub open spec fn is_chat_message(m: Json, role: Seq<char>, content: Seq<char>) -> bool {
    &&& size(m) == 2
    &&& member(m, 0, "role"@) matches Some(r) && is_text(r, role)
    &&& member(m, 1, "content"@) matches Some(c) && is_text(c, content)
}

/// The chat messages for a request: the Transcript, or the goal as one user message.
pub open spec fn chat_messages_ok(request: ModelRequest, msgs: Seq<Json>) -> bool {
    if request.transcript@.len() == 0 {
        msgs.len() == 1 && is_chat_message(msgs[0], "user"@, request.goal@)
    } else {
        &&& msgs.len() == request.transcript@.len()
        &&& forall|i: int|
            0 <= i < msgs.len() ==> is_chat_message(
                #[trigger] msgs[i],
                openai_role(request.transcript@[i].role),
                request.transcript@[i].content@,
            )
    }
}

fn role_text(r: MessageRole) -> (s: &'static str)
    ensures
        s@ == openai_role(r),
{
    match r {
        MessageRole::System => "system",
        MessageRole::User => "user",
        MessageRole::Assistant => "assistant",
        MessageRole::Tool => "user",
    }
}

fn chat_message(role: &str, content: &str) -> (r: Json)
    ensures
        is_chat_message(r, role@, content@),
{
    let mut m: Vec<(String, Json)> = Vec::new();
    m.push((String::from_str("role"), text(role)));
    m.push((String::from_str("content"), text(content)));
    Json::Object(m)
}

/// The chat messages of a request.
pub fn build_messages(request: &ModelRequest) -> (r: Vec<Json>)
    ensures
        chat_messages_ok(*request, r@),
{
    let mut out: Vec<Json> = Vec::new();
    let mut i: usize = 0;
    while i < request.transcript.len()
        invariant
            i <= request.transcript@.len(),
            out@.len() == i,
            forall|k: int|
                0 <= k < i ==> is_chat_message(
                    #[trigger] out@[k],
                    openai_role(request.transcript@[k].role),
                    request.transcript@[k].content@,
                ),
        decreases request.transcript@.len() - i,
    {
        let msg = &request.transcript[i];
        out.push(chat_message(role_text(msg.role), msg.content.as_str()));
        i = i + 1;
    }
    if out.len() == 0 {
        out.push(chat_message("user", request.goal.as_str()));
    }
    out
}

/// The name a tool goes by on the wire: each `.` becomes `__` (function names allow no
/// dots).
pub open spec fn wire_name(name: Seq<char>) -> Seq<char> {
    crate::text::replace_all(name, "."@, "__"@)
}

/// `j` is the function spec of tool `t`: its wire name, description and parameters.
pub open spec fn is_tool_def(j: Json, t: ToolSpec) -> bool {
    &&& size(j) == 2
    &&& member(j, 0, "type"@) matches Some(x) && is_text(x, "function"@)
    &&& member(j, 1, "function"@) matches Some(f) && size(f) == 3 && (member(f, 0, "name"@) matches Some(
        n,
    ) && is_text(n, wire_name(t.name@))) && (member(f, 1, "description"@) matches Some(d)
        && is_text(d, t.description@)) && (member(f, 2, "parameters"@) matches Some(p) && same(
        t.parameters,
        p,
    ))
}

/// The body of a Chat Completions request for `model`: the model, the messages,
/// streaming, the reasoning effort when configured, and the request's tools (as
/// function specs, with `tool_choice` `auto`) when it offers any.
pub open spec fn chat_body_ok(
    config: OpenAiCompatibleConfig,
    request: ModelRequest,
    model: Seq<char>,
    body: Json,
) -> bool {
    let k: int = if config.reasoning_effort is Some { 4 } else { 3 };
    let tools = request.tools@;
    &&& member(body, 0, "model"@) matches Some(m) && is_text(m, model)
    &&& member(body, 1, "messages"@) matches Some(Json::Array(msgs)) && chat_messages_ok(
        request,
        msgs@,
    )
    &&& member(body, 2, "stream"@) == Some(Json::Bool(true))
    &&& match config.reasoning_effort {
        Some(e) => member(body, 3, "reasoning_effort"@) matches Some(x) && is_text(x, e@),
        None => true,
    }
    &&& size(body) == k + if tools.len() > 0 { 2int } else { 0 }
    &&& tools.len() > 0 ==> (member(body, k, "tools"@) matches Some(Json::Array(a)) && a@.len()
        == tools.len() && forall|i: int| 0 <= i < tools.len() ==> is_tool_def(#[trigger] a@[i], tools[i]))
    &&& tools.len() > 0 ==> (member(body, k + 1, "tool_choice"@) matches Some(c) && is_text(c, "auto"@))
}

/// The wire name of a tool.
pub fn wire_name_exec(name: &str) -> (r: String)
    ensures
        r@ == wire_name(name@),
{
    proof {
        reveal_strlit(".");
    }
    let dot = chars_of(".");
    let under = chars_of("__");
    let out = crate::text::replace_all_exec(chars_of(name).as_slice(), dot.as_slice(), under.as_slice());
    string_of(out.as_slice())
}

fn tool_def(t: &ToolSpec) -> (r: Json)
    ensures
        is_tool_def(r, *t),
{
    let mut f: Vec<(String, Json)> = Vec::new();
    f.push((String::from_str("name"), text(wire_name_exec(t.name.as_str()).as_str())));
    f.push((String::from_str("description"), text(t.description.as_str())));
    f.push((String::from_str("parameters"), crate::json::copy_json(&t.parameters)));
    let mut m: Vec<(String, Json)> = Vec::new();
    m.push((String::from_str("type"), text("function")));
    m.push((String::from_str("function"), Json::Object(f)));
    Json::Object(m)
}

fn tool_defs(tools: &Vec<ToolSpec>) -> (r: Vec<Json>)
    ensures
        r@.len() == tools@.len(),
        forall|i: int| 0 <= i < tools@.len() ==> is_tool_def(#[trigger] r@[i], tools@[i]),
{
    let mut out: Vec<Json> = Vec::new();
    let mut i: usize = 0;
    while i < tools.len()
        invariant
            i <= tools@.len(),
            out@.len() == i,
            forall|k: int| 0 <= k < i ==> is_tool_def(#[trigger] out@[k], tools@[k]),
        decreases tools@.len() - i,
    {
        out.push(tool_def(&tools[i]));
        i = i + 1;
    }
    out
}

/// `headers` are the bearer authorization with `key`, then the JSON content type.
pub open spec fn api_headers_ok(headers: Seq<(String, String)>, key: Seq<char>) -> bool {
    &&& headers.len() == 2
    &&& headers[0].0@ == "authorization"@ && headers[0].1@ == "Bearer "@ + key
    &&& headers[1].0@ == "content-type"@ && headers[1].1@ == "application/json"@
}

impl OpenAiCompatibleConfig {
    /// The streamed Chat Completions request for a Run, or the model-resolution error.
    pub fn plan_request(&self, request: &ModelRequest) -> (r: Result<HttpRequestPlan, ModelError>)
        ensures
            match r {
                Ok(plan) => {
                    &&& plan.url@ == joined_url(self.base_url@, "/chat/completions"@)
                    &&& api_headers_ok(plan.headers@, self.api_key@)
                    &&& resolved_model(
                        self.provider_name@,
                        self.model@,
                        views(self.allowed_models@),
                        opt_view_ref(request.model),
                    ) matches Ok(m) && chat_body_ok(*self, *request, m, plan.body)
                },
                Err(e) => resolved_model(
                    self.provider_name@,
                    self.model@,
                    views(self.allowed_models@),
                    opt_view_ref(request.model),
                ) == Err::<Seq<char>, Seq<char>>(e.message@),
            },
    {
        let override_model = match &request.model {
            Some(m) => Some(m.as_str()),
            None => None,
        };
        let model = self.resolve_model(override_model)?;
        let mut members: Vec<(String, Json)> = Vec::new();
        members.push((String::from_str("model"), text(model.as_str())));
        members.push((String::from_str("messages"), Json::Array(build_messages(request))));
        members.push((String::from_str("stream"), Json::Bool(true)));
        match &self.reasoning_effort {
            Some(e) => members.push((String::from_str("reasoning_effort"), text(e.as_str()))),
            None => {},
        }
        if request.tools.len() > 0 {
            members.push((String::from_str("tools"), Json::Array(tool_defs(&request.tools))));
            members.push((String::from_str("tool_choice"), text("auto")));
        }
        let mut headers: Vec<(String, String)> = Vec::new();
        headers.push(
            (
                String::from_str("authorization"),
                String::from_str("Bearer ").concat(self.api_key.as_str()),
            ),
        );
        headers.push((String::from_str("content-type"), String::from_str("application/json")));
        Ok(HttpRequestPlan { url: self.chat_url(), headers, body: Json::Object(members) })
    }
}

/// The text of an optional owned string.
pub open spec fn opt_view_ref(o: Option<String>) -> Option<Seq<char>> {
    crate::text::opt_view(o)
}


/// The `content` of a stream delta: `Some(None)` when absent or null, `None` when the
/// delta does not decode.
pub open spec fn delta_content(d: Json) -> Option<Option<Seq<char>>> {
    match d {
        Json::Object(m) => match lookup(m@, "content"@) {
            None => Some(None),
            Some(Json::Null) => Some(None),
            Some(Json::Str(s)) => Some(Some(s@)),
            Some(_) => None,
        },
        _ => None,
    }
}

/// The delta content of one stream choice; `None` when the choice does not decode.
pub open spec fn choice_content(c: Json) -> Option<Option<Seq<char>>> {
    match c {
        Json::Object(m) => match lookup(m@, "delta"@) {
            Some(d) => delta_content(d),
            None => None,
        },
        _ => None,
    }
}

/// The first choice's delta content of a stream chunk; `None` when the chunk does not
/// decode (every choice must decode).
pub open spec fn chunk_content(v: Json) -> Option<Option<Seq<char>>> {
    match v {
        Json::Object(m) => match lookup(m@, "choices"@) {
            Some(Json::Array(items)) => if forall|i: int|
                0 <= i < items@.len() ==> (#[trigger] choice_content(items@[i])) is Some {
                if items@.len() > 0 {
                    choice_content(items@[0])
                } else {
                    Some(None)
                }
            } else {
                None
            },
            _ => None,
        },
        _ => None,
    }
}

/// The non-empty delta text a stream line carries, if any.
pub open spec fn stream_line_delta(line: Seq<char>) -> Option<Seq<char>> {
    match sse_data(line) {
        None => None,
        Some(d) => match serde_parse(d) {
            Err(_) => None,
            Ok(v) => match chunk_content(v) {
                Some(Some(c)) => if c.len() > 0 {
                    Some(c)
                } else {
                    None
                },
                _ => None,
            },
        },
    }
}

/// The deltas of complete stream lines, in order.
pub open spec fn stream_deltas(lines: Seq<Seq<char>>) -> Seq<Seq<char>>
    decreases lines.len(),
{
    if lines.len() == 0 {
        Seq::empty()
    } else {
        let prev = stream_deltas(lines.drop_last());
        match stream_line_delta(lines.last()) {
            Some(d) => prev.push(d),
            None => prev,
        }
    }
}

/// All texts joined.
pub open spec fn concat_all(ds: Seq<Seq<char>>) -> Seq<char>
    decreases ds.len(),
{
    if ds.len() == 0 {
        Seq::empty()
    } else {
        concat_all(ds.drop_last()) + ds.last()
    }
}

fn lookup_exec<'a>(m: &'a Vec<(String, Json)>, key: &str) -> (r: Option<&'a Json>)
    ensures
        r matches Some(v) ==> lookup(m@, key@) == Some(*v),
        r is None ==> lookup(m@, key@) is None,
{
    let j = Json::Object(Vec::new());
    let mut i: usize = 0;
    assert(m@.skip(0) =~= m@);
    while i < m.len()
        invariant
            i <= m@.len(),
            lookup(m@, key@) == lookup(m@.skip(i as int), key@),
        decreases m@.len() - i,
    {
        assert(m@.skip(i as int).drop_first() =~= m@.skip(i + 1));
        assert(m@.skip(i as int)[0] == m@[i as int]);
        let entry = &m[i];
        if crate::text::str_eq(entry.0.as_str(), key) {
            return Some(&entry.1);
        }
        i = i + 1;
    }
    assert(m@.skip(i as int) =~= Seq::<(String, Json)>::empty());
    None
}

fn delta_content_exec(d: &Json) -> (r: Option<Option<String>>)
    ensures
        match r {
            None => delta_content(*d) is None,
            Some(None) => delta_content(*d) == Some(None::<Seq<char>>),
            Some(Some(s)) => delta_content(*d) == Some(Some(s@)),
        },
{
    match d {
        Json::Object(m) => match lookup_exec(m, "content") {
            None => Some(None),
            Some(Json::Null) => Some(None),
            Some(Json::Str(s)) => Some(Some(s.clone())),
            Some(_) => None,
        },
        _ => None,
    }
}

fn choice_content_exec(c: &Json) -> (r: Option<Option<String>>)
    ensures
        match r {
            None => choice_content(*c) is None,
            Some(None) => choice_content(*c) == Some(None::<Seq<char>>),
            Some(Some(s)) => choice_content(*c) == Some(Some(s@)),
        },
{
    match c {
        Json::Object(m) => match lookup_exec(m, "delta") {
            Some(d) => delta_content_exec(d),
            None => None,
        },
        _ => None,
    }
}

fn chunk_content_exec(v: &Json) -> (r: Option<Option<String>>)
    ensures
        match r {
            None => chunk_content(*v) is None,
            Some(None) => chunk_content(*v) == Some(None::<Seq<char>>),
            Some(Some(s)) => chunk_content(*v) == Some(Some(s@)),
        },
{
    let m = match v {
        Json::Object(m) => m,
        _ => return None,
    };
    let items = match lookup_exec(m, "choices") {
        Some(Json::Array(items)) => items,
        _ => return None,
    };
    let mut first: Option<Option<String>> = None;
    let mut i: usize = 0;
    while i < items.len()
        invariant
            i <= items@.len(),
            *v == Json::Object(*m),
            lookup(m@, "choices"@) == Some(Json::Array(*items)),
            forall|k: int| 0 <= k < i ==> (#[trigger] choice_content(items@[k])) is Some,
            i > 0 ==> match first {
                None => false,
                Some(None) => choice_content(items@[0]) == Some(None::<Seq<char>>),
                Some(Some(s)) => choice_content(items@[0]) == Some(Some(s@)),
            },
        decreases items@.len() - i,
    {
        let c = choice_content_exec(&items[i]);
        if c.is_none() {
            assert(choice_content(items@[i as int]) is None);
            return None;
        }
        if i == 0 {
            first = c;
        }
        i = i + 1;
    }
    if items.len() == 0 {
        Some(None)
    } else {
        first
    }
}

fn stream_line_delta_exec(line: &[char]) -> (r: Option<String>)
    ensures
        crate::text::opt_view(r) == stream_line_delta(line@),
{
    let data = match crate::model::parse::sse_data_exec(line) {
        Some(d) => d,
        None => return None,
    };
    let value = match parse_json(data.as_str()) {
        Ok(v) => v,
        Err(_) => return None,
    };
    match chunk_content_exec(&value) {
        Some(Some(c)) => if c.as_str().is_empty() {
            None
        } else {
            Some(c)
        },
        _ => None,
    }
}

// ---------------------------------------------------------------------------
// Streamed tool calls

/// One streamed piece of a tool call: the call's index, and the name and argument
/// text the piece adds.
#[derive(Debug)]
pub struct CallFragment {
    pub index: u64,
    pub name: Option<String>,
    pub arguments: Option<String>,
}

/// A fragment as plain values.
pub open spec fn frag_view(f: CallFragment) -> (u64, Option<Seq<char>>, Option<Seq<char>>) {
    (f.index, crate::text::opt_view(f.name), crate::text::opt_view(f.arguments))
}

/// Fragments as plain values.
pub open spec fn frag_views(v: Seq<CallFragment>) -> Seq<(u64, Option<Seq<char>>, Option<Seq<char>>)> {
    v.map_values(|f: CallFragment| frag_view(f))
}

/// The text of an optional JSON member, when it is a string.
pub open spec fn opt_text(o: Option<Json>) -> Option<Seq<char>> {
    match o {
        Some(Json::Str(s)) => Some(s@),
        _ => None,
    }
}

/// The fragment an entry of a delta's `tool_calls` holds: its numeric `index`, and the
/// `name` and `arguments` texts of its `function`; `None` when it has no index.
pub open spec fn call_fragment(tc: Json) -> Option<(u64, Option<Seq<char>>, Option<Seq<char>>)> {
    match tc {
        Json::Object(m) => match lookup(m@, "index"@) {
            Some(Json::Number(crate::json::JsonNumber::PosInt(i))) => match lookup(m@, "function"@) {
                Some(Json::Object(f)) => Some((i, opt_text(lookup(f@, "name"@)), opt_text(lookup(f@, "arguments"@)))),
                _ => Some((i, None, None)),
            },
            _ => None,
        },
        _ => None,
    }
}

/// The fragments of a delta's `tool_calls` entries, in order (entries without an index
/// are skipped).
pub open spec fn fragments_of(tcs: Seq<Json>) -> Seq<(u64, Option<Seq<char>>, Option<Seq<char>>)>
    decreases tcs.len(),
{
    if tcs.len() == 0 {
        Seq::empty()
    } else {
        let prev = fragments_of(tcs.drop_last());
        match call_fragment(tcs.last()) {
            Some(f) => prev.push(f),
            None => prev,
        }
    }
}

/// The tool-call fragments of a stream chunk: those of its first choice's delta.
pub open spec fn chunk_calls(v: Json) -> Seq<(u64, Option<Seq<char>>, Option<Seq<char>>)> {
    match v {
        Json::Object(m) => match lookup(m@, "choices"@) {
            Some(Json::Array(items)) => if items@.len() > 0 {
                match items@[0] {
                    Json::Object(c) => match lookup(c@, "delta"@) {
                        Some(Json::Object(d)) => match lookup(d@, "tool_calls"@) {
                            Some(Json::Array(tcs)) => fragments_of(tcs@),
                            _ => Seq::empty(),
                        },
                        _ => Seq::empty(),
                    },
                    _ => Seq::empty(),
                }
            } else {
                Seq::empty()
            },
            _ => Seq::empty(),
        },
        _ => Seq::empty(),
    }
}

/// The tool-call fragments a stream line carries.
pub open spec fn stream_line_calls(line: Seq<char>) -> Seq<(u64, Option<Seq<char>>, Option<Seq<char>>)> {
    match sse_data(line) {
        None => Seq::empty(),
        Some(d) => match serde_parse(d) {
            Err(_) => Seq::empty(),
            Ok(v) => chunk_calls(v),
        },
    }
}

/// The tool-call fragments of complete stream lines, in order.
pub open spec fn stream_calls(lines: Seq<Seq<char>>) -> Seq<(u64, Option<Seq<char>>, Option<Seq<char>>)>
    decreases lines.len(),
{
    if lines.len() == 0 {
        Seq::empty()
    } else {
        stream_calls(lines.drop_last()) + stream_line_calls(lines.last())
    }
}

fn opt_text_exec(o: Option<&Json>) -> (r: Option<String>)
    ensures
        crate::text::opt_view(r) == opt_text(match o {
            Some(j) => Some(*j),
            None => None,
        }),
{
    match o {
        Some(Json::Str(s)) => Some(s.clone()),
        _ => None,
    }
}

fn call_fragment_exec(tc: &Json) -> (r: Option<CallFragment>)
    ensures
        match r {
            Some(f) => call_fragment(*tc) == Some(frag_view(f)),
            None => call_fragment(*tc) is None,
        },
{
    let m = match tc {
        Json::Object(m) => m,
        _ => return None,
    };
    let index = match lookup_exec(m, "index") {
        Some(Json::Number(crate::json::JsonNumber::PosInt(i))) => *i,
        _ => return None,
    };
    match lookup_exec(m, "function") {
        Some(Json::Object(f)) => Some(
            CallFragment {
                index,
                name: opt_text_exec(lookup_exec(f, "name")),
                arguments: opt_text_exec(lookup_exec(f, "arguments")),
            },
        ),
        _ => Some(CallFragment { index, name: None, arguments: None }),
    }
}

fn fragments_exec(tcs: &Vec<Json>) -> (r: Vec<CallFragment>)
    ensures
        frag_views(r@) == fragments_of(tcs@),
{
    let mut out: Vec<CallFragment> = Vec::new();
    let mut i: usize = 0;
    assert(tcs@.take(0) =~= Seq::<Json>::empty());
    while i < tcs.len()
        invariant
            i <= tcs@.len(),
            frag_views(out@) == fragments_of(tcs@.take(i as int)),
        decreases tcs@.len() - i,
    {
        assert(tcs@.take(i + 1).drop_last() =~= tcs@.take(i as int));
        assert(tcs@.take(i + 1).last() == tcs@[i as int]);
        match call_fragment_exec(&tcs[i]) {
            Some(f) => {
                let ghost before = out@;
                out.push(f);
                assert(frag_views(out@) =~= frag_views(before).push(frag_view(f)));
            },
            None => {},
        }
        i = i + 1;
    }
    assert(tcs@.take(i as int) =~= tcs@);
    out
}

fn chunk_calls_exec(v: &Json) -> (r: Vec<CallFragment>)
    ensures
        frag_views(r@) == chunk_calls(*v),
{
    let empty: Vec<CallFragment> = Vec::new();
    assert(frag_views(empty@) =~= Seq::empty());
    let m = match v {
        Json::Object(m) => m,
        _ => return empty,
    };
    let items = match lookup_exec(m, "choices") {
        Some(Json::Array(items)) => items,
        _ => return empty,
    };
    if items.len() == 0 {
        return empty;
    }
    let c = match &items[0] {
        Json::Object(c) => c,
        _ => return empty,
    };
    let d = match lookup_exec(c, "delta") {
        Some(Json::Object(d)) => d,
        _ => return empty,
    };
    match lookup_exec(d, "tool_calls") {
        Some(Json::Array(tcs)) => fragments_exec(tcs),
        _ => empty,
    }
}

fn stream_line_calls_exec(line: &[char]) -> (r: Vec<CallFragment>)
    ensures
        frag_views(r@) == stream_line_calls(line@),
{
    let empty: Vec<CallFragment> = Vec::new();
    assert(frag_views(empty@) =~= Seq::empty());
    let data = match crate::model::parse::sse_data_exec(line) {
        Some(d) => d,
        None => return empty,
    };
    match parse_json(data.as_str()) {
        Ok(v) => chunk_calls_exec(&v),
        Err(_) => empty,
    }
}

/// A tool call being assembled: its index, name and argument text so far.
pub open spec fn draft_index(ds: Seq<(u64, Seq<char>, Seq<char>)>, idx: u64) -> Option<int>
    decreases ds.len(),
{
    if ds.len() == 0 {
        None
    } else {
        match draft_index(ds.drop_last(), idx) {
            Some(i) => Some(i),
            None => if ds.last().0 == idx {
                Some(ds.len() - 1)
            } else {
                None
            },
        }
    }
}

proof fn lemma_draft_index(ds: Seq<(u64, Seq<char>, Seq<char>)>, idx: u64)
    ensures
        match draft_index(ds, idx) {
            Some(i) => 0 <= i < ds.len() && ds[i].0 == idx && forall|j: int| 0 <= j < i ==> ds[j].0 != idx,
            None => forall|j: int| 0 <= j < ds.len() ==> ds[j].0 != idx,
        },
    decreases ds.len(),
{
    if ds.len() > 0 {
        lemma_draft_index(ds.drop_last(), idx);
        assert forall|j: int| 0 <= j < ds.len() - 1 implies ds[j] == ds.drop_last()[j] by {}
    }
}

/// A text, or the empty text.
pub open spec fn or_empty(o: Option<Seq<char>>) -> Seq<char> {
    match o {
        Some(t) => t,
        None => Seq::empty(),
    }
}

/// Add a fragment to the calls assembled so far: its name and argument texts are
/// appended to the call with its index, or start a new call.
pub open spec fn merge_fragment(
    ds: Seq<(u64, Seq<char>, Seq<char>)>,
    f: (u64, Option<Seq<char>>, Option<Seq<char>>),
) -> Seq<(u64, Seq<char>, Seq<char>)> {
    match draft_index(ds, f.0) {
        Some(i) => ds.update(i, (f.0, ds[i].1 + or_empty(f.1), ds[i].2 + or_empty(f.2))),
        None => ds.push((f.0, or_empty(f.1), or_empty(f.2))),
    }
}

/// The tool calls the fragments assemble, in order of first appearance.
pub open spec fn assemble(fs: Seq<(u64, Option<Seq<char>>, Option<Seq<char>>)>) -> Seq<(u64, Seq<char>, Seq<char>)>
    decreases fs.len(),
{
    if fs.len() == 0 {
        Seq::empty()
    } else {
        merge_fragment(assemble(fs.drop_last()), fs.last())
    }
}

/// Drafts as plain values.
pub open spec fn draft_views(v: Seq<(u64, Vec<char>, Vec<char>)>) -> Seq<(u64, Seq<char>, Seq<char>)> {
    v.map_values(|d: (u64, Vec<char>, Vec<char>)| (d.0, d.1@, d.2@))
}

fn opt_chars(o: &Option<String>) -> (r: Vec<char>)
    ensures
        r@ == or_empty(crate::text::opt_view(*o)),
{
    match o {
        Some(s) => chars_of(s.as_str()),
        None => Vec::new(),
    }
}

fn joined(a: &Vec<char>, b: &Vec<char>) -> (r: Vec<char>)
    ensures
        r@ == a@ + b@,
{
    let mut out = copy_vec(a);
    let mut i: usize = 0;
    while i < b.len()
        invariant
            i <= b@.len(),
            out@ == a@ + b@.take(i as int),
        decreases b@.len() - i,
    {
        out.push(b[i]);
        i = i + 1;
        assert(out@ =~= a@ + b@.take(i as int));
    }
    assert(b@.take(b@.len() as int) =~= b@);
    out
}

fn assemble_exec(frags: &Vec<CallFragment>) -> (r: Vec<(u64, Vec<char>, Vec<char>)>)
    ensures
        draft_views(r@) == assemble(frag_views(frags@)),
{
    let ghost fv = frag_views(frags@);
    let mut ds: Vec<(u64, Vec<char>, Vec<char>)> = Vec::new();
    let mut i: usize = 0;
    assert(fv.take(0) =~= Seq::empty());
    assert(draft_views(ds@) =~= Seq::empty());
    while i < frags.len()
        invariant
            i <= frags@.len(),
            fv == frag_views(frags@),
            draft_views(ds@) == assemble(fv.take(i as int)),
        decreases frags@.len() - i,
    {
        let ghost before = draft_views(ds@);
        assert(fv.take(i + 1).drop_last() =~= fv.take(i as int));
        assert(fv.take(i + 1).last() == frag_view(frags@[i as int]));
        let f = &frags[i];
        let name = opt_chars(&f.name);
        let args = opt_chars(&f.arguments);
        proof {
            lemma_draft_index(before, f.index);
        }
        let mut k: usize = 0;
        while k < ds.len() && ds[k].0 != f.index
            invariant
                k <= ds@.len(),
                before == draft_views(ds@),
                forall|j: int| 0 <= j < k ==> ds@[j].0 != f.index,
            decreases ds@.len() - k,
        {
            k = k + 1;
        }
        if k < ds.len() {
            assert(before[k as int].0 == f.index);
            assert(draft_index(before, f.index) == Some(k as int));
            let n = joined(&ds[k].1, &name);
            let a = joined(&ds[k].2, &args);
            ds.set(k, (f.index, n, a));
            assert(draft_views(ds@) =~= merge_fragment(before, frag_view(*f)));
        } else {
            assert(draft_index(before, f.index) is None);
            ds.push((f.index, name, args));
            assert(draft_views(ds@) =~= merge_fragment(before, frag_view(*f)));
        }
        i = i + 1;
    }
    assert(fv.take(i as int) =~= fv);
    ds
}

/// The name a wire name stands for: the first offered tool whose wire name it is, else
/// the wire name itself.
pub open spec fn canonical_name(wire: Seq<char>, tools: Seq<ToolSpec>) -> Seq<char>
    decreases tools.len(),
{
    if tools.len() == 0 {
        wire
    } else if wire_name(tools[0].name@) == wire {
        tools[0].name@
    } else {
        canonical_name(wire, tools.drop_first())
    }
}

fn canonical_name_exec(wire: &Vec<char>, tools: &Vec<ToolSpec>) -> (r: String)
    ensures
        r@ == canonical_name(wire@, tools@),
{
    let mut i: usize = 0;
    assert(tools@.skip(0) =~= tools@);
    while i < tools.len()
        invariant
            i <= tools@.len(),
            canonical_name(wire@, tools@) == canonical_name(wire@, tools@.skip(i as int)),
        decreases tools@.len() - i,
    {
        assert(tools@.skip(i as int).drop_first() =~= tools@.skip(i + 1));
        assert(tools@.skip(i as int)[0] == tools@[i as int]);
        let w = wire_name_exec(tools[i].name.as_str());
        let wc = chars_of(w.as_str());
        if crate::text::seq_eq(wc.as_slice(), wire.as_slice()) {
            return tools[i].name.clone();
        }
        i = i + 1;
    }
    assert(tools@.skip(i as int) =~= Seq::<ToolSpec>::empty());
    string_of(wire.as_slice())
}

/// Arguments `j` read from an assembled argument text: an empty object for no text,
/// else the JSON the text parses to.
pub open spec fn call_args_ok(text: Seq<char>, j: Json) -> bool {
    if text.len() == 0 {
        j matches Json::Object(m) && m@.len() == 0
    } else {
        serde_parse(text) == Ok::<Json, Seq<char>>(j)
    }
}

/// The parse error of the first assembled call whose argument text is not JSON.
pub open spec fn first_bad_args(ds: Seq<(u64, Seq<char>, Seq<char>)>) -> Option<Seq<char>>
    decreases ds.len(),
{
    if ds.len() == 0 {
        None
    } else {
        match first_bad_args(ds.drop_last()) {
            Some(e) => Some(e),
            None => if ds.last().2.len() > 0 && serde_parse(ds.last().2) is Err {
                Some(serde_parse(ds.last().2)->Err_0)
            } else {
                None
            },
        }
    }
}

/// The error for tool-call arguments that are not JSON.
pub open spec fn bad_args_error(provider: Seq<char>, e: Seq<char>) -> Seq<char> {
    provider + ": tool call arguments are not JSON: "@ + e
}

fn tool_calls_of(provider: &str, ds: &Vec<(u64, Vec<char>, Vec<char>)>, tools: &Vec<ToolSpec>) -> (r: Result<
    Vec<ToolCall>,
    ModelError,
>)
    ensures
        match first_bad_args(draft_views(ds@)) {
            Some(e) => r matches Err(x) && x.message@ == bad_args_error(provider@, e),
            None => r matches Ok(calls) && calls@.len() == ds@.len() && forall|i: int|
                0 <= i < ds@.len() ==> (#[trigger] calls@[i]).name@ == canonical_name(ds@[i].1@, tools@)
                    && call_args_ok(ds@[i].2@, calls@[i].arguments),
        },
{
    let ghost dv = draft_views(ds@);
    let mut out: Vec<ToolCall> = Vec::new();
    let mut i: usize = 0;
    assert(dv.take(0) =~= Seq::empty());
    while i < ds.len()
        invariant
            i <= ds@.len(),
            dv == draft_views(ds@),
            first_bad_args(dv.take(i as int)) is None,
            out@.len() == i,
            forall|k: int|
                0 <= k < i ==> (#[trigger] out@[k]).name@ == canonical_name(ds@[k].1@, tools@)
                    && call_args_ok(ds@[k].2@, out@[k].arguments),
        decreases ds@.len() - i,
    {
        assert(dv.take(i + 1).drop_last() =~= dv.take(i as int));
        assert(dv.take(i + 1).last() == dv[i as int]);
        let name = canonical_name_exec(&ds[i].1, tools);
        let arguments = if ds[i].2.len() == 0 {
            Json::Object(Vec::new())
        } else {
            let t = string_of(ds[i].2.as_slice());
            match parse_json(t.as_str()) {
                Ok(j) => j,
                Err(e) => {
                    proof {
                        lemma_first_bad_prefix(dv, i as int);
                    }
                    return Err(
                        ModelError::new(
                            String::from_str(provider).concat(": tool call arguments are not JSON: ").concat(
                                e.as_str(),
                            ),
                        ),
                    );
                },
            }
        };
        out.push(ToolCall { name, arguments });
        i = i + 1;
    }
    assert(dv.take(i as int) =~= dv);
    Ok(out)
}

proof fn lemma_first_bad_prefix(ds: Seq<(u64, Seq<char>, Seq<char>)>, i: int)
    requires
        0 <= i < ds.len(),
        first_bad_args(ds.take(i)) is None,
        ds[i].2.len() > 0,
        serde_parse(ds[i].2) is Err,
    ensures
        first_bad_args(ds) == Some(serde_parse(ds[i].2)->Err_0),
    decreases ds.len(),
{
    if i == ds.len() - 1 {
        assert(ds.drop_last() =~= ds.take(i));
    } else {
        assert(ds.drop_last().take(i) =~= ds.take(i));
        assert(ds.drop_last()[i] == ds[i]);
        lemma_first_bad_prefix(ds.drop_last(), i);
    }
}

/// A streamed Chat Completions response being read: the unfinished line, the deltas,
/// the content and the tool-call fragments gathered so far.
pub struct ChatStream {
    pub buffer: Vec<char>,
    pub deltas: Vec<String>,
    pub content: Vec<char>,
    pub fragments: Vec<CallFragment>,
}

impl ChatStream {
    pub fn new() -> (r: Self)
        ensures
            r.buffer@.len() == 0,
            r.deltas@.len() == 0,
            r.content@.len() == 0,
            r.fragments@.len() == 0,
    {
        ChatStream { buffer: Vec::new(), deltas: Vec::new(), content: Vec::new(), fragments: Vec::new() }
    }

    /// Takes a chunk of the body: each line it completes is read, the rest waits.
    pub fn feed(&mut self, chunk: &str)
        ensures
            ({
                let pieces = split(old(self).buffer@ + chunk@, '\n');
                let ds = stream_deltas(pieces.drop_last());
                &&& views(final(self).deltas@) == views(old(self).deltas@) + ds
                &&& final(self).content@ == old(self).content@ + concat_all(ds)
                &&& frag_views(final(self).fragments@) == frag_views(old(self).fragments@)
                    + stream_calls(pieces.drop_last())
                &&& final(self).buffer@ == pieces.last()
            }),
    {
        let mut all = copy_vec(&self.buffer);
        let c = chars_of(chunk);
        let mut k: usize = 0;
        while k < c.len()
            invariant
                k <= c@.len(),
                all@ == old(self).buffer@ + c@.take(k as int),
            decreases c@.len() - k,
        {
            all.push(c[k]);
            k = k + 1;
            assert(all@ =~= old(self).buffer@ + c@.take(k as int));
        }
        assert(c@.take(c@.len() as int) =~= c@);
        let pieces = split_exec(all.as_slice(), '\n');
        let ghost pv = pieces@.map_values(|v: Vec<char>| v@);
        proof {
            crate::text::lemma_split_nonempty(all@, '\n');
        }
        let n = pieces.len();
        let ghost d0 = views(self.deltas@);
        let ghost c0 = self.content@;
        let ghost f0 = frag_views(self.fragments@);
        let mut i: usize = 0;
        assert(pv.drop_last().take(0) =~= Seq::<Seq<char>>::empty());
        while i + 1 < n
            invariant
                n == pieces@.len(),
                n >= 1,
                i + 1 <= n,
                pv == pieces@.map_values(|v: Vec<char>| v@),
                views(self.deltas@) == d0 + stream_deltas(pv.drop_last().take(i as int)),
                self.content@ == c0 + concat_all(stream_deltas(pv.drop_last().take(i as int))),
                frag_views(self.fragments@) == f0 + stream_calls(pv.drop_last().take(i as int)),
            decreases n - i,
        {
            let ghost before = pv.drop_last().take(i as int);
            let ghost after = pv.drop_last().take(i + 1);
            assert(after.drop_last() =~= before);
            assert(after.last() == pieces@[i as int]@);
            assert(after.len() > 0);
            let ld = stream_line_delta_exec(pieces[i].as_slice());
            assert(crate::text::opt_view(ld) == stream_line_delta(after.last()));
            match ld {
                Some(d) => {
                    let dc = chars_of(d.as_str());
                    let mut j: usize = 0;
                    let ghost cb = self.content@;
                    while j < dc.len()
                        invariant
                            j <= dc@.len(),
                            self.content@ == cb + dc@.take(j as int),
                            views(self.deltas@) == d0 + stream_deltas(before),
                            frag_views(self.fragments@) == f0 + stream_calls(before),
                        decreases dc@.len() - j,
                    {
                        self.content.push(dc[j]);
                        j = j + 1;
                        assert(self.content@ =~= cb + dc@.take(j as int));
                    }
                    assert(dc@.take(dc@.len() as int) =~= dc@);
                    let ghost vb = views(self.deltas@);
                    self.deltas.push(d);
                    assert(views(self.deltas@) =~= vb.push(dc@));
                    assert(stream_line_delta(after.last()) == Some(dc@));
                    assert(stream_deltas(after) == stream_deltas(before).push(dc@));
                    assert(stream_deltas(before).push(dc@).drop_last() =~= stream_deltas(before));
                    assert(concat_all(stream_deltas(after)) == concat_all(stream_deltas(before)) + dc@);
                    assert(self.content@ =~= c0 + concat_all(stream_deltas(after)));
                    assert(d0 + stream_deltas(before).push(dc@) =~= (d0 + stream_deltas(before)).push(dc@));
                    assert(views(self.deltas@) =~= d0 + stream_deltas(after));
                },
                None => {
                    assert(stream_deltas(after) == stream_deltas(before));
                },
            }
            let mut lc = stream_line_calls_exec(pieces[i].as_slice());
            let ghost fb = self.fragments@;
            let ghost lcv = lc@;
            self.fragments.append(&mut lc);
            assert(frag_views(self.fragments@) =~= frag_views(fb) + frag_views(lcv));
            assert(stream_calls(after) == stream_calls(before) + stream_line_calls(after.last()));
            assert(frag_views(self.fragments@) =~= f0 + stream_calls(after));
            i = i + 1;
        }
        assert(pv.drop_last().take(i as int) =~= pv.drop_last());
        self.buffer = copy_vec(&pieces[n - 1]);
    }

    /// The completion once the body is read: the content, the deltas and the assembled
    /// tool calls (named as the offered `tools` are, arguments parsed); neither content
    /// nor a tool call is an error, and so are arguments that are not JSON.
    pub fn finish(self, provider: &str, tools: &Vec<ToolSpec>) -> (r: Result<ModelResponse, ModelError>)
        ensures
            ({
                let ds = assemble(frag_views(self.fragments@));
                &&& self.content@.len() == 0 && self.deltas@.len() == 0 && ds.len() == 0 ==> (r matches Err(e)
                    && e.message@ == provider@ + " stream produced no content"@)
                &&& !(self.content@.len() == 0 && self.deltas@.len() == 0 && ds.len() == 0) ==> match first_bad_args(ds) {
                    Some(e) => r matches Err(x) && x.message@ == bad_args_error(provider@, e),
                    None => r matches Ok(resp) && {
                        &&& resp.content@ == self.content@
                        &&& views(resp.deltas@) == views(self.deltas@)
                        &&& resp.tool_calls@.len() == ds.len()
                        &&& forall|i: int|
                            0 <= i < ds.len() ==> (#[trigger] resp.tool_calls@[i]).name@ == canonical_name(
                                ds[i].1,
                                tools@,
                            ) && call_args_ok(ds[i].2, resp.tool_calls@[i].arguments)
                        &&& resp.tokens_used == if self.content@.len() == 0 {
                            1
                        } else {
                            self.content@.len()
                        }
                    },
                }
            }),
    {
        let ds = assemble_exec(&self.fragments);
        if self.content.len() == 0 && self.deltas.len() == 0 && ds.len() == 0 {
            return Err(ModelError::new(String::from_str(provider).concat(" stream produced no content")));
        }
        let calls = match tool_calls_of(provider, &ds, tools) {
            Ok(c) => c,
            Err(e) => {
                return Err(e);
            },
        };
        let n = self.content.len() as u64;
        let tokens = if n == 0 {
            1
        } else {
            n
        };
        Ok(ModelResponse {
            content: string_of(self.content.as_slice()),
            deltas: self.deltas,
            tool_calls: calls,
            tokens_used: tokens,
        })
    }
}

fn copy_vec(v: &Vec<char>) -> (r: Vec<char>)
    ensures
        r@ == v@,
{
    crate::text::copy_chars(v.as_slice())
}

/// The error for a non-success HTTP status from an API provider.
pub open spec fn api_status_error(provider: Seq<char>, code: u16) -> Seq<char> {
    provider + ": upstream HTTP "@ + http_status_text(code)
}

/// Success for a 2xx status; otherwise the provider's status error (no body echoed).
pub fn check_api_status(provider: &str, status: u16) -> (r: Result<(), ModelError>)
    requires
        100 <= status <= 999,
    ensures
        200 <= status <= 299 ==> r is Ok,
        !(200 <= status <= 299) ==> (r matches Err(e) && e.message@ == api_status_error(
            provider@,
            status,
        ) && crate::text::starts_with(
            e.message@,
            provider@ + ": upstream HTTP "@ + crate::text::decimal(status as nat) + " "@,
        )),
{
    if 200 <= status && status <= 299 {
        Ok(())
    } else {
        let st = status_text(status);
        let head = String::from_str(provider).concat(": upstream HTTP ");
        let msg = head.concat(st.as_str());
        proof {
            let d = crate::text::decimal(status as nat) + " "@;
            assert(msg@ == head@ + st@);
            assert(msg@.take((head@ + d).len() as int) =~= head@ + d) by {
                assert(st@.take(d.len() as int) == d);
                assert forall|k: int| 0 <= k < (head@ + d).len() implies msg@[k] == (head@ + d)[k] by {
                    if k >= head@.len() {
                        assert(msg@[k] == st@[k - head@.len()]);
                        assert(st@.take(d.len() as int)[k - head@.len()] == st@[k - head@.len()]);
                    }
                }
            }
            assert(head@ + d =~= provider@ + ": upstream HTTP "@ + crate::text::decimal(status as nat)
                + " "@);
            assert((head@ + d).len() <= msg@.len());
        }
        Err(ModelError::new(msg))
    }
}

/// The error for a request that never got a response.
pub fn request_failed(provider: &str, err: &str) -> (r: ModelError)
    ensures
        r.message@ == provider@ + " request failed: "@ + err@,
{
    ModelError::new(String::from_str(provider).concat(" request failed: ").concat(err))
}

} // verus!
