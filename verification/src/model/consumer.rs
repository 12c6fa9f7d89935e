//! Consumer web-session providers (ChatGPT browser session, ChatGPT subscription via
//! Codex, Grok web): request shapes, response reading, and their configuration.

use crate::domain::{HttpRequestPlan, Message, MessageRole, ModelRequest, ModelResponse};
use crate::json::{is_text, member, size, text, Json};
use crate::model::auth::{
    joined_url, nonempty, pairs_view, resolved_model, result_view, ConsumerWebAuth,
    ConsumerWebConfig,
};
use crate::model::error::{redact_secrets, redacted, ModelError};
use crate::model::openai_compatible::{concat_all, openai_role, opt_view_ref};
use crate::model::parse::{json_content, parse_json_content, parse_sse_text_deltas, sse_deltas};
use crate::text::{chars_of, contains, contains_seq, string_of, views};
use base64::Engine;
use vstd::prelude::*;

verus! {

/// A fresh random UUID (v4) in its hyphenated text form.
fn new_uuid() -> (r: String)
    ensures
        exists|id: u128| r@ == crate::storage::records::uuid_text(id),
{
    let id = crate::storage::records::random_uuid();
    crate::storage::records::uuid_string(id)
}

/// A completion read from a consumer web response: the content and the deltas.
pub open spec fn web_completion(provider: Seq<char>, body: Seq<char>) -> Result<
    (Seq<char>, Seq<Seq<char>>),
    Seq<char>,
> {
    let parsed: Option<(Seq<char>, Seq<Seq<char>>)> = if contains(body, "data:"@) {
        Some((concat_all(sse_deltas(body)), sse_deltas(body)))
    } else {
        match json_content(body) {
            Some(c) => Some((c, seq![c])),
            None => None,
        }
    };
    match parsed {
        None => Err(provider + ": could not parse response (wire format may have changed)"@),
        Some((c, ds)) => if c.len() == 0 {
            Err(provider + ": empty completion"@)
        } else {
            Ok((c, ds))
        },
    }
}

/// `resp` carries exactly `content` and `deltas`, no tool calls, and one token per
/// character (at least one).
pub open spec fn response_ok(resp: ModelResponse, content: Seq<char>, deltas: Seq<Seq<char>>) -> bool {
    &&& resp.content@ == content
    &&& views(resp.deltas@) == deltas
    &&& resp.tool_calls@.len() == 0
    &&& resp.tokens_used == if content.len() == 0 {
        1
    } else {
        content.len()
    }
}

/// The concatenation of some deltas.
pub fn concat_deltas(deltas: &Vec<String>) -> (r: String)
    ensures
        r@ == concat_all(views(deltas@)),
{
    let mut out: Vec<char> = Vec::new();
    let mut i: usize = 0;
    assert(views(deltas@).take(0) =~= Seq::<Seq<char>>::empty());
    while i < deltas.len()
        invariant
            i <= deltas@.len(),
            out@ == concat_all(views(deltas@).take(i as int)),
        decreases deltas@.len() - i,
    {
        let d = chars_of(deltas[i].as_str());
        let ghost before = out@;
        let mut j: usize = 0;
        while j < d.len()
            invariant
                j <= d@.len(),
                out@ == before + d@.take(j as int),
            decreases d@.len() - j,
        {
            out.push(d[j]);
            j = j + 1;
            assert(out@ =~= before + d@.take(j as int));
        }
        assert(d@.take(d@.len() as int) =~= d@);
        assert(views(deltas@).take(i + 1).drop_last() =~= views(deltas@).take(i as int));
        i = i + 1;
    }
    assert(views(deltas@).take(i as int) =~= views(deltas@));
    string_of(out.as_slice())
}

fn completed(content: String, deltas: Vec<String>) -> (r: ModelResponse)
    ensures
        response_ok(r, content@, views(deltas@)),
{
    let n = chars_of(content.as_str()).len() as u64;
    let tokens = if n == 0 {
        1
    } else {
        n
    };
    ModelResponse { content, deltas, tool_calls: Vec::new(), tokens_used: tokens }
}

/// Read a consumer web response body: SSE when it holds `data:` lines, else a JSON
/// message; no content is an error.
pub fn interpret_web_body(provider: &str, body: &str) -> (r: Result<ModelResponse, ModelError>)
    ensures
        match r {
            Ok(resp) => web_completion(provider@, body@) matches Ok((c, ds)) && response_ok(
                resp,
                c,
                ds,
            ),
            Err(e) => web_completion(provider@, body@) == Err::<
                (Seq<char>, Seq<Seq<char>>),
                Seq<char>,
            >(e.message@),
        },
{
    let cs = chars_of(body);
    let marker = chars_of("data:");
    let (content, deltas) = if contains_seq(cs.as_slice(), marker.as_slice()) {
        let deltas = parse_sse_text_deltas(body);
        (concat_deltas(&deltas), deltas)
    } else {
        match parse_json_content(body) {
            Some(c) => {
                let mut ds: Vec<String> = Vec::new();
                ds.push(c.clone());
                assert(views(ds@) =~= seq![c@]);
                (c, ds)
            },
            None => {
                return Err(
                    ModelError::new(
                        String::from_str(provider).concat(
                            ": could not parse response (wire format may have changed)",
                        ),
                    ),
                );
            },
        }
    };
    if content.as_str().is_empty() {
        return Err(ModelError::new(String::from_str(provider).concat(": empty completion")));
    }
    Ok(completed(content, deltas))
}

/// The error for a request that failed before a response, secrets redacted.
pub fn request_failed_redacted(provider: &str, what: &str, err: &str, secrets: &[String]) -> (r:
    ModelError)
    ensures
        r.message@ == redacted(provider@ + " "@ + what@ + " failed: "@ + err@, views(secrets@)),
{
    let raw = String::from_str(provider).concat(" ").concat(what).concat(" failed: ").concat(err);
    ModelError::new(redact_secrets(raw.as_str(), secrets))
}

/// The session headers a provider sends: the bearer token (when `bearer`), the cookie
/// (when `cookie`), then the extra headers.
pub open spec fn session_headers(auth: ConsumerWebAuth, bearer: bool, cookie: bool) -> Seq<
    (Seq<char>, Seq<char>),
> {
    let b = if bearer && auth.bearer_token is Some {
        seq![("authorization"@, "Bearer "@ + auth.bearer_token->Some_0@)]
    } else {
        Seq::empty()
    };
    let c = if cookie && auth.cookie_header is Some {
        seq![("cookie"@, auth.cookie_header->Some_0@)]
    } else {
        Seq::empty()
    };
    b + c + pairs_view(auth.extra_headers@)
}

fn push_session_headers(
    headers: &mut Vec<(String, String)>,
    auth: &ConsumerWebAuth,
    bearer: bool,
    cookie: bool,
)
    ensures
        pairs_view(final(headers)@) == pairs_view(old(headers)@) + session_headers(
            *auth,
            bearer,
            cookie,
        ),
{
    let ghost h0 = pairs_view(headers@);
    if bearer {
        if let Some(t) = &auth.bearer_token {
            headers.push(
                (String::from_str("authorization"), String::from_str("Bearer ").concat(t.as_str())),
            );
        }
    }
    let ghost h1 = pairs_view(headers@);
    assert(h1 =~= h0 + (if bearer && auth.bearer_token is Some {
        seq![("authorization"@, "Bearer "@ + auth.bearer_token->Some_0@)]
    } else {
        Seq::empty()
    }));
    if cookie {
        if let Some(c) = &auth.cookie_header {
            headers.push((String::from_str("cookie"), c.clone()));
        }
    }
    let ghost h2 = pairs_view(headers@);
    let mut i: usize = 0;
    while i < auth.extra_headers.len()
        invariant
            i <= auth.extra_headers@.len(),
            pairs_view(headers@) == h2 + pairs_view(auth.extra_headers@.take(i as int)),
        decreases auth.extra_headers@.len() - i,
    {
        let (k, v) = &auth.extra_headers[i];
        let ghost hb = headers@;
        let kc = k.clone();
        let vc = v.clone();
        headers.push((kc, vc));
        assert(headers@ == hb.push((kc, vc)));
        assert(auth.extra_headers@.take(i + 1) =~= auth.extra_headers@.take(i as int).push(
            auth.extra_headers@[i as int],
        ));
        assert(pairs_view(hb.push((kc, vc))) =~= pairs_view(hb).push((k@, v@)));
        assert(pairs_view(auth.extra_headers@.take(i as int).push(auth.extra_headers@[i as int]))
            =~= pairs_view(auth.extra_headers@.take(i as int)).push((k@, v@)));
        i = i + 1;
        assert(pairs_view(headers@) =~= h2 + pairs_view(auth.extra_headers@.take(i as int)));
    }
    assert(auth.extra_headers@.take(i as int) =~= auth.extra_headers@);
    assert(pairs_view(headers@) =~= h0 + session_headers(*auth, bearer, cookie));
}

/// The JSON content type, then the event-stream accept header.
pub open spec fn stream_headers() -> Seq<(Seq<char>, Seq<char>)> {
    seq![("content-type"@, "application/json"@), ("accept"@, "text/event-stream"@)]
}

fn start_headers() -> (r: Vec<(String, String)>)
    ensures
        pairs_view(r@) == stream_headers(),
{
    let mut h: Vec<(String, String)> = Vec::new();
    h.push((String::from_str("content-type"), String::from_str("application/json")));
    h.push((String::from_str("accept"), String::from_str("text/event-stream")));
    assert(pairs_view(h@) =~= stream_headers());
    h
}

// ---------------------------------------------------------------------------
// ChatGPT browser session (`openai_web`)

/// `m` is a ChatGPT conversation message with some text id, this author role and text.
pub open spec fn is_chatgpt_message(m: Json, role: Seq<char>, content: Seq<char>) -> bool {
    &&& size(m) == 3
    &&& member(m, 0, "id"@) matches Some(i) && crate::json::str_of(i) is Some
    &&& member(m, 1, "author"@) matches Some(a) && size(a) == 1 && (member(a, 0, "role"@) matches Some(
        r,
    ) && is_text(r, role))
    &&& member(m, 2, "content"@) matches Some(c) && {
        &&& size(c) == 2
        &&& member(c, 0, "content_type"@) matches Some(t) && is_text(t, "text"@)
        &&& member(c, 1, "parts"@) matches Some(Json::Array(ps)) && ps@.len() == 1 && is_text(
            ps@[0],
            content,
        )
    }
}

/// The id of a conversation message.
pub open spec fn message_id(m: Json) -> Option<Seq<char>> {
    match member(m, 0, "id"@) {
        Some(i) => crate::json::str_of(i),
        None => None,
    }
}

/// The (role, text) pairs a request sends: its Transcript, or its goal as a user turn.
pub open spec fn turns(request: ModelRequest) -> Seq<(Seq<char>, Seq<char>)> {
    if request.transcript@.len() == 0 {
        seq![("user"@, request.goal@)]
    } else {
        request.transcript@.map_values(|m: Message| (openai_role(m.role), m.content@))
    }
}

/// The ChatGPT conversation body for `model`: one message per turn (each with its own
/// text id), the model, and a text parent id.
pub open spec fn chatgpt_body_ok(request: ModelRequest, model: Seq<char>, body: Json) -> bool {
    let ts = turns(request);
    &&& size(body) == 4
    &&& member(body, 0, "action"@) matches Some(a) && is_text(a, "next"@)
    &&& member(body, 1, "messages"@) matches Some(Json::Array(ms)) && {
        &&& ms@.len() == ts.len()
        &&& forall|i: int|
            0 <= i < ts.len() ==> is_chatgpt_message(#[trigger] ms@[i], ts[i].0, ts[i].1)
    }
    &&& member(body, 2, "model"@) matches Some(m) && is_text(m, model)
    &&& member(body, 3, "parent_message_id"@) matches Some(p) && crate::json::str_of(p) is Some
}

/// The body carries the message ids `ids` and the parent id `parent`.
pub open spec fn chatgpt_ids_ok(body: Json, ids: Seq<Seq<char>>, parent: Seq<char>) -> bool {
    &&& member(body, 1, "messages"@) matches Some(Json::Array(ms)) && ms@.len() == ids.len() && (
    forall|i: int| 0 <= i < ids.len() ==> message_id(#[trigger] ms@[i]) == Some(ids[i]))
    &&& member(body, 3, "parent_message_id"@) matches Some(p) && is_text(p, parent)
}

fn obj1(k: &str, v: Json) -> (r: Json)
    ensures
        size(r) == 1,
        member(r, 0, k@) == Some(v),
{
    let mut m: Vec<(String, Json)> = Vec::new();
    m.push((String::from_str(k), v));
    Json::Object(m)
}

fn obj2(k0: &str, v0: Json, k1: &str, v1: Json) -> (r: Json)
    ensures
        size(r) == 2,
        member(r, 0, k0@) == Some(v0),
        member(r, 1, k1@) == Some(v1),
{
    let mut m: Vec<(String, Json)> = Vec::new();
    m.push((String::from_str(k0), v0));
    m.push((String::from_str(k1), v1));
    Json::Object(m)
}

fn obj3(k0: &str, v0: Json, k1: &str, v1: Json, k2: &str, v2: Json) -> (r: Json)
    ensures
        size(r) == 3,
        member(r, 0, k0@) == Some(v0),
        member(r, 1, k1@) == Some(v1),
        member(r, 2, k2@) == Some(v2),
{
    let mut m: Vec<(String, Json)> = Vec::new();
    m.push((String::from_str(k0), v0));
    m.push((String::from_str(k1), v1));
    m.push((String::from_str(k2), v2));
    Json::Object(m)
}

fn arr1(v: Json) -> (r: Json)
    ensures
        r matches Json::Array(a) && a@ == seq![v],
{
    let mut a: Vec<Json> = Vec::new();
    a.push(v);
    assert(a@ =~= seq![v]);
    Json::Array(a)
}

fn chatgpt_message(id: &str, role: &str, content: &str) -> (r: Json)
    ensures
        is_chatgpt_message(r, role@, content@),
        message_id(r) == Some(id@),
{
    let author = obj1("role", text(role));
    let body = obj2("content_type", text("text"), "parts", arr1(text(content)));
    obj3("id", text(id), "author", author, "content", body)
}

fn role_name(r: MessageRole) -> (s: &'static str)
    ensures
        s@ == openai_role(r),
{
    match r {
        MessageRole::System => "system",
        MessageRole::User => "user",
        MessageRole::Assistant => "assistant",
        MessageRole::Tool => "user",
    }
}

/// The browser-session provider (`openai_web`): its configuration.
pub struct ChatGptWebProvider {
    pub config: ConsumerWebConfig,
}

impl ChatGptWebProvider {
    /// A provider for usable session material; otherwise the missing-session error.
    pub fn new(config: ConsumerWebConfig) -> (r: Result<Self, ModelError>)
        ensures
            config.auth.usable() ==> (r matches Ok(p) && p.config == config),
            !config.auth.usable() ==> (r matches Err(e) && e.message@
                == "openai_web: missing session cookie or access token"@),
    {
        if !config.auth.is_usable() {
            return Err(
                ModelError::new(String::from_str("openai_web: missing session cookie or access token")),
            );
        }
        Ok(ChatGptWebProvider { config })
    }

    /// The conversation body, given one fresh id per message and a parent id.
    pub fn build_body(request: &ModelRequest, model: &str, ids: &Vec<String>, parent: &str) -> (r:
        Json)
        requires
            ids@.len() == turns(*request).len(),
        ensures
            chatgpt_body_ok(*request, model@, r),
            chatgpt_ids_ok(r, views(ids@), parent@),
    {
        let ghost ts = turns(*request);
        let mut messages: Vec<Json> = Vec::new();
        if request.transcript.len() == 0 {
            messages.push(chatgpt_message(ids[0].as_str(), "user", request.goal.as_str()));
        } else {
            let mut i: usize = 0;
            while i < request.transcript.len()
                invariant
                    i <= request.transcript@.len(),
                    request.transcript@.len() > 0,
                    ts == turns(*request),
                    ids@.len() == ts.len(),
                    messages@.len() == i,
                    forall|k: int|
                        0 <= k < i ==> is_chatgpt_message(#[trigger] messages@[k], ts[k].0, ts[k].1)
                            && message_id(messages@[k]) == Some(views(ids@)[k]),
                decreases request.transcript@.len() - i,
            {
                let msg = &request.transcript[i];
                messages.push(
                    chatgpt_message(ids[i].as_str(), role_name(msg.role), msg.content.as_str()),
                );
                i = i + 1;
            }
        }
        let mut body: Vec<(String, Json)> = Vec::new();
        body.push((String::from_str("action"), text("next")));
        body.push((String::from_str("messages"), Json::Array(messages)));
        body.push((String::from_str("model"), text(model)));
        body.push((String::from_str("parent_message_id"), text(parent)));
        Json::Object(body)
    }

    /// The conversation request for a Run (fresh random ids), or the model error.
    pub fn plan_request(&self, request: &ModelRequest) -> (r: Result<HttpRequestPlan, ModelError>)
        ensures
            match r {
                Ok(plan) => {
                    &&& plan.url@ == joined_url(self.config.base_url@, self.config.path@)
                    &&& pairs_view(plan.headers@) == stream_headers() + session_headers(
                        self.config.auth,
                        true,
                        true,
                    )
                    &&& resolved_model(
                        self.config.provider_name@,
                        self.config.model@,
                        views(self.config.allowed_models@),
                        opt_view_ref(request.model),
                    ) matches Ok(m) && chatgpt_body_ok(*request, m, plan.body)
                },
                Err(e) => resolved_model(
                    self.config.provider_name@,
                    self.config.model@,
                    views(self.config.allowed_models@),
                    opt_view_ref(request.model),
                ) == Err::<Seq<char>, Seq<char>>(e.message@),
            },
    {
        let override_model = match &request.model {
            Some(m) => Some(m.as_str()),
            None => None,
        };
        let model = match self.config.resolve_model(override_model) {
            Ok(m) => m,
            Err(e) => return Err(ModelError::new(e)),
        };
        let n = if request.transcript.len() == 0 {
            1
        } else {
            request.transcript.len()
        };
        let mut ids: Vec<String> = Vec::new();
        while ids.len() < n
            invariant
                ids@.len() <= n,
            decreases n - ids@.len(),
        {
            ids.push(new_uuid());
        }
        let parent = new_uuid();
        let body = Self::build_body(request, model.as_str(), &ids, parent.as_str());
        assert(resolved_model(
            self.config.provider_name@,
            self.config.model@,
            views(self.config.allowed_models@),
            opt_view_ref(request.model),
        ) == Ok::<Seq<char>, Seq<char>>(model@));
        let mut headers = start_headers();
        push_session_headers(&mut headers, &self.config.auth, true, true);
        Ok(HttpRequestPlan { url: self.config.chat_url(), headers, body })
    }
}

// ---------------------------------------------------------------------------
// ChatGPT subscription through the Codex Responses wire (`openai_codex`)

/// What `URL_SAFE_NO_PAD.decode` (base64) gives for some text, if it decodes.
pub uninterp spec fn b64_url_nopad(s: Seq<char>) -> Option<Seq<u8>>;

/// What `URL_SAFE.decode` (padded base64) gives for some text, if it decodes.
pub uninterp spec fn b64_url_padded(s: Seq<char>) -> Option<Seq<u8>>;

/// Decodes URL-safe base64 without padding (`base64` `URL_SAFE_NO_PAD`).
#[verifier::external_body]
fn decode_b64_url_nopad(s: &str) -> (r: Option<Vec<u8>>)
    ensures
        match r {
            Some(b) => b64_url_nopad(s@) == Some(b@),
            None => b64_url_nopad(s@) is None,
        },
{
    base64::engine::general_purpose::URL_SAFE_NO_PAD.decode(s).ok()
}

/// Decodes URL-safe base64 with padding (`base64` `URL_SAFE`).
#[verifier::external_body]
fn decode_b64_url_padded(s: &str) -> (r: Option<Vec<u8>>)
    ensures
        match r {
            Some(b) => b64_url_padded(s@) == Some(b@),
            None => b64_url_padded(s@) is None,
        },
{
    base64::engine::general_purpose::URL_SAFE.decode(s).ok()
}

/// The ChatGPT account id a token's claims carry.
pub open spec fn account_id_claim(v: Json) -> Option<Seq<char>> {
    match crate::json::get(v, "https://api.openai.com/auth"@) {
        Some(a) => crate::json::get_str(a, "chatgpt_account_id"@),
        None => None,
    }
}

/// The account id of a JWT: its second dot-separated part, base64 (unpadded, else
/// padded) decoded, read as JSON claims.
pub open spec fn account_id_from_jwt(token: Seq<char>) -> Option<Seq<char>> {
    let parts = crate::text::split(token, '.');
    if parts.len() < 2 {
        None
    } else {
        let bytes = match b64_url_nopad(parts[1]) {
            Some(b) => Some(b),
            None => b64_url_padded(parts[1]),
        };
        match bytes {
            None => None,
            Some(b) => match crate::json::serde_parse_bytes(b) {
                None => None,
                Some(v) => account_id_claim(v),
            },
        }
    }
}

/// The account id in decoded token claims.
pub fn account_id_from_claims(v: &Json) -> (r: Option<String>)
    ensures
        crate::text::opt_view(r) == account_id_claim(*v),
{
    match crate::json::get_exec(v, "https://api.openai.com/auth") {
        Some(a) => match crate::json::get_str_exec(a, "chatgpt_account_id") {
            Some(s) => Some(s.clone()),
            None => None,
        },
        None => None,
    }
}

/// The ChatGPT account id carried in an access token's claims, if any.
pub fn extract_account_id_from_jwt(token: &str) -> (r: Option<String>)
    ensures
        crate::text::opt_view(r) == account_id_from_jwt(token@),
{
    let cs = chars_of(token);
    let parts = crate::text::split_exec(cs.as_slice(), '.');
    let ghost pv = parts@.map_values(|v: Vec<char>| v@);
    if parts.len() < 2 {
        return None;
    }
    let payload = string_of(parts[1].as_slice());
    assert(payload@ == pv[1]);
    let bytes = match decode_b64_url_nopad(payload.as_str()) {
        Some(b) => b,
        None => match decode_b64_url_padded(payload.as_str()) {
            Some(b) => b,
            None => return None,
        },
    };
    match crate::json::parse_json_bytes(bytes.as_slice()) {
        None => None,
        Some(v) => account_id_from_claims(&v),
    }
}

/// `hs` with `(k, v)` added unless a header named `k` is already there.
pub open spec fn with_default_header(
    hs: Seq<(Seq<char>, Seq<char>)>,
    k: Seq<char>,
    v: Seq<char>,
) -> Seq<(Seq<char>, Seq<char>)> {
    if exists|i: int| 0 <= i < hs.len() && (#[trigger] hs[i]).0 == k {
        hs
    } else {
        hs.push((k, v))
    }
}

fn add_default_header(hs: &mut Vec<(String, String)>, k: &str, v: &str)
    ensures
        pairs_view(final(hs)@) == with_default_header(pairs_view(old(hs)@), k@, v@),
{
    let mut i: usize = 0;
    while i < hs.len()
        invariant
            i <= hs@.len(),
            forall|j: int| 0 <= j < i ==> hs@[j].0@ != k@,
        decreases hs@.len() - i,
    {
        if crate::text::str_eq(hs[i].0.as_str(), k) {
            assert(pairs_view(hs@)[i as int].0 == k@);
            return;
        }
        i = i + 1;
    }
    let ghost before = hs@;
    hs.push((String::from_str(k), String::from_str(v)));
    assert(!exists|j: int| 0 <= j < pairs_view(before).len() && (#[trigger] pairs_view(before)[j]).0
        == k@) by {
        assert forall|j: int| 0 <= j < pairs_view(before).len() implies (#[trigger] pairs_view(
            before,
        )[j]).0 != k@ by {
            assert(pairs_view(before)[j].0 == before[j].0@);
        }
    }
    assert(pairs_view(hs@) =~= pairs_view(before).push((k@, v@)));
}

/// The extra headers a subscription session sends: those configured, then the account
/// id (twice) when known, the Responses beta flag and the originator, each unless set.
pub open spec fn codex_headers(
    configured: Seq<(Seq<char>, Seq<char>)>,
    account_id: Option<Seq<char>>,
) -> Seq<(Seq<char>, Seq<char>)> {
    let a = match account_id {
        Some(acct) => with_default_header(
            with_default_header(configured, "chatgpt-account-id"@, acct),
            "openai-account-id"@,
            acct,
        ),
        None => configured,
    };
    with_default_header(
        with_default_header(a, "openai-beta"@, "responses=experimental"@),
        "originator"@,
        "keryx"@,
    )
}

/// The environment values the subscription provider reads besides its secrets.
pub struct CodexEnv {
    pub models: Option<String>,
    pub reasoning_effort: Option<String>,
    pub base_url: Option<String>,
    pub path: Option<String>,
    pub model: Option<String>,
    pub user_agent: Option<String>,
}

/// The subscription provider (`openai_codex`): configuration and reasoning effort.
pub struct ChatGptCodexProvider {
    pub config: ConsumerWebConfig,
    /// Reasoning effort for Codex Responses (`low`, `medium`, `high`, ...).
    pub reasoning_effort: Option<String>,
}

/// The item of the Responses input for one turn.
pub open spec fn is_codex_item(j: Json, role: Seq<char>, content: Seq<char>) -> bool {
    let ctype = if role == "assistant"@ {
        "output_text"@
    } else {
        "input_text"@
    };
    &&& size(j) == 3
    &&& member(j, 0, "type"@) matches Some(t) && is_text(t, "message"@)
    &&& member(j, 1, "role"@) matches Some(r) && is_text(r, role)
    &&& member(j, 2, "content"@) matches Some(Json::Array(cs)) && cs@.len() == 1 && {
        let c = cs@[0];
        &&& size(c) == 2
        &&& member(c, 0, "type"@) matches Some(x) && is_text(x, ctype)
        &&& member(c, 1, "text"@) matches Some(x) && is_text(x, content)
    }
}

/// The Responses body for `model`: the turns as input items, streaming, not stored, and
/// the reasoning effort when one is set.
pub open spec fn codex_body_ok(
    request: ModelRequest,
    model: Seq<char>,
    effort: Option<String>,
    body: Json,
) -> bool {
    let ts = turns(request);
    &&& member(body, 0, "model"@) matches Some(m) && is_text(m, model)
    &&& member(body, 1, "input"@) matches Some(Json::Array(items)) && {
        &&& items@.len() == ts.len()
        &&& forall|i: int|
            0 <= i < ts.len() ==> is_codex_item(#[trigger] items@[i], ts[i].0, ts[i].1)
    }
    &&& member(body, 2, "stream"@) == Some(Json::Bool(true))
    &&& member(body, 3, "store"@) == Some(Json::Bool(false))
    &&& match effort {
        Some(e) => size(body) == 5 && (member(body, 4, "reasoning"@) matches Some(r) && size(r) == 1
            && (member(r, 0, "effort"@) matches Some(x) && is_text(x, e@))),
        None => size(body) == 4,
    }
}

fn codex_item(role: &str, content: &str) -> (r: Json)
    ensures
        is_codex_item(r, role@, content@),
{
    let ctype = if crate::text::str_eq(role, "assistant") {
        "output_text"
    } else {
        "input_text"
    };
    let part = obj2("type", text(ctype), "text", text(content));
    obj3("type", text("message"), "role", text(role), "content", arr1(part))
}

/// The subscription token is missing or empty.
pub open spec fn token_missing(auth: ConsumerWebAuth) -> bool {
    !nonempty(auth.bearer_token)
}

impl ChatGptCodexProvider {
    /// A provider without a reasoning effort.
    pub fn new(config: ConsumerWebConfig) -> (r: Result<Self, ModelError>)
        ensures
            !token_missing(config.auth) ==> (r matches Ok(p) && p.config == config
                && p.reasoning_effort is None),
            token_missing(config.auth) ==> (r matches Err(e) && e.message@
                == "openai_codex: missing ChatGPT access token (from `codex login` / auth.json)"@),
    {
        Self::new_with_reasoning(config, None)
    }

    /// A provider for a non-empty access token; otherwise the missing-token error.
    pub fn new_with_reasoning(config: ConsumerWebConfig, reasoning_effort: Option<String>) -> (r:
        Result<Self, ModelError>)
        ensures
            !token_missing(config.auth) ==> (r matches Ok(p) && p.config == config
                && p.reasoning_effort == reasoning_effort),
            token_missing(config.auth) ==> (r matches Err(e) && e.message@
                == "openai_codex: missing ChatGPT access token (from `codex login` / auth.json)"@),
    {
        let missing = match &config.auth.bearer_token {
            None => true,
            Some(s) => s.as_str().is_empty(),
        };
        if missing {
            return Err(
                ModelError::new(
                    String::from_str(
                        "openai_codex: missing ChatGPT access token (from `codex login` / auth.json)",
                    ),
                ),
            );
        }
        Ok(ChatGptCodexProvider { config, reasoning_effort })
    }

    /// The default model id.
    pub fn default_model(&self) -> (r: &str)
        ensures
            r@ == self.config.model@,
    {
        self.config.model.as_str()
    }

    /// Build from an access token and the values read from the environment: the
    /// account id (`CHATGPT_ACCOUNT_ID`, else the token's claims), the configured extra
    /// headers, and the other settings with their defaults.
    pub fn from_access_token(
        token: String,
        account_id: Option<String>,
        headers: Vec<(String, String)>,
        env: CodexEnv,
    ) -> (r: Result<Self, ModelError>)
        ensures
            token@.len() == 0 ==> r is Err,
            token@.len() > 0 ==> (r matches Ok(p) && {
                let acct = match account_id {
                    Some(a) => Some(a@),
                    None => account_id_from_jwt(token@),
                };
                &&& p.config.provider_name@ == "openai_codex"@
                &&& p.config.auth.cookie_header is None
                &&& p.config.auth.bearer_token == Some(token)
                &&& pairs_view(p.config.auth.extra_headers@) == codex_headers(
                    pairs_view(headers@),
                    acct,
                )
                &&& views(p.config.allowed_models@) == crate::model::registry::model_list(
                    crate::text::opt_view(env.models),
                )
                &&& p.config.base_url@ == crate::model::registry::value_or(
                    crate::text::opt_view(env.base_url),
                    "https://chatgpt.com"@,
                )
                &&& p.config.path@ == crate::model::registry::value_or(
                    crate::text::opt_view(env.path),
                    "/backend-api/codex/responses"@,
                )
                &&& p.config.model@ == crate::model::registry::value_or(
                    crate::text::opt_view(env.model),
                    "gpt-5.6-sol"@,
                )
                &&& p.config.user_agent@ == crate::model::registry::value_or(
                    crate::text::opt_view(env.user_agent),
                    "keryx/0.1 (chatgpt-subscription)"@,
                )
                &&& p.reasoning_effort matches Some(e) && e@ == crate::model::registry::trimmed_or(
                    crate::text::opt_view(env.reasoning_effort),
                    "low"@,
                )
            }),
    {
        let account = match account_id {
            Some(a) => Some(a),
            None => extract_account_id_from_jwt(token.as_str()),
        };
        let mut extra = headers;
        match &account {
            Some(acct) => {
                add_default_header(&mut extra, "chatgpt-account-id", acct.as_str());
                add_default_header(&mut extra, "openai-account-id", acct.as_str());
            },
            None => {},
        }
        add_default_header(&mut extra, "openai-beta", "responses=experimental");
        add_default_header(&mut extra, "originator", "keryx");
        let CodexEnv { models, reasoning_effort, base_url, path, model, user_agent } = env;
        let models = crate::model::registry::parse_model_list(
            match &models {
                Some(m) => Some(m.as_str()),
                None => None,
            },
        );
        let effort = crate::model::registry::trimmed_or_default(reasoning_effort, "low");
        let config = ConsumerWebConfig {
            provider_name: String::from_str("openai_codex"),
            base_url: crate::model::registry::or_default(base_url, "https://chatgpt.com"),
            path: crate::model::registry::or_default(path, "/backend-api/codex/responses"),
            model: crate::model::registry::or_default(model, "gpt-5.6-sol"),
            auth: ConsumerWebAuth { cookie_header: None, bearer_token: Some(token), extra_headers: extra },
            user_agent: crate::model::registry::or_default(
                user_agent,
                "keryx/0.1 (chatgpt-subscription)",
            ),
            allowed_models: models,
        };
        Self::new_with_reasoning(config, Some(effort))
    }

    /// The Responses body for a Run on `model`.
    pub fn build_body(&self, request: &ModelRequest, model: &str) -> (r: Json)
        ensures
            codex_body_ok(*request, model@, self.reasoning_effort, r),
    {
        let ghost ts = turns(*request);
        let mut input: Vec<Json> = Vec::new();
        if request.transcript.len() == 0 {
            input.push(codex_item("user", request.goal.as_str()));
        } else {
            let mut i: usize = 0;
            while i < request.transcript.len()
                invariant
                    i <= request.transcript@.len(),
                    request.transcript@.len() > 0,
                    ts == turns(*request),
                    input@.len() == i,
                    forall|k: int|
                        0 <= k < i ==> is_codex_item(#[trigger] input@[k], ts[k].0, ts[k].1),
                decreases request.transcript@.len() - i,
            {
                let msg = &request.transcript[i];
                input.push(codex_item(role_name(msg.role), msg.content.as_str()));
                i = i + 1;
            }
        }
        let mut body: Vec<(String, Json)> = Vec::new();
        body.push((String::from_str("model"), text(model)));
        body.push((String::from_str("input"), Json::Array(input)));
        body.push((String::from_str("stream"), Json::Bool(true)));
        body.push((String::from_str("store"), Json::Bool(false)));
        match &self.reasoning_effort {
            Some(e) => body.push((String::from_str("reasoning"), obj1("effort", text(e.as_str())))),
            None => {},
        }
        Json::Object(body)
    }

    /// The Responses request for a Run (a fresh random session id), or the model error.
    pub fn plan_request(&self, request: &ModelRequest) -> (r: Result<HttpRequestPlan, ModelError>)
        ensures
            match r {
                Ok(plan) => {
                    &&& plan.url@ == joined_url(self.config.base_url@, self.config.path@)
                    &&& plan.headers@.len() == 4 + session_headers(
                        self.config.auth,
                        true,
                        false,
                    ).len()
                    &&& pairs_view(plan.headers@).take(2) == stream_headers()
                    &&& plan.headers@[2].0@ == "session-id"@
                    &&& plan.headers@[3].0@ == "x-client-request-id"@
                    &&& plan.headers@[3].1@ == plan.headers@[2].1@
                    &&& pairs_view(plan.headers@).skip(4) == session_headers(
                        self.config.auth,
                        true,
                        false,
                    )
                    &&& resolved_model(
                        self.config.provider_name@,
                        self.config.model@,
                        views(self.config.allowed_models@),
                        opt_view_ref(request.model),
                    ) matches Ok(m) && codex_body_ok(*request, m, self.reasoning_effort, plan.body)
                },
                Err(e) => resolved_model(
                    self.config.provider_name@,
                    self.config.model@,
                    views(self.config.allowed_models@),
                    opt_view_ref(request.model),
                ) == Err::<Seq<char>, Seq<char>>(e.message@),
            },
    {
        let override_model = match &request.model {
            Some(m) => Some(m.as_str()),
            None => None,
        };
        let model = match self.config.resolve_model(override_model) {
            Ok(m) => m,
            Err(e) => return Err(ModelError::new(e)),
        };
        let session_id = new_uuid();
        let body = self.build_body(request, model.as_str());
        let mut headers = start_headers();
        assert(headers@.len() == pairs_view(headers@).len());
        assert(headers@.len() == 2);
        let ghost h2 = pairs_view(headers@);
        let sid2 = session_id.clone();
        headers.push((String::from_str("session-id"), session_id));
        headers.push((String::from_str("x-client-request-id"), sid2));
        let ghost h4 = pairs_view(headers@);
        assert(h4.take(2) =~= h2);
        assert(h4.len() == 4);
        assert(h4.take(2) =~= stream_headers());
        push_session_headers(&mut headers, &self.config.auth, true, false);
        let ghost all = pairs_view(headers@);
        assert(all == h4 + session_headers(self.config.auth, true, false));
        assert(all.take(2) =~= h4.take(2));
        assert(all.skip(4) =~= session_headers(self.config.auth, true, false));
        assert(headers@[2].0@ == all[2].0);
        assert(headers@[3].0@ == all[3].0);
        assert(headers@[2].1@ == all[2].1);
        assert(headers@[3].1@ == all[3].1);
        Ok(HttpRequestPlan { url: self.config.chat_url(), headers, body })
    }
}

/// What a Codex Responses stream holds: the deltas; no content is an error.
pub open spec fn codex_completion(body: Seq<char>) -> Result<
    (Seq<char>, Seq<Seq<char>>),
    Seq<char>,
> {
    let ds = sse_deltas(body);
    if concat_all(ds).len() == 0 {
        Err("openai_codex: empty completion (wire format may have changed, or model rejected)"@)
    } else {
        Ok((concat_all(ds), ds))
    }
}

/// Read a Codex Responses stream into a completion.
pub fn interpret_codex_body(body: &str) -> (r: Result<ModelResponse, ModelError>)
    ensures
        match r {
            Ok(resp) => codex_completion(body@) matches Ok((c, ds)) && response_ok(resp, c, ds),
            Err(e) => codex_completion(body@) == Err::<(Seq<char>, Seq<Seq<char>>), Seq<char>>(
                e.message@,
            ),
        },
{
    let deltas = parse_sse_text_deltas(body);
    let content = concat_deltas(&deltas);
    if content.as_str().is_empty() {
        return Err(
            ModelError::new(
                String::from_str(
                    "openai_codex: empty completion (wire format may have changed, or model rejected)",
                ),
            ),
        );
    }
    Ok(completed(content, deltas))
}

// ---------------------------------------------------------------------------
// Grok web session (`grok_web`)

/// The label of a Transcript message in the flattened Grok prompt.
pub open spec fn grok_label(r: MessageRole) -> Seq<char> {
    match r {
        MessageRole::System => "system"@,
        MessageRole::User => "user"@,
        MessageRole::Assistant => "assistant"@,
        MessageRole::Tool => "tool"@,
    }
}

/// Lines joined with `\n`.
pub open spec fn join_lines(parts: Seq<Seq<char>>) -> Seq<char>
    decreases parts.len(),
{
    if parts.len() == 0 {
        Seq::empty()
    } else if parts.len() == 1 {
        parts[0]
    } else {
        join_lines(parts.drop_last()) + "\n"@ + parts.last()
    }
}

/// The prompt lines: `label: content` per message, then `user: <goal>`; the goal alone
/// without a Transcript.
pub open spec fn grok_lines(request: ModelRequest) -> Seq<Seq<char>> {
    if request.transcript@.len() == 0 {
        seq![request.goal@]
    } else {
        request.transcript@.map_values(|m: Message| grok_label(m.role) + ": "@ + m.content@).push(
            "user: "@ + request.goal@,
        )
    }
}

/// The Grok body: the flattened prompt, the configured model, streaming, and the
/// reasoning effort when one is set.
pub open spec fn grok_body_ok(
    request: ModelRequest,
    model: Seq<char>,
    effort: Option<String>,
    body: Json,
) -> bool {
    &&& member(body, 0, "message"@) matches Some(m) && is_text(m, join_lines(grok_lines(request)))
    &&& member(body, 1, "model"@) matches Some(m) && is_text(m, model)
    &&& member(body, 2, "stream"@) == Some(Json::Bool(true))
    &&& match effort {
        Some(e) => size(body) == 4 && (member(body, 3, "reasoningEffort"@) matches Some(x)
            && is_text(x, e@)),
        None => size(body) == 3,
    }
}

fn grok_label_text(r: MessageRole) -> (s: &'static str)
    ensures
        s@ == grok_label(r),
{
    match r {
        MessageRole::System => "system",
        MessageRole::User => "user",
        MessageRole::Assistant => "assistant",
        MessageRole::Tool => "tool",
    }
}

/// The Grok web provider (`grok_web`): configuration and reasoning effort.
pub struct GrokWebProvider {
    pub config: ConsumerWebConfig,
    pub reasoning_effort: Option<String>,
}

impl GrokWebProvider {
    /// A provider without a reasoning effort.
    pub fn new(config: ConsumerWebConfig) -> (r: Result<Self, ModelError>)
        ensures
            nonempty(config.auth.cookie_header) ==> (r matches Ok(p) && p.config == config
                && p.reasoning_effort is None),
            !nonempty(config.auth.cookie_header) ==> (r matches Err(e) && e.message@
                == "grok_web: missing session cookie"@),
    {
        Self::new_with_reasoning(config, None)
    }

    /// A provider for a non-empty session cookie; otherwise the missing-cookie error.
    pub fn new_with_reasoning(config: ConsumerWebConfig, reasoning_effort: Option<String>) -> (r:
        Result<Self, ModelError>)
        ensures
            nonempty(config.auth.cookie_header) ==> (r matches Ok(p) && p.config == config
                && p.reasoning_effort == reasoning_effort),
            !nonempty(config.auth.cookie_header) ==> (r matches Err(e) && e.message@
                == "grok_web: missing session cookie"@),
    {
        let missing = match &config.auth.cookie_header {
            None => true,
            Some(s) => s.as_str().is_empty(),
        };
        if missing {
            return Err(ModelError::new(String::from_str("grok_web: missing session cookie")));
        }
        Ok(GrokWebProvider { config, reasoning_effort })
    }

    /// The Grok body for a Run.
    pub fn build_body(&self, request: &ModelRequest) -> (r: Json)
        ensures
            grok_body_ok(*request, self.config.model@, self.reasoning_effort, r),
    {
        let ghost ls = grok_lines(*request);
        let mut msg: Vec<char> = Vec::new();
        if request.transcript.len() == 0 {
            msg = chars_of(request.goal.as_str());
            assert(join_lines(ls) == request.goal@);
        } else {
            let mut i: usize = 0;
            while i < request.transcript.len()
                invariant
                    i <= request.transcript@.len(),
                    request.transcript@.len() > 0,
                    ls == grok_lines(*request),
                    msg@ == join_lines(ls.take(i as int)),
                decreases request.transcript@.len() - i,
            {
                let m = &request.transcript[i];
                let line = String::from_str(grok_label_text(m.role)).concat(": ").concat(
                    m.content.as_str(),
                );
                let lc = chars_of(line.as_str());
                assert(ls[i as int] == line@);
                if i > 0 {
                    msg.push('\n');
                }
                let ghost before = msg@;
                let mut j: usize = 0;
                while j < lc.len()
                    invariant
                        j <= lc@.len(),
                        msg@ == before + lc@.take(j as int),
                    decreases lc@.len() - j,
                {
                    msg.push(lc[j]);
                    j = j + 1;
                    assert(msg@ =~= before + lc@.take(j as int));
                }
                proof {
                    reveal_strlit("\n");
                    assert(lc@.take(lc@.len() as int) =~= lc@);
                    assert(ls.take(i + 1).drop_last() =~= ls.take(i as int));
                    if i == 0 {
                        assert(ls.take(1) =~= seq![ls[0]]);
                    }
                }
                i = i + 1;
            }
            let last = String::from_str("user: ").concat(request.goal.as_str());
            let lc = chars_of(last.as_str());
            msg.push('\n');
            let ghost before = msg@;
            let mut j: usize = 0;
            while j < lc.len()
                invariant
                    j <= lc@.len(),
                    msg@ == before + lc@.take(j as int),
                decreases lc@.len() - j,
            {
                msg.push(lc[j]);
                j = j + 1;
                assert(msg@ =~= before + lc@.take(j as int));
            }
            proof {
                reveal_strlit("\n");
                assert(lc@.take(lc@.len() as int) =~= lc@);
                let n = request.transcript@.len() as int;
                assert(ls.take(n) =~= ls.drop_last());
                assert(ls.last() == last@);
                assert(join_lines(ls) == join_lines(ls.drop_last()) + "\n"@ + ls.last());
                assert(msg@ =~= join_lines(ls));
            }
        }
        let mut body: Vec<(String, Json)> = Vec::new();
        body.push((String::from_str("message"), Json::Str(string_of(msg.as_slice()))));
        body.push((String::from_str("model"), text(self.config.model.as_str())));
        body.push((String::from_str("stream"), Json::Bool(true)));
        match &self.reasoning_effort {
            Some(e) => body.push((String::from_str("reasoningEffort"), text(e.as_str()))),
            None => {},
        }
        Json::Object(body)
    }

    /// The Grok request for a Run.
    pub fn plan_request(&self, request: &ModelRequest) -> (r: HttpRequestPlan)
        ensures
            r.url@ == joined_url(self.config.base_url@, self.config.path@),
            pairs_view(r.headers@) == stream_headers() + session_headers(
                self.config.auth,
                false,
                true,
            ),
            grok_body_ok(*request, self.config.model@, self.reasoning_effort, r.body),
    {
        let body = self.build_body(request);
        let mut headers = start_headers();
        push_session_headers(&mut headers, &self.config.auth, false, true);
        HttpRequestPlan { url: self.config.chat_url(), headers, body }
    }
}

} // verus!
