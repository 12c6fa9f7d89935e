//! Shared vocabulary of the Worker: messages, model requests and responses, tool
//! calls, tool errors and Run origins.

use crate::json::Json;
use vstd::prelude::*;

verus! {

/// Who wrote a Transcript message.
#[derive(Debug, Clone, Copy, PartialEq, Eq, Structural)]
pub enum MessageRole {
    System,
    User,
    Assistant,
    Tool,
}

/// One message of the conversation handed to a model.
#[derive(Debug)]
pub struct Message {
    pub role: MessageRole,
    pub content: String,
}

/// A completion request: the Run goal, the Transcript, and optional per-run choices.
#[derive(Debug)]
pub struct ModelRequest {
    pub goal: String,
    pub transcript: Vec<Message>,
    /// Per-run model override.
    pub model: Option<String>,
    /// Per-run provider name.
    pub provider: Option<String>,
    /// The tools offered to the model.
    pub tools: Vec<ToolSpec>,
}

/// A tool invocation requested by a model or an operator script.
#[derive(Debug)]
pub struct ToolCall {
    pub name: String,
    pub arguments: Json,
}

/// A completed completion.
#[derive(Debug)]
pub struct ModelResponse {
    pub content: String,
    pub deltas: Vec<String>,
    pub tool_calls: Vec<ToolCall>,
    pub tokens_used: u64,
}

/// What a tool returned: its content and a short event summary.
#[derive(Debug)]
pub struct ToolResult {
    pub content: String,
    pub summary: String,
}

/// Why a tool invocation did not run or did not succeed.
#[derive(Debug)]
pub enum ToolError {
    /// Policy or registration refused the call.
    Denied(String),
    /// The call ran and failed.
    Failed(String),
    /// A path left the allowlisted workspace roots.
    PathJail(String),
}

/// The text of a tool error, as its `Display` writes it.
pub open spec fn tool_error_text(e: ToolError) -> Seq<char> {
    match e {
        ToolError::Denied(m) => "tool denied: "@ + m@,
        ToolError::Failed(m) => "tool failed: "@ + m@,
        ToolError::PathJail(m) => "path jail: "@ + m@,
    }
}

impl ToolError {
    /// The error's text: kind then message.
    pub fn to_text(&self) -> (r: String)
        ensures
            r@ == tool_error_text(*self),
    {
        match self {
            ToolError::Denied(m) => String::from_str("tool denied: ").concat(m.as_str()),
            ToolError::Failed(m) => String::from_str("tool failed: ").concat(m.as_str()),
            ToolError::PathJail(m) => String::from_str("path jail: ").concat(m.as_str()),
        }
    }
}

/// A tool offered to a model: name, description, JSON-schema parameters.
#[derive(Debug)]
pub struct ToolSpec {
    pub name: String,
    pub description: String,
    pub parameters: Json,
}

/// The schema of a tool without parameters: `{"type":"object","properties":{}}`.
pub open spec fn is_empty_params(j: Json) -> bool {
    &&& crate::json::size(j) == 2
    &&& crate::json::member(j, 0, "type"@) matches Some(t) && crate::json::is_text(t, "object"@)
    &&& crate::json::member(j, 1, "properties"@) matches Some(p) && p matches Json::Object(m)
        && m@.len() == 0
}

impl ToolSpec {
    /// A tool that takes no parameters.
    pub fn empty_params(name: &str, description: &str) -> (r: Self)
        ensures
            r.name@ == name@,
            r.description@ == description@,
            is_empty_params(r.parameters),
    {
        let mut m: Vec<(String, Json)> = Vec::new();
        m.push((String::from_str("type"), crate::json::text("object")));
        m.push((String::from_str("properties"), Json::Object(Vec::new())));
        ToolSpec {
            name: String::from_str(name),
            description: String::from_str(description),
            parameters: Json::Object(m),
        }
    }
}

/// Name and description of each tool of a catalog.
pub open spec fn listing(specs: Seq<ToolSpec>) -> Seq<(Seq<char>, Seq<char>)> {
    specs.map_values(|t: ToolSpec| (t.name@, t.description@))
}

/// The texts of a list of (name, description) pairs.
pub open spec fn pair_views(v: Seq<(&str, &str)>) -> Seq<(Seq<char>, Seq<char>)> {
    v.map_values(|t: (&str, &str)| (t.0@, t.1@))
}

/// The tools of `tools` whose names are allowed, in order.
pub open spec fn offered(tools: Seq<(Seq<char>, Seq<char>)>, allowed: Seq<Seq<char>>) -> Seq<
    (Seq<char>, Seq<char>),
> {
    tools.filter(|t: (Seq<char>, Seq<char>)| allowed.contains(t.0))
}

/// A catalog of tools without parameters: those of `tools` (name, description) whose
/// names `allowed` holds, in order.
pub fn catalog_of(allowed: &[String], tools: &[(&str, &str)]) -> (r: Vec<ToolSpec>)
    ensures
        listing(r@) == offered(pair_views(tools@), crate::text::views(allowed@)),
        forall|i: int| 0 <= i < r@.len() ==> is_empty_params(#[trigger] r@[i].parameters),
{
    let ghost all = pair_views(tools@);
    let ghost pred = |t: (Seq<char>, Seq<char>)| crate::text::views(allowed@).contains(t.0);
    let mut out: Vec<ToolSpec> = Vec::new();
    let mut i: usize = 0;
    assert(all.take(0) =~= Seq::<(Seq<char>, Seq<char>)>::empty());
    assert(listing(out@) =~= all.take(0).filter(pred)) by {
        reveal(Seq::filter);
    }
    while i < tools.len()
        invariant
            i <= tools@.len(),
            all == pair_views(tools@),
            pred == (|t: (Seq<char>, Seq<char>)| crate::text::views(allowed@).contains(t.0)),
            listing(out@) == all.take(i as int).filter(pred),
            forall|k: int| 0 <= k < out@.len() ==> is_empty_params(#[trigger] out@[k].parameters),
        decreases tools@.len() - i,
    {
        let (name, desc) = tools[i];
        let ghost before = listing(out@);
        assert(all[i as int] == (name@, desc@));
        assert(all.take(i + 1).drop_last() =~= all.take(i as int));
        assert(all.take(i + 1).last() == (name@, desc@));
        if crate::text::list_contains(allowed, name) {
            out.push(ToolSpec::empty_params(name, desc));
            assert(listing(out@) =~= before.push((name@, desc@)));
            assert(listing(out@) == all.take(i + 1).filter(pred)) by {
                reveal(Seq::filter);
            }
        } else {
            assert(listing(out@) == all.take(i + 1).filter(pred)) by {
                reveal(Seq::filter);
            }
        }
        i = i + 1;
    }
    assert(all.take(i as int) =~= all);
    out
}

/// Where a Run came from; everything but the control plane is reduced trust.
#[derive(Debug, Clone, Copy, PartialEq, Eq, Structural)]
pub enum RunOrigin {
    ControlPlane,
    Gateway,
    Schedule,
    Subagent,
}

impl RunOrigin {
    pub open spec fn reduced(self) -> bool {
        self != RunOrigin::ControlPlane
    }

    /// Reduced-trust origins get narrower tool defaults.
    pub fn is_reduced_trust(self) -> (r: bool)
        ensures
            r == self.reduced(),
    {
        !matches!(self, RunOrigin::ControlPlane)
    }
}


/// An HTTP POST the adapter around the library sends: URL, headers, JSON body.
#[derive(Debug)]
pub struct HttpRequestPlan {
    pub url: String,
    pub headers: Vec<(String, String)>,
    pub body: Json,
}

} // verus!
