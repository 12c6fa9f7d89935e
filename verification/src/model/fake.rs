//! A scripted model provider for control-plane tests (no network).

use crate::domain::{ModelRequest, ModelResponse, ToolCall, ToolSpec};
use crate::text::views;
use vstd::prelude::*;

verus! {

/// A scripted model provider: scripted responses first, then a fixed content (with
/// its deltas and tool calls), else a greeting naming the goal and the Transcript
/// length. It records the tool names of the last request.
#[derive(Debug)]
pub struct FakeModelProvider {
    pub fixed_content: Option<String>,
    pub deltas: Option<Vec<String>>,
    /// Names of the tools every answer calls (with empty arguments).
    pub tool_calls: Option<Vec<String>>,
    /// Milliseconds to wait before answering.
    pub delay_ms: Option<u64>,
    pub script: Vec<ModelResponse>,
    pub last_tools: Vec<String>,
}

/// The concatenation of some texts.
pub open spec fn concat_all(parts: Seq<Seq<char>>) -> Seq<char>
    decreases parts.len(),
{
    if parts.len() == 0 {
        Seq::empty()
    } else {
        concat_all(parts.drop_last()) + parts.last()
    }
}

/// The token count of a content: its characters, at least one.
pub open spec fn token_count(content: Seq<char>) -> nat {
    if content.len() == 0 {
        1
    } else {
        content.len()
    }
}

/// The names of the tools a request offers.
pub open spec fn tool_names(tools: Seq<ToolSpec>) -> Seq<Seq<char>> {
    tools.map_values(|t: ToolSpec| t.name@)
}

/// An empty JSON object.
pub open spec fn empty_object(j: crate::json::Json) -> bool {
    j matches crate::json::Json::Object(m) && m@.len() == 0
}

/// The greeting answer: the goal and the Transcript length.
pub open spec fn greeting_text(goal: Seq<char>, transcript_len: nat) -> Seq<char> {
    "fake-model: goal="@ + goal + " transcript_msgs="@ + crate::text::decimal(transcript_len)
}

impl FakeModelProvider {
    /// A provider that greets.
    pub fn greeting() -> (r: Self)
        ensures
            r.fixed_content is None,
            r.deltas is None,
            r.tool_calls is None,
            r.delay_ms is None,
            r.script@.len() == 0,
            r.last_tools@.len() == 0,
    {
        FakeModelProvider {
            fixed_content: None,
            deltas: None,
            tool_calls: None,
            delay_ms: None,
            script: Vec::new(),
            last_tools: Vec::new(),
        }
    }

    /// A provider that always answers `content`.
    pub fn with_fixed_content(content: String) -> (r: Self)
        ensures
            r.fixed_content == Some(content),
            r.deltas is None,
            r.tool_calls is None,
            r.delay_ms is None,
            r.script@.len() == 0,
            r.last_tools@.len() == 0,
    {
        FakeModelProvider {
            fixed_content: Some(content),
            deltas: None,
            tool_calls: None,
            delay_ms: None,
            script: Vec::new(),
            last_tools: Vec::new(),
        }
    }

    /// A provider that streams these deltas (its content is their concatenation).
    pub fn with_deltas(deltas: Vec<String>) -> (r: Self)
        ensures
            r.fixed_content matches Some(c) && c@ == concat_all(views(deltas@)),
            r.deltas matches Some(d) && d@ == deltas@,
            r.tool_calls is None,
            r.delay_ms is None,
            r.script@.len() == 0,
    {
        let mut content: Vec<char> = Vec::new();
        let mut i: usize = 0;
        assert(views(deltas@).take(0) =~= Seq::<Seq<char>>::empty());
        while i < deltas.len()
            invariant
                i <= deltas@.len(),
                content@ == concat_all(views(deltas@).take(i as int)),
            decreases deltas@.len() - i,
        {
            let c = crate::text::chars_of(deltas[i].as_str());
            let mut j: usize = 0;
            let ghost before = content@;
            while j < c.len()
                invariant
                    j <= c@.len(),
                    content@ == before + c@.take(j as int),
                decreases c@.len() - j,
            {
                content.push(c[j]);
                j = j + 1;
                assert(content@ =~= before + c@.take(j as int));
            }
            assert(c@.take(j as int) =~= c@);
            assert(views(deltas@).take(i + 1).drop_last() =~= views(deltas@).take(i as int));
            i = i + 1;
        }
        assert(views(deltas@).take(i as int) =~= views(deltas@));
        FakeModelProvider {
            fixed_content: Some(crate::text::string_of(content.as_slice())),
            deltas: Some(deltas),
            tool_calls: None,
            delay_ms: None,
            script: Vec::new(),
            last_tools: Vec::new(),
        }
    }

    /// A provider that waits `delay_ms` before answering `content`.
    pub fn with_delay(delay_ms: u64, content: String) -> (r: Self)
        ensures
            r.fixed_content == Some(content),
            r.deltas is None,
            r.tool_calls is None,
            r.delay_ms == Some(delay_ms),
            r.script@.len() == 0,
    {
        FakeModelProvider {
            fixed_content: Some(content),
            deltas: None,
            tool_calls: None,
            delay_ms: Some(delay_ms),
            script: Vec::new(),
            last_tools: Vec::new(),
        }
    }

    /// A provider that answers `content` and calls these tools.
    pub fn with_tool_calls(content: String, tool_names: Vec<String>) -> (r: Self)
        ensures
            r.fixed_content == Some(content),
            r.deltas is None,
            r.tool_calls matches Some(t) && t@ == tool_names@,
            r.delay_ms is None,
            r.script@.len() == 0,
    {
        FakeModelProvider {
            fixed_content: Some(content),
            deltas: None,
            tool_calls: Some(tool_names),
            delay_ms: None,
            script: Vec::new(),
            last_tools: Vec::new(),
        }
    }

    /// A provider that answers these responses in order, then greets.
    pub fn with_script(responses: Vec<ModelResponse>) -> (r: Self)
        ensures
            r.fixed_content is None,
            r.deltas is None,
            r.tool_calls is None,
            r.delay_ms is None,
            r.script@ == responses@,
    {
        FakeModelProvider {
            fixed_content: None,
            deltas: None,
            tool_calls: None,
            delay_ms: None,
            script: responses,
            last_tools: Vec::new(),
        }
    }

    /// The tool names of the last request.
    pub fn last_tool_names(&self) -> (r: Vec<String>)
        ensures
            views(r@) == views(self.last_tools@),
    {
        crate::text::clone_strings(&self.last_tools)
    }

    /// How long to wait before answering, if at all.
    pub fn delay(&self) -> (r: Option<u64>)
        ensures
            r == self.delay_ms,
    {
        self.delay_ms
    }

    /// Answer a request (once any delay has passed): the next scripted response, else
    /// the fixed content, else the greeting.
    pub fn complete(&mut self, request: &ModelRequest) -> (r: ModelResponse)
        ensures
            views(final(self).last_tools@) == tool_names(request.tools@),
            old(self).script@.len() > 0 ==> r == old(self).script@[0] && final(self).script@
                == old(self).script@.drop_first(),
            old(self).script@.len() == 0 ==> final(self).script@.len() == 0 && match old(self).fixed_content {
                Some(c) => r.content@ == c@ && views(r.deltas@) == match old(self).deltas {
                    Some(d) => views(d@),
                    None => Seq::empty(),
                } && r.tool_calls@.len() == match old(self).tool_calls {
                    Some(t) => t@.len(),
                    None => 0,
                } && (forall|i: int|
                    0 <= i < r.tool_calls@.len() ==> (#[trigger] r.tool_calls@[i]).name@
                        == old(self).tool_calls->0@[i]@ && empty_object(r.tool_calls@[i].arguments)) && r.tokens_used as nat
                    == token_count(c@),
                None => r.content@ == greeting_text(request.goal@, request.transcript@.len())
                    && r.deltas@.len() == 0 && r.tool_calls@.len() == 0 && r.tokens_used as nat
                    == token_count(greeting_text(request.goal@, request.transcript@.len())),
            },
            final(self).fixed_content == old(self).fixed_content,
            final(self).deltas == old(self).deltas,
            final(self).tool_calls == old(self).tool_calls,
            final(self).delay_ms == old(self).delay_ms,
    {
        let mut names: Vec<String> = Vec::new();
        let mut i: usize = 0;
        while i < request.tools.len()
            invariant
                i <= request.tools@.len(),
                views(names@) == tool_names(request.tools@).take(i as int),
            decreases request.tools@.len() - i,
        {
            let ghost before = views(names@);
            names.push(request.tools[i].name.clone());
            assert(views(names@) =~= before.push(request.tools@[i as int].name@));
            i = i + 1;
            assert(views(names@) =~= tool_names(request.tools@).take(i as int));
        }
        assert(tool_names(request.tools@).take(i as int) =~= tool_names(request.tools@));
        self.last_tools = names;
        if self.script.len() > 0 {
            let r = self.script.remove(0);
            assert(self.script@ =~= old(self).script@.drop_first());
            return r;
        }
        match &self.fixed_content {
            Some(content) => {
                let deltas = match &self.deltas {
                    Some(d) => crate::text::clone_strings(d),
                    None => Vec::new(),
                };
                let mut calls: Vec<ToolCall> = Vec::new();
                if let Some(t) = &self.tool_calls {
                    let mut k: usize = 0;
                    while k < t.len()
                        invariant
                            k <= t@.len(),
                            calls@.len() == k,
                            forall|j: int|
                                0 <= j < k ==> (#[trigger] calls@[j]).name@ == t@[j]@ && empty_object(calls@[j].arguments),
                        decreases t@.len() - k,
                    {
                        calls.push(ToolCall { name: t[k].clone(), arguments: crate::json::empty_object() });
                        k = k + 1;
                    }
                }
                let n = crate::text::chars_of(content.as_str()).len();
                let tokens: u64 = if n == 0 {
                    1
                } else {
                    n as u64
                };
                ModelResponse { content: content.clone(), deltas, tool_calls: calls, tokens_used: tokens }
            },
            None => {
                let text = String::from_str("fake-model: goal=").concat(request.goal.as_str()).concat(
                    " transcript_msgs=",
                ).concat(crate::text::decimal_string(request.transcript.len() as u64).as_str());
                let n = crate::text::chars_of(text.as_str()).len();
                let tokens: u64 = if n == 0 {
                    1
                } else {
                    n as u64
                };
                ModelResponse { content: text, deltas: Vec::new(), tool_calls: Vec::new(), tokens_used: tokens }
            },
        }
    }
}

} // verus!
