//! The fenced `execute_code` script: what is refused before it runs, what each line
//! does, and the answer. Scripts reach the world only through tool calls.

use crate::domain::{RunOrigin, ToolCall, ToolError, ToolResult};
use crate::json::{get_str, serde_parse, Json};
use crate::text::{
    ascii_lower, chars_of, contains, decimal, first_index, lines, starts_with, trim, views,
};
use vstd::prelude::*;

verus! {

/// The constructs a script may not mention (ASCII case ignored), in the order they are
/// looked for; a module path under `std::` is caught by the first entry.
pub open spec fn banned() -> Seq<Seq<char>> {
    seq![
        "std::"@,
        "tokio::"@,
        "reqwest"@,
        "include!"@,
        "command::"@,
        "tcpstream"@,
        "udp"@,
        "file::"@,
        "/etc/"@,
        "open("@,
        "eval("@,
        "import "@,
        "require("@,
        "__import__"@,
        "subprocess"@,
        "os.system"@,
        "socket."@,
    ]
}

/// The first banned construct the code mentions, from position `k` of the list on.
pub open spec fn first_banned_from(lower: Seq<char>, k: int) -> Option<Seq<char>>
    decreases banned().len() - k,
{
    if k < 0 || k >= banned().len() {
        None
    } else if contains(lower, banned()[k]) {
        Some(banned()[k])
    } else {
        first_banned_from(lower, k + 1)
    }
}

/// Refuse code that mentions a banned construct (the first one found names the error).
pub fn fence_check(code: &str) -> (r: Result<(), ToolError>)
    ensures
        match first_banned_from(ascii_lower(code@), 0) {
            None => r is Ok,
            Some(b) => r matches Err(ToolError::Denied(m)) && m@ == "execute_code fence: banned construct '"@
                + b + "'"@,
        },
{
    let list: [&str; 17] = [
        "std::",
        "tokio::",
        "reqwest",
        "include!",
        "command::",
        "tcpstream",
        "udp",
        "file::",
        "/etc/",
        "open(",
        "eval(",
        "import ",
        "require(",
        "__import__",
        "subprocess",
        "os.system",
        "socket.",
    ];
    assert(forall|k: int| 0 <= k < 17 ==> list@[k]@ == banned()[k]);
    let cs = chars_of(code);
    let lower = crate::text::ascii_lower_exec(cs.as_slice());
    let mut k: usize = 0;
    while k < 17
        invariant
            k <= 17,
            lower@ == ascii_lower(code@),
            forall|j: int| 0 <= j < 17 ==> list@[j]@ == banned()[j],
            first_banned_from(lower@, 0) == first_banned_from(lower@, k as int),
        decreases 17 - k,
    {
        let b = chars_of(list[k]);
        if crate::text::contains_seq(lower.as_slice(), b.as_slice()) {
            return Err(
                ToolError::Denied(
                    String::from_str("execute_code fence: banned construct '").concat(list[k]).concat(
                        "'",
                    ),
                ),
            );
        }
        k = k + 1;
    }
    Ok(())
}

/// A script's tool line after `tool `: the name before the first `{` (trimmed, not
/// empty), and the JSON arguments from that brace on (`None`: no brace, an empty
/// object).
pub open spec fn tool_line(rest: Seq<char>) -> Result<(Seq<char>, Option<Json>), Seq<char>> {
    let t = trim(rest);
    let brace = match first_index(t, '{') {
        Some(i) => i,
        None => t.len() as int,
    };
    let name = trim(t.take(brace));
    if name.len() == 0 {
        Err("empty tool name"@)
    } else if brace < t.len() {
        match serde_parse(t.skip(brace)) {
            Ok(v) => Ok((name, Some(v))),
            Err(e) => Err(e),
        }
    } else {
        Ok((name, None))
    }
}

/// Parse the rest of a `tool NAME {json}` line.
pub fn parse_tool_line(rest: &str) -> (r: Result<(String, Json), String>)
    ensures
        match r {
            Ok((n, v)) => tool_line(rest@) matches Ok((n2, o)) && n@ == n2 && match o {
                Some(j) => v == j,
                None => v matches Json::Object(m) && m@.len() == 0,
            },
            Err(e) => tool_line(rest@) == Err::<(Seq<char>, Option<Json>), Seq<char>>(e@),
        },
{
    let t = crate::text::trim_str(rest);
    let tc = chars_of(t.as_str());
    let brace = match crate::text::find_char(tc.as_slice(), '{') {
        Some(i) => {
            proof {
                crate::text::lemma_first_index(tc@, '{', i as int);
            }
            i
        },
        None => {
            proof {
                crate::text::lemma_first_index_none(tc@, '{');
            }
            tc.len()
        },
    };
    let mut head: Vec<char> = Vec::new();
    let mut i: usize = 0;
    while i < brace
        invariant
            i <= brace <= tc@.len(),
            head@ == tc@.take(i as int),
        decreases brace - i,
    {
        head.push(tc[i]);
        i = i + 1;
        assert(head@ =~= tc@.take(i as int));
    }
    let name_chars = crate::text::trim_exec(head.as_slice());
    if name_chars.len() == 0 {
        return Err(String::from_str("empty tool name"));
    }
    let name = crate::text::string_of(name_chars.as_slice());
    if brace < tc.len() {
        let tail = crate::text::skip_exec(tc.as_slice(), brace);
        let tail_s = crate::text::string_of(tail.as_slice());
        match crate::json::parse_json(tail_s.as_str()) {
            Ok(v) => Ok((name, v)),
            Err(e) => Err(e),
        }
    } else {
        Ok((name, Json::Object(Vec::new())))
    }
}

/// `s` without every leading copy of `p` (non-empty), as `trim_start_matches` returns it.
pub open spec fn strip_all_prefix(s: Seq<char>, p: Seq<char>) -> Seq<char>
    decreases s.len(),
{
    if p.len() > 0 && starts_with(s, p) {
        strip_all_prefix(s.skip(p.len() as int), p)
    } else {
        s
    }
}

fn strip_all_prefix_exec(s: &[char], p: &[char]) -> (r: Vec<char>)
    requires
        p@.len() > 0,
    ensures
        r@ == strip_all_prefix(s@, p@),
{
    let mut i: usize = 0;
    assert(s@.skip(0) =~= s@);
    while p.len() <= s.len() - i && crate::text::matches_at(s, p, i)
        invariant
            i <= s@.len(),
            p@.len() > 0,
            strip_all_prefix(s@, p@) == strip_all_prefix(s@.skip(i as int), p@),
        decreases s@.len() - i,
    {
        let ghost rest = s@.skip(i as int);
        assert(rest.take(p@.len() as int) =~= s@.subrange(i as int, i + p@.len()));
        assert(rest.skip(p@.len() as int) =~= s@.skip(i + p@.len()));
        i = i + p.len();
    }
    let ghost rest = s@.skip(i as int);
    if p.len() <= s.len() - i {
        assert(rest.take(p@.len() as int) =~= s@.subrange(i as int, i + p@.len()));
    }
    crate::text::skip_exec(s, i)
}

/// The fenced script runner: which names may run it, for which origin, with what quota.
pub struct ExecuteCodeTools {
    pub allowed: Vec<String>,
    pub origin: RunOrigin,
    /// Wall-clock quota in milliseconds.
    pub max_duration_ms: u64,
    /// Maximum tool calls per script.
    pub max_rpc_calls: u32,
}

impl ExecuteCodeTools {
    /// A runner with a five-second and sixteen-call quota.
    pub fn new(allowed: Vec<String>, origin: RunOrigin) -> (r: Self)
        ensures
            r.allowed == allowed,
            r.origin == origin,
            r.max_duration_ms == 5000,
            r.max_rpc_calls == 16,
    {
        ExecuteCodeTools { allowed, origin, max_duration_ms: 5000, max_rpc_calls: 16 }
    }

    /// The script of a call, or why it may not run: not allowed, another tool, a
    /// reduced-trust origin, no code, or a banned construct.
    pub fn precheck(&self, call: &ToolCall) -> (r: Result<String, ToolError>)
        ensures
            !views(self.allowed@).contains(call.name@) || call.name@ != "execute_code"@ ==> (r matches Err(
                ToolError::Denied(m),
            ) && m@ == crate::tools::workspace::disallowed(call.name@)),
            views(self.allowed@).contains(call.name@) && call.name@ == "execute_code"@
                && self.origin.reduced() ==> (r matches Err(ToolError::Denied(m)) && m@
                == "execute_code denied for reduced Run origin"@),
            r matches Ok(code) ==> views(self.allowed@).contains(call.name@) && call.name@
                == "execute_code"@ && !self.origin.reduced() && get_str(call.arguments, "code"@)
                == Some(code@) && first_banned_from(ascii_lower(code@), 0) is None,
            views(self.allowed@).contains(call.name@) && call.name@ == "execute_code"@
                && !self.origin.reduced() && get_str(call.arguments, "code"@) is None ==> (r matches Err(
                ToolError::Failed(m),
            ) && m@ == "missing code"@),
            views(self.allowed@).contains(call.name@) && call.name@ == "execute_code"@
                && !self.origin.reduced() ==> match get_str(call.arguments, "code"@) {
                None => true,
                Some(c) => match first_banned_from(ascii_lower(c), 0) {
                    None => r matches Ok(x) && x@ == c,
                    Some(b) => r matches Err(ToolError::Denied(m)) && m@
                        == "execute_code fence: banned construct '"@ + b + "'"@,
                },
            },
    {
        let name = call.name.as_str();
        if !crate::text::list_contains(self.allowed.as_slice(), name) || !crate::text::str_eq(
            name,
            "execute_code",
        ) {
            return Err(
                ToolError::Denied(
                    String::from_str("unknown or disallowed tool '").concat(name).concat("'"),
                ),
            );
        }
        if self.origin.is_reduced_trust() {
            return Err(ToolError::Denied(String::from_str("execute_code denied for reduced Run origin")));
        }
        let code = match crate::json::get_str_exec(&call.arguments, "code") {
            Some(c) => c.clone(),
            None => return Err(ToolError::Failed(String::from_str("missing code"))),
        };
        match fence_check(code.as_str()) {
            Ok(()) => Ok(code),
            Err(e) => Err(e),
        }
    }
}

/// What one script line does.
pub enum LineOp {
    /// A blank line or a comment.
    Skip,
    /// A printed line (already recorded as output).
    Print,
    /// A tool call to make through the host.
    Tool { name: String, arguments: Json },
}

/// A script being run: the output lines so far and the tool calls made.
pub struct ScriptRun {
    pub outputs: Vec<String>,
    pub rpc_count: u32,
}

/// The error of a line that is neither a tool call nor a print.
pub open spec fn fence_line_error(line_no: nat) -> Seq<char> {
    "line "@ + decimal(line_no) + ": only 'tool NAME {json}' or 'print …' allowed (fence)"@
}

impl ScriptRun {
    pub fn new() -> (r: Self)
        ensures
            r.outputs@.len() == 0,
            r.rpc_count == 0,
    {
        ScriptRun { outputs: Vec::new(), rpc_count: 0 }
    }

    /// Read line `index` (from zero) of the script: skip blanks and comments, record a
    /// print, or count and parse a tool call (within the call quota).
    pub fn step(&mut self, index: usize, raw: &str, max_rpc_calls: u32) -> (r: Result<LineOp, ToolError>)
        requires
            old(self).rpc_count <= max_rpc_calls,
            max_rpc_calls < u32::MAX,
            index < usize::MAX,
        ensures
            final(self).rpc_count <= max_rpc_calls || r is Err,
            ({
                let line = trim(raw@);
                &&& line.len() == 0 || starts_with(line, "#"@) ==> (r matches Ok(LineOp::Skip))
                    && final(self).outputs == old(self).outputs && final(self).rpc_count == old(self).rpc_count
                &&& !(line.len() == 0 || starts_with(line, "#"@)) && starts_with(line, "tool "@) ==> {
                    &&& old(self).rpc_count + 1 > max_rpc_calls ==> (r matches Err(
                        ToolError::Failed(m),
                    ) && m@ == "execute_code: RPC call quota exceeded"@)
                    &&& old(self).rpc_count + 1 <= max_rpc_calls ==> final(self).rpc_count == old(self).rpc_count + 1 && match tool_line(line.skip(5)) {
                        Ok((n, o)) => r matches Ok(LineOp::Tool { name, arguments }) && name@ == n
                            && match o {
                            Some(j) => arguments == j,
                            None => arguments matches Json::Object(m) && m@.len() == 0,
                        },
                        Err(e) => r matches Err(ToolError::Failed(m)) && m@ == "line "@ + decimal(
                            index as nat + 1,
                        ) + ": "@ + e,
                    }
                    &&& final(self).outputs == old(self).outputs
                }
                &&& !(line.len() == 0 || starts_with(line, "#"@)) && !starts_with(line, "tool "@)
                    && starts_with(line, "print "@) ==> (r matches Ok(LineOp::Print)) && final(self).outputs@ == old(self).outputs@.push(final(self).outputs@.last()) && final(self).outputs@.last()@ == strip_all_prefix(line, "print "@) && final(self).rpc_count
                    == old(self).rpc_count
                &&& !(line.len() == 0 || starts_with(line, "#"@)) && !starts_with(line, "tool "@)
                    && !starts_with(line, "print "@) ==> (r matches Err(ToolError::Failed(m)) && m@
                    == fence_line_error(index as nat + 1))
            }),
    {
        proof {
            reveal_strlit("tool ");
            reveal_strlit("print ");
            reveal_strlit("#");
        }
        let t = crate::text::trim_str(raw);
        let tc = chars_of(t.as_str());
        let hash = chars_of("#");
        if tc.len() == 0 || crate::text::starts_with_seq(tc.as_slice(), hash.as_slice()) {
            return Ok(LineOp::Skip);
        }
        let tool = chars_of("tool ");
        let print = chars_of("print ");
        if crate::text::starts_with_seq(tc.as_slice(), tool.as_slice()) {
            if self.rpc_count + 1 > max_rpc_calls {
                return Err(ToolError::Failed(String::from_str("execute_code: RPC call quota exceeded")));
            }
            self.rpc_count = self.rpc_count + 1;
            let rest = crate::text::string_of(crate::text::skip_exec(tc.as_slice(), 5).as_slice());
            match parse_tool_line(rest.as_str()) {
                Ok((name, arguments)) => Ok(LineOp::Tool { name, arguments }),
                Err(e) => Err(
                    ToolError::Failed(
                        String::from_str("line ").concat(
                            crate::text::decimal_string((index + 1) as u64).as_str(),
                        ).concat(": ").concat(e.as_str()),
                    ),
                ),
            }
        } else if crate::text::starts_with_seq(tc.as_slice(), print.as_slice()) {
            let out = strip_all_prefix_exec(tc.as_slice(), print.as_slice());
            self.outputs.push(crate::text::string_of(out.as_slice()));
            Ok(LineOp::Print)
        } else {
            Err(
                ToolError::Failed(
                    String::from_str("line ").concat(
                        crate::text::decimal_string((index + 1) as u64).as_str(),
                    ).concat(": only 'tool NAME {json}' or 'print …' allowed (fence)"),
                ),
            )
        }
    }

    /// Record what a nested tool call gave: its summary, or its error.
    pub fn record_tool(&mut self, name: &str, result: &Result<ToolResult, ToolError>)
        ensures
            final(self).rpc_count == old(self).rpc_count,
            final(self).outputs@.drop_last() == old(self).outputs@,
            final(self).outputs@.len() == old(self).outputs@.len() + 1,
            final(self).outputs@.last()@ == match result {
                Ok(res) => name@ + ": "@ + res.summary@,
                Err(e) => name@ + ": error="@ + crate::domain::tool_error_text(*e),
            },
    {
        let line = match result {
            Ok(res) => String::from_str(name).concat(": ").concat(res.summary.as_str()),
            Err(e) => String::from_str(name).concat(": error=").concat(e.to_text().as_str()),
        };
        self.outputs.push(line);
        assert(self.outputs@.drop_last() =~= old(self).outputs@);
    }

    /// The answer once every line ran: the outputs (or a no-ops note) and the call count.
    pub fn finish(self) -> (r: ToolResult)
        ensures
            self.outputs@.len() == 0 ==> r.content@ == "execute_code: no ops"@,
            self.outputs@.len() > 0 ==> r.content@ == crate::model::consumer::join_lines(
                views(self.outputs@),
            ),
            r.summary@ == "execute_code rpc_calls="@ + decimal(self.rpc_count as nat),
    {
        let content = if self.outputs.len() == 0 {
            String::from_str("execute_code: no ops")
        } else {
            crate::tools::workspace::join_with_newlines(&self.outputs)
        };
        ToolResult {
            summary: String::from_str("execute_code rpc_calls=").concat(
                crate::text::decimal_string(self.rpc_count as u64).as_str(),
            ),
            content,
        }
    }
}

/// Where running a script stops: at a tool call the host has not answered yet (its
/// name, its parsed arguments if any, and whether it is on the last line), or at the
/// end, with the output lines and the call count, or with the failure's message.
pub enum ScriptEnd {
    Call(Seq<char>, Option<Json>, bool),
    Done(Result<(Seq<Seq<char>>, nat), Seq<char>>),
}

/// The output line of a nested tool call's answer.
pub open spec fn host_line(name: Seq<char>, res: Result<ToolResult, ToolError>) -> Seq<char> {
    match res {
        Ok(r) => name + ": "@ + r.summary@,
        Err(e) => name + ": error="@ + crate::domain::tool_error_text(e),
    }
}

/// Running `lines` from line `i`, with `rpc` calls made and `outs` printed so far, the
/// host having answered the calls in order with `host` (`h` of them used).
pub open spec fn run_from(
    lines: Seq<Seq<char>>,
    i: nat,
    max: nat,
    rpc: nat,
    outs: Seq<Seq<char>>,
    host: Seq<Result<ToolResult, ToolError>>,
    h: nat,
) -> ScriptEnd
    decreases lines.len() - i,
{
    if i >= lines.len() {
        ScriptEnd::Done(Ok((outs, rpc)))
    } else {
        let line = trim(lines[i as int]);
        if line.len() == 0 || starts_with(line, "#"@) {
            run_from(lines, i + 1, max, rpc, outs, host, h)
        } else if starts_with(line, "tool "@) {
            if rpc + 1 > max {
                ScriptEnd::Done(Err("execute_code: RPC call quota exceeded"@))
            } else {
                match tool_line(line.skip(5)) {
                    Err(e) => ScriptEnd::Done(Err("line "@ + decimal(i + 1) + ": "@ + e)),
                    Ok((n, o)) => if h < host.len() {
                        run_from(
                            lines,
                            i + 1,
                            max,
                            rpc + 1,
                            outs.push(host_line(n, host[h as int])),
                            host,
                            h + 1,
                        )
                    } else {
                        ScriptEnd::Call(n, o, i + 1 == lines.len())
                    },
                }
            }
        } else if starts_with(line, "print "@) {
            run_from(lines, i + 1, max, rpc, outs.push(strip_all_prefix(line, "print "@)), host, h)
        } else {
            ScriptEnd::Done(Err(fence_line_error(i + 1)))
        }
    }
}

/// What running a script asks for next: a tool call through the host, or its answer.
pub enum ScriptOutcome {
    Call { name: String, arguments: Json, last_line: bool },
    Finished(Result<ToolResult, ToolError>),
}

impl ExecuteCodeTools {
    /// Run a whole (already checked) script, its tool calls answered in order by
    /// `host`: the next call the host must answer, or the script's answer once every
    /// line ran or one failed.
    pub fn run_script(&self, code: &str, host: &[Result<ToolResult, ToolError>]) -> (r:
        ScriptOutcome)
        requires
            self.max_rpc_calls < u32::MAX,
        ensures
            match run_from(lines(code@), 0, self.max_rpc_calls as nat, 0, Seq::empty(), host@, 0) {
                ScriptEnd::Call(n, o, last) => r matches ScriptOutcome::Call {
                    name,
                    arguments,
                    last_line,
                } && name@ == n && last_line == last && match o {
                    Some(j) => arguments == j,
                    None => arguments matches Json::Object(m) && m@.len() == 0,
                },
                ScriptEnd::Done(Ok((outs, rpc))) => r matches ScriptOutcome::Finished(Ok(res))
                    && res.content@ == (if outs.len() == 0 {
                    "execute_code: no ops"@
                } else {
                    crate::model::consumer::join_lines(outs)
                }) && res.summary@ == "execute_code rpc_calls="@ + decimal(rpc),
                ScriptEnd::Done(Err(m)) => r matches ScriptOutcome::Finished(
                    Err(ToolError::Failed(x)),
                ) && x@ == m,
            },
    {
        let cs = chars_of(code);
        let ls = crate::text::lines_exec(cs.as_slice());
        let ghost lv = ls@.map_values(|v: Vec<char>| v@);
        let max = self.max_rpc_calls;
        let mut run = ScriptRun::new();
        let mut h: usize = 0;
        let mut i: usize = 0;
        assert(views(run.outputs@) =~= Seq::<Seq<char>>::empty());
        while i < ls.len()
            invariant
                i <= ls@.len(),
                h <= host@.len(),
                lv == ls@.map_values(|v: Vec<char>| v@),
                lv == lines(code@),
                max == self.max_rpc_calls,
                max < u32::MAX,
                run.rpc_count <= max,
                run_from(lv, 0, max as nat, 0, Seq::empty(), host@, 0) == run_from(
                    lv,
                    i as nat,
                    max as nat,
                    run.rpc_count as nat,
                    views(run.outputs@),
                    host@,
                    h as nat,
                ),
            decreases ls@.len() - i,
        {
            let raw = crate::text::string_of(ls[i].as_slice());
            assert(raw@ == lv[i as int]);
            let ghost outs0 = views(run.outputs@);
            let ghost rpc0 = run.rpc_count;
            match run.step(i, raw.as_str(), max) {
                Err(e) => {
                    return ScriptOutcome::Finished(Err(e));
                },
                Ok(LineOp::Skip) => {},
                Ok(LineOp::Print) => {
                    assert(views(run.outputs@) =~= outs0.push(run.outputs@.last()@));
                },
                Ok(LineOp::Tool { name, arguments }) => {
                    if h < host.len() {
                        run.record_tool(name.as_str(), &host[h]);
                        assert(views(run.outputs@) =~= outs0.push(run.outputs@.last()@));
                        h = h + 1;
                    } else {
                        return ScriptOutcome::Call { name, arguments, last_line: i + 1 == ls.len() };
                    }
                },
            }
            i = i + 1;
        }
        ScriptOutcome::Finished(Ok(run.finish()))
    }
}

/// The error when the wall-clock quota ran out.
pub fn time_quota_exceeded() -> (r: ToolError)
    ensures
        r matches ToolError::Failed(m) && m@ == "execute_code: time quota exceeded"@,
{
    ToolError::Failed(String::from_str("execute_code: time quota exceeded"))
}

} // verus!
