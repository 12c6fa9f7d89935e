//! Terminal tools: which backend a command runs on for which Run origin, what the
//! backends make of a finished process, and the answers.

use crate::domain::{is_empty_params, RunOrigin, ToolCall, ToolError, ToolResult, ToolSpec};
use crate::json::{get, get_str, str_of, Json};
use crate::text::{chars_of, contains, decimal, trim, truncate_chars, views};
use vstd::prelude::*;

verus! {

/// The backend a command runs on.
#[derive(Debug, Clone, Copy, PartialEq, Eq, Structural)]
pub enum ExecBackend {
    Local,
    Docker,
}

/// The backend's name as its `Debug` writes it.
pub open spec fn backend_name(b: ExecBackend) -> Seq<char> {
    match b {
        ExecBackend::Local => "Local"@,
        ExecBackend::Docker => "Docker"@,
    }
}

fn backend_text(b: ExecBackend) -> (r: &'static str)
    ensures
        r@ == backend_name(b),
{
    match b {
        ExecBackend::Local => "Local",
        ExecBackend::Docker => "Docker",
    }
}

/// The real backends: a local `sh -c`, or `docker run` in this image.
#[derive(Debug, Default)]
pub struct SystemExecRunner {
    pub docker_image: String,
}

impl SystemExecRunner {
    /// The image from `KERYX_DOCKER_IMAGE` when set, else `alpine:3.20`.
    pub fn new(image: Option<String>) -> (r: Self)
        ensures
            r.docker_image@ == crate::model::registry::value_or(
                crate::text::opt_view(image),
                "alpine:3.20"@,
            ),
    {
        SystemExecRunner {
            docker_image: crate::model::registry::or_default(image, "alpine:3.20"),
        }
    }

    /// The `docker` arguments that run a command in the image.
    pub fn docker_args(&self, command: &str) -> (r: Vec<String>)
        ensures
            views(r@) == seq!["run"@, "--rm"@, self.docker_image@, "sh"@, "-c"@, command@],
    {
        let mut v: Vec<String> = Vec::new();
        v.push(String::from_str("run"));
        v.push(String::from_str("--rm"));
        v.push(self.docker_image.clone());
        v.push(String::from_str("sh"));
        v.push(String::from_str("-c"));
        v.push(String::from_str(command));
        assert(views(v@) =~= seq!["run"@, "--rm"@, self.docker_image@, "sh"@, "-c"@, command@]);
        v
    }
}

/// What a backend makes of a finished process (`label` is `local exec` or `docker
/// exec`): the output (stdout then stderr) cut to 8000 characters, or on failure the
/// exit code (-1 when killed) and the output cut to 500.
pub fn exec_outcome(label: &str, stdout: &str, stderr: &str, success: bool, code: Option<i32>) -> (r:
    Result<String, ToolError>)
    ensures
        ({
            let text = stdout@ + stderr@;
            &&& success ==> (r matches Ok(o) && o@ == truncate_chars(text, 8000))
            &&& !success ==> (r matches Err(ToolError::Failed(m)) && m@ == label@ + " exit="@
                + crate::model::registry::int_text(
                match code {
                    Some(c) => c as int,
                    None => -1,
                },
            ) + ": "@ + truncate_chars(text, 500))
        }),
{
    let text = String::from_str(stdout).concat(stderr);
    if !success {
        let c: i32 = match code {
            Some(c) => c,
            None => -1,
        };
        return Err(
            ToolError::Failed(
                String::from_str(label).concat(" exit=").concat(
                    crate::model::registry::int_string(c).as_str(),
                ).concat(": ").concat(crate::text::truncate_str(text.as_str(), 500).as_str()),
            ),
        );
    }
    Ok(crate::text::truncate_str(text.as_str(), 8000))
}

/// A deterministic runner: replies popped from the end of a list, else an echo.
#[derive(Debug, Default)]
pub struct FixedExecRunner {
    pub responses: Vec<String>,
}

impl FixedExecRunner {
    /// Run a command: `DENY` in it fails; otherwise the last queued reply (removed), or
    /// `ran: <command>`, tagged with the backend.
    pub fn run(&mut self, backend: ExecBackend, command: &str) -> (r: Result<String, ToolError>)
        ensures
            contains(command@, "DENY"@) ==> (r matches Err(ToolError::Failed(m)) && m@
                == "fixed runner deny"@) && final(self).responses@ == old(self).responses@,
            !contains(command@, "DENY"@) && old(self).responses@.len() > 0 ==> (r matches Ok(o)
                && o@ == "["@ + backend_name(backend) + "] "@ + old(self).responses@.last()@)
                && final(self).responses@ == old(self).responses@.drop_last(),
            !contains(command@, "DENY"@) && old(self).responses@.len() == 0 ==> (r matches Ok(o)
                && o@ == "["@ + backend_name(backend) + "] ran: "@ + command@) && final(self).responses@ == old(self).responses@,
    {
        let cc = chars_of(command);
        let deny = chars_of("DENY");
        if crate::text::contains_seq(cc.as_slice(), deny.as_slice()) {
            return Err(ToolError::Failed(String::from_str("fixed runner deny")));
        }
        match self.responses.pop() {
            Some(r) => Ok(String::from_str("[").concat(backend_text(backend)).concat("] ").concat(
                r.as_str(),
            )),
            None => Ok(String::from_str("[").concat(backend_text(backend)).concat("] ran: ").concat(
                command,
            )),
        }
    }
}

/// The terminal tools: allowed names, cwd roots, a forced backend, the Run origin and
/// the approval flags for local execution.
pub struct TerminalTools {
    pub allowed: Vec<String>,
    pub cwd_roots: Vec<String>,
    pub force_backend: Option<ExecBackend>,
    pub origin: RunOrigin,
    pub local_requires_approval: bool,
    pub high_blast_local: bool,
}

/// What a terminal call asks for once checked.
pub struct TerminalPlan {
    pub backend: ExecBackend,
    pub command: String,
    pub cwd: Option<String>,
}

/// The backend for a call: the forced one, else the requested one (`local` or
/// `docker`), else Docker for reduced-trust origins and local for the control plane.
pub open spec fn chosen_backend(
    forced: Option<ExecBackend>,
    requested: Option<Seq<char>>,
    origin: RunOrigin,
) -> Result<ExecBackend, Seq<char>> {
    match forced {
        Some(f) => Ok(f),
        None => match requested {
            Some(r) => if r == "local"@ {
                Ok(ExecBackend::Local)
            } else if r == "docker"@ {
                Ok(ExecBackend::Docker)
            } else {
                Err("unknown exec backend '"@ + r + "'"@)
            },
            None => if origin.reduced() {
                Ok(ExecBackend::Docker)
            } else {
                Ok(ExecBackend::Local)
            },
        },
    }
}

/// The command of a call: `command`, else `cmd`, when it is text.
pub open spec fn command_arg(args: Json) -> Option<Seq<char>> {
    match get(args, "command"@) {
        Some(v) => str_of(v),
        None => get_str(args, "cmd"@),
    }
}

impl TerminalTools {
    pub fn new(allowed: Vec<String>, origin: RunOrigin) -> (r: Self)
        ensures
            r.allowed == allowed,
            r.cwd_roots@.len() == 0,
            r.force_backend is None,
            r.origin == origin,
            r.local_requires_approval,
            r.high_blast_local,
    {
        TerminalTools {
            allowed,
            cwd_roots: Vec::new(),
            force_backend: None,
            origin,
            local_requires_approval: true,
            high_blast_local: true,
        }
    }

    /// The same tools with these cwd roots.
    pub fn with_cwd_roots(self, roots: Vec<String>) -> (r: Self)
        ensures
            r.cwd_roots == roots,
            r.allowed == self.allowed,
            r.force_backend == self.force_backend,
            r.origin == self.origin,
    {
        TerminalTools { cwd_roots: roots, ..self }
    }

    /// The same tools always using `backend`.
    pub fn with_force_backend(self, backend: ExecBackend) -> (r: Self)
        ensures
            r.force_backend == Some(backend),
            r.allowed == self.allowed,
            r.cwd_roots == self.cwd_roots,
            r.origin == self.origin,
    {
        TerminalTools { force_backend: Some(backend), ..self }
    }

    /// The backend for a request.
    pub fn select_backend(&self, requested: Option<&str>) -> (r: Result<ExecBackend, ToolError>)
        ensures
            match chosen_backend(
                self.force_backend,
                crate::model::auth::opt_str_view(requested),
                self.origin,
            ) {
                Ok(b) => r == Ok::<ExecBackend, ToolError>(b),
                Err(m) => r matches Err(ToolError::Failed(x)) && x@ == m,
            },
    {
        proof {
            reveal_strlit("local");
            reveal_strlit("docker");
        }
        if let Some(f) = self.force_backend {
            return Ok(f);
        }
        match requested {
            Some(r) => if crate::text::str_eq(r, "local") {
                Ok(ExecBackend::Local)
            } else if crate::text::str_eq(r, "docker") {
                Ok(ExecBackend::Docker)
            } else {
                Err(ToolError::Failed(String::from_str("unknown exec backend '").concat(r).concat("'")))
            },
            None => if self.origin.is_reduced_trust() {
                Ok(ExecBackend::Docker)
            } else {
                Ok(ExecBackend::Local)
            },
        }
    }

    /// The catalog: `run_terminal` and its alias `shell_exec`, as allowed.
    pub fn catalog(&self) -> (r: Vec<ToolSpec>)
        ensures
            r@.len() == (if views(self.allowed@).contains("run_terminal"@) {
                1int
            } else {
                0
            }) + (if views(self.allowed@).contains("shell_exec"@) {
                1int
            } else {
                0
            }),
            forall|i: int| 0 <= i < r@.len() ==> is_empty_params(#[trigger] r@[i].parameters),
    {
        let mut out: Vec<ToolSpec> = Vec::new();
        if crate::text::list_contains(self.allowed.as_slice(), "run_terminal") {
            out.push(
                ToolSpec::empty_params("run_terminal", "Run a shell command (backend local or docker)"),
            );
        }
        if crate::text::list_contains(self.allowed.as_slice(), "shell_exec") {
            out.push(ToolSpec::empty_params("shell_exec", "Run a shell command (alias of run_terminal)"));
        }
        out
    }

    /// Check a call and read what it asks for: an allowed terminal tool, a non-blank
    /// command, a known backend, no local execution for reduced-trust origins, and a
    /// cwd without `..` when one is given (with roots configured).
    pub fn plan_call(&self, call: &ToolCall) -> (r: Result<TerminalPlan, ToolError>)
        ensures
            !views(self.allowed@).contains(call.name@) || !(call.name@ == "run_terminal"@
                || call.name@ == "shell_exec"@) ==> (r matches Err(ToolError::Denied(m)) && m@
                == crate::tools::workspace::disallowed(call.name@)),
            r matches Ok(p) ==> {
                &&& command_arg(call.arguments) == Some(p.command@)
                &&& trim(p.command@).len() > 0
                &&& chosen_backend(
                    self.force_backend,
                    get_str(call.arguments, "backend"@),
                    self.origin,
                ) == Ok::<ExecBackend, Seq<char>>(p.backend)
                &&& !(p.backend == ExecBackend::Local && self.origin.reduced())
                &&& crate::text::opt_view(p.cwd) == get_str(call.arguments, "cwd"@)
                &&& p.cwd is Some ==> self.cwd_roots@.len() > 0 && !contains(p.cwd->Some_0@, ".."@)
            },
            views(self.allowed@).contains(call.name@) && (call.name@ == "run_terminal"@
                || call.name@ == "shell_exec"@) ==> match command_arg(call.arguments) {
                None => r matches Err(ToolError::Failed(m)) && m@ == "missing command"@,
                Some(c) => if trim(c).len() == 0 {
                    r matches Err(ToolError::Failed(m)) && m@ == "empty command"@
                } else {
                    match chosen_backend(
                        self.force_backend,
                        get_str(call.arguments, "backend"@),
                        self.origin,
                    ) {
                        Err(m) => r matches Err(ToolError::Failed(x)) && x@ == m,
                        Ok(b) => if b == ExecBackend::Local && self.origin.reduced() {
                            r matches Err(ToolError::Denied(m)) && m@
                                == "local exec denied for reduced Run origin (use docker backend)"@
                        } else {
                            match get_str(call.arguments, "cwd"@) {
                                Some(d) => if self.cwd_roots@.len() == 0 {
                                    r matches Err(ToolError::PathJail(m)) && m@
                                        == "no cwd roots configured"@
                                } else if contains(d, ".."@) {
                                    r matches Err(ToolError::PathJail(m)) && m@
                                        == "cwd escapes roots"@
                                } else {
                                    r matches Ok(p) && p.backend == b && p.command@ == c
                                        && (p.cwd matches Some(x) && x@ == d)
                                },
                                None => r matches Ok(p) && p.backend == b && p.command@ == c
                                    && p.cwd is None,
                            }
                        },
                    }
                },
            },
    {
        let name = call.name.as_str();
        if !crate::text::list_contains(self.allowed.as_slice(), name) || !(crate::text::str_eq(
            name,
            "run_terminal",
        ) || crate::text::str_eq(name, "shell_exec")) {
            return Err(
                ToolError::Denied(
                    String::from_str("unknown or disallowed tool '").concat(name).concat("'"),
                ),
            );
        }
        let command = match crate::json::get_exec(&call.arguments, "command") {
            Some(v) => crate::json::as_str(v),
            None => crate::json::get_str_exec(&call.arguments, "cmd"),
        };
        let command = match command {
            Some(c) => c.clone(),
            None => return Err(ToolError::Failed(String::from_str("missing command"))),
        };
        if crate::text::trim_str(command.as_str()).as_str().is_empty() {
            return Err(ToolError::Failed(String::from_str("empty command")));
        }
        let requested = match crate::json::get_str_exec(&call.arguments, "backend") {
            Some(b) => Some(b.as_str()),
            None => None,
        };
        let backend = self.select_backend(requested)?;
        if backend == ExecBackend::Local && self.origin.is_reduced_trust() {
            return Err(
                ToolError::Denied(
                    String::from_str("local exec denied for reduced Run origin (use docker backend)"),
                ),
            );
        }
        let cwd = match crate::json::get_str_exec(&call.arguments, "cwd") {
            Some(c) => {
                check_cwd(self.cwd_roots.len(), c.as_str())?;
                Some(c.clone())
            },
            None => None,
        };
        Ok(TerminalPlan { backend, command, cwd })
    }
}

/// Refuse a cwd with no roots configured or holding `..`.
pub fn check_cwd(root_count: usize, user: &str) -> (r: Result<(), ToolError>)
    ensures
        root_count == 0 ==> (r matches Err(ToolError::PathJail(m)) && m@
            == "no cwd roots configured"@),
        root_count > 0 && contains(user@, ".."@) ==> (r matches Err(ToolError::PathJail(m)) && m@
            == "cwd escapes roots"@),
        root_count > 0 && !contains(user@, ".."@) ==> r is Ok,
{
    if root_count == 0 {
        return Err(ToolError::PathJail(String::from_str("no cwd roots configured")));
    }
    let uc = chars_of(user);
    let dd = chars_of("..");
    if crate::text::contains_seq(uc.as_slice(), dd.as_slice()) {
        return Err(ToolError::PathJail(String::from_str("cwd escapes roots")));
    }
    Ok(())
}

/// The answer to a command: its output, and the backend, command and output size for
/// the event.
pub fn terminal_result(backend: ExecBackend, command: &str, output: String) -> (r: ToolResult)
    ensures
        r.content == output,
        r.summary@ == "run_terminal backend="@ + backend_name(backend) + " cmd="@ + truncate_chars(
            command@,
            40,
        ) + " out_chars="@ + decimal(output@.len()),
{
    let n = chars_of(output.as_str()).len();
    let summary = String::from_str("run_terminal backend=").concat(backend_text(backend)).concat(
        " cmd=",
    ).concat(crate::text::truncate_str(command, 40).as_str()).concat(" out_chars=").concat(
        crate::text::decimal_string(n as u64).as_str(),
    );
    ToolResult { content: output, summary }
}

} // verus!
