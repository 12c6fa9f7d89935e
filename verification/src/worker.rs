//! The Worker's decisions: its configuration from the environment, the doctor
//! checks, which tool runtimes it composes, and what it wires at start. Reading the
//! environment and files, probing, serving and printing happen around the library.

use crate::model::registry::{nonempty_trimmed, value_or, ProviderDescriptor};
use crate::text::{debug_strings, decimal, opt_view, split, trim, views};
use crate::tools::web::IpAddress;
use vstd::prelude::*;

verus! {

/// A socket address as the Worker needs it: the IP, the port, and how `Display` writes
/// the IP and the whole address.
#[derive(Debug, Clone)]
pub struct BindAddr {
    pub ip: IpAddress,
    pub port: u16,
    pub ip_text: String,
    pub text: String,
}

/// A loopback address: `127.0.0.0/8` or `::1`.
pub open spec fn loopback(ip: IpAddress) -> bool {
    match ip {
        IpAddress::V4(a, _, _, _) => a == 127,
        IpAddress::V6(a, b, c, d, e, f, g, h) => a == 0 && b == 0 && c == 0 && d == 0 && e == 0
            && f == 0 && g == 0 && h == 1,
    }
}

/// Whether an address is loopback.
pub fn is_loopback(ip: IpAddress) -> (r: bool)
    ensures
        r == loopback(ip),
{
    match ip {
        IpAddress::V4(a, _, _, _) => a == 127,
        IpAddress::V6(a, b, c, d, e, f, g, h) => a == 0 && b == 0 && c == 0 && d == 0 && e == 0
            && f == 0 && g == 0 && h == 1,
    }
}

/// The bind text: `KERYX_BIND`, or the loopback default.
pub open spec fn bind_text(raw: Option<Seq<char>>) -> Seq<char> {
    value_or(raw, "127.0.0.1:8787"@)
}

/// The bind text to parse.
pub fn bind_text_of(raw: Option<&str>) -> (r: String)
    ensures
        r@ == bind_text(crate::model::auth::opt_str_view(raw)),
{
    match raw {
        Some(s) => String::from_str(s),
        None => String::from_str("127.0.0.1:8787"),
    }
}

/// What the bind setting gives: the parsed address when it is loopback; a parse error
/// or a non-loopback address is refused (fail closed).
pub open spec fn bind_outcome(raw: Option<Seq<char>>, parsed: Result<BindAddr, String>) -> Result<
    BindAddr,
    Seq<char>,
> {
    match parsed {
        Err(e) => Err("invalid KERYX_BIND '"@ + bind_text(raw) + "': "@ + e@),
        Ok(a) => if loopback(a.ip) {
            Ok(a)
        } else {
            Err(
                "KERYX_BIND must be a loopback address (got "@ + a.ip_text@
                    + "); Tailnet edge terminates TLS and proxies to loopback"@,
            )
        },
    }
}

/// The control plane binds to loopback only: the bind check accepts a parsed address
/// exactly when it lies in 127.0.0.0/8 or is `::1`, and then hands it back unchanged;
/// any other address is refused naming it, and a setting that did not parse is refused.
pub proof fn lemma_bind_loopback_only(raw: Option<Seq<char>>, parsed: Result<BindAddr, String>)
    ensures
        bind_outcome(raw, parsed) is Ok ==> parsed is Ok,
        parsed matches Ok(a) ==> (bind_outcome(raw, parsed) is Ok <==> (match a.ip {
            IpAddress::V4(x, _, _, _) => x == 127,
            IpAddress::V6(s0, s1, s2, s3, s4, s5, s6, s7) => s0 == 0 && s1 == 0 && s2 == 0 && s3
                == 0 && s4 == 0 && s5 == 0 && s6 == 0 && s7 == 1,
        })),
        bind_outcome(raw, parsed) matches Ok(b) ==> parsed == Ok::<BindAddr, String>(b),
        match parsed {
            Ok(a) => !(bind_outcome(raw, parsed) is Ok) ==> bind_outcome(raw, parsed) == Err::<
                BindAddr,
                Seq<char>,
            >(
                "KERYX_BIND must be a loopback address (got "@ + a.ip_text@
                    + "); Tailnet edge terminates TLS and proxies to loopback"@,
            ),
            Err(_) => !(bind_outcome(raw, parsed) is Ok),
        },
{
}

/// A loopback address is never a public fetch destination.
pub proof fn lemma_loopback_not_public(ip: IpAddress)
    requires
        loopback(ip),
    ensures
        !crate::tools::web::public_ip(ip),
{
}

/// Check the parsed bind setting (the text of `bind_text_of`, parsed as a socket
/// address): only loopback is accepted.
pub fn check_bind(raw: Option<&str>, parsed: Result<BindAddr, String>) -> (r: Result<BindAddr, String>)
    ensures
        match bind_outcome(crate::model::auth::opt_str_view(raw), parsed) {
            Ok(a) => r == Ok::<BindAddr, String>(a),
            Err(m) => r matches Err(x) && x@ == m,
        },
{
    match parsed {
        Err(e) => Err(
            String::from_str("invalid KERYX_BIND '").concat(bind_text_of(raw).as_str()).concat(
                "': ",
            ).concat(e.as_str()),
        ),
        Ok(a) => if is_loopback(a.ip) {
            Ok(a)
        } else {
            Err(
                String::from_str("KERYX_BIND must be a loopback address (got ").concat(
                    a.ip_text.as_str(),
                ).concat("); Tailnet edge terminates TLS and proxies to loopback"),
            )
        },
    }
}

/// A secret from its variable (when set and not empty), else from its file (when the
/// file variable is set; blank contents mean none); reading the file may fail.
pub open spec fn secret_outcome(
    file_key: Seq<char>,
    env_value: Option<Seq<char>>,
    file_path: Option<Seq<char>>,
    file_read: Option<Result<String, String>>,
) -> Result<Option<Seq<char>>, Seq<char>> {
    if env_value matches Some(v) && v.len() > 0 {
        Ok(env_value)
    } else {
        match file_path {
            Some(p) => match file_read {
                Some(Err(e)) => Err("failed to read "@ + file_key + "="@ + p + ": "@ + e@),
                Some(Ok(c)) => if trim(c@).len() == 0 {
                    Ok(None)
                } else {
                    Ok(Some(trim(c@)))
                },
                None => Ok(None),
            },
            None => Ok(None),
        }
    }
}

/// Read a secret: its variable's value, or its file's contents (the outcome of reading
/// the file is handed in when the file variable is set).
pub fn read_secret(
    file_key: &str,
    env_value: Option<&str>,
    file_path: Option<&str>,
    file_read: Option<Result<String, String>>,
) -> (r: Result<Option<String>, String>)
    ensures
        match secret_outcome(
            file_key@,
            crate::model::auth::opt_str_view(env_value),
            crate::model::auth::opt_str_view(file_path),
            file_read,
        ) {
            Ok(v) => r matches Ok(x) && opt_view(x) == v,
            Err(m) => r matches Err(x) && x@ == m,
        },
{
    if let Some(v) = env_value {
        if !v.is_empty() {
            return Ok(Some(String::from_str(v)));
        }
    }
    match file_path {
        Some(p) => match file_read {
            Some(Err(e)) => Err(
                String::from_str("failed to read ").concat(file_key).concat("=").concat(p).concat(
                    ": ",
                ).concat(e.as_str()),
            ),
            Some(Ok(c)) => {
                let t = crate::text::trim_str(c.as_str());
                if t.as_str().is_empty() {
                    Ok(None)
                } else {
                    Ok(Some(t))
                }
            },
            None => Ok(None),
        },
        None => Ok(None),
    }
}

/// The non-empty pieces, in order.
pub open spec fn nonempty(parts: Seq<Seq<char>>) -> Seq<Seq<char>> {
    parts.filter(|p: Seq<char>| p.len() > 0)
}

/// Colon-separated workspace roots, empty pieces dropped; unset gives none.
pub open spec fn roots_list(raw: Option<Seq<char>>) -> Seq<Seq<char>> {
    match raw {
        Some(s) => nonempty(split(s, ':')),
        None => Seq::empty(),
    }
}

/// The workspace roots of `KERYX_WORKSPACE_ROOTS`.
pub fn parse_roots(raw: Option<&str>) -> (r: Vec<String>)
    ensures
        views(r@) == roots_list(crate::model::auth::opt_str_view(raw)),
{
    let mut out: Vec<String> = Vec::new();
    match raw {
        None => out,
        Some(s) => {
            let cs = crate::text::chars_of(s);
            let parts = crate::text::split_exec(cs.as_slice(), ':');
            let ghost pv = parts@.map_values(|v: Vec<char>| v@);
            let ghost pred = |p: Seq<char>| p.len() > 0;
            let mut i: usize = 0;
            assert(pv.take(0) =~= Seq::<Seq<char>>::empty());
            assert(pv.take(0).filter(pred) =~= Seq::<Seq<char>>::empty()) by {
                reveal(Seq::filter);
            }
            while i < parts.len()
                invariant
                    i <= parts@.len(),
                    pv == parts@.map_values(|v: Vec<char>| v@),
                    pred == (|p: Seq<char>| p.len() > 0),
                    views(out@) == pv.take(i as int).filter(pred),
                decreases parts@.len() - i,
            {
                let ghost before = views(out@);
                assert(pv.take(i + 1).drop_last() =~= pv.take(i as int));
                assert(pv.take(i + 1).last() == parts@[i as int]@);
                if parts[i].len() > 0 {
                    out.push(crate::text::string_of(parts[i].as_slice()));
                    assert(views(out@) =~= before.push(parts@[i as int]@));
                }
                assert(views(out@) == pv.take(i + 1).filter(pred)) by {
                    reveal(Seq::filter);
                }
                i = i + 1;
            }
            assert(pv.take(i as int) =~= pv);
            out
        },
    }
}

/// The allowed tools: `KERYX_ALLOWED_TOOLS` comma-separated (trimmed, blanks dropped),
/// or read and write of files when unset.
pub open spec fn allowed_list(raw: Option<Seq<char>>) -> Seq<Seq<char>> {
    match raw {
        Some(s) => nonempty_trimmed(split(s, ',')),
        None => seq!["read_file"@, "write_file"@],
    }
}

/// The allowed tools of `KERYX_ALLOWED_TOOLS`.
pub fn parse_allowed_tools(raw: Option<&str>) -> (r: Vec<String>)
    ensures
        views(r@) == allowed_list(crate::model::auth::opt_str_view(raw)),
{
    match raw {
        Some(_) => crate::model::registry::parse_model_list(raw),
        None => {
            let mut v: Vec<String> = Vec::new();
            v.push(String::from_str("read_file"));
            v.push(String::from_str("write_file"));
            assert(views(v@) =~= seq!["read_file"@, "write_file"@]);
            v
        },
    }
}

/// A number setting: its value when it parses, none otherwise.
pub open spec fn opt_number(raw: Option<Seq<char>>, max: nat) -> Option<nat> {
    match raw {
        Some(s) => match crate::tools::mcp::protocol::parse_unsigned(s, max) {
            Ok(n) => Some(n),
            Err(_) => None,
        },
        None => None,
    }
}

fn parse_opt_u64(raw: Option<&str>) -> (r: Option<u64>)
    ensures
        match opt_number(crate::model::auth::opt_str_view(raw), u64::MAX as nat) {
            Some(n) => r == Some(n as u64),
            None => r is None,
        },
{
    match raw {
        Some(s) => {
            let c = crate::text::chars_of(s);
            match crate::tools::mcp::protocol::parse_u64_exec(c.as_slice()) {
                Ok(n) => Some(n),
                Err(_) => None,
            }
        },
        None => None,
    }
}

/// Limits on one Run (unset: unlimited).
#[derive(Debug, Clone)]
pub struct RunBudgets {
    pub max_duration_secs: Option<u64>,
    pub max_tokens: Option<u64>,
    pub max_tool_calls: Option<u64>,
}

/// The environment the Worker reads, as values (a secret file's contents are read
/// around the library and handed in).
#[derive(Debug)]
pub struct WorkerEnv {
    pub bind_raw: Option<String>,
    /// The bind text (`bind_text_of`) parsed as a socket address, or why it did not parse.
    pub bind_parsed: Result<BindAddr, String>,
    pub data_dir: Option<String>,
    pub operator_token: Option<String>,
    pub operator_token_file: Option<String>,
    pub operator_token_file_read: Option<Result<String, String>>,
    pub operator_principal: Option<String>,
    pub global_active_cap: Option<String>,
    pub max_duration_secs: Option<String>,
    pub max_tokens: Option<String>,
    pub max_tool_calls: Option<String>,
    pub workspace_roots: Option<String>,
    pub allowed_tools: Option<String>,
}

/// The Worker's configuration.
#[derive(Debug)]
pub struct WorkerConfig {
    pub bind: BindAddr,
    pub data_dir: String,
    /// Operator token and its principal.
    pub operator_tokens: Vec<(String, String)>,
    pub global_active_cap: usize,
    pub budgets: RunBudgets,
    pub workspace_roots: Vec<String>,
    pub allowed_tools: Vec<String>,
}

/// The message when no operator token is configured.
pub open spec fn token_required() -> Seq<char> {
    "KERYX_OPERATOR_TOKEN or KERYX_OPERATOR_TOKEN_FILE is required"@
}

/// Why the environment gives no configuration, if it does not: the bind, then the
/// operator token.
pub open spec fn config_error(env: WorkerEnv) -> Option<Seq<char>> {
    match bind_outcome(opt_view(env.bind_raw), env.bind_parsed) {
        Err(m) => Some(m),
        Ok(_) => match secret_outcome(
            "KERYX_OPERATOR_TOKEN_FILE"@,
            opt_view(env.operator_token),
            opt_view(env.operator_token_file),
            env.operator_token_file_read,
        ) {
            Err(m) => Some(m),
            Ok(Some(t)) => if t.len() > 0 {
                None
            } else {
                Some(token_required())
            },
            Ok(None) => Some(token_required()),
        },
    }
}

/// The configuration the environment gives (where `config_error` is `None`).
pub open spec fn config_fits(env: WorkerEnv, c: WorkerConfig) -> bool {
    &&& bind_outcome(opt_view(env.bind_raw), env.bind_parsed) == Ok::<BindAddr, Seq<char>>(c.bind)
    &&& c.data_dir@ == value_or(opt_view(env.data_dir), "./data"@)
    &&& c.operator_tokens@.len() == 1
    &&& secret_outcome(
        "KERYX_OPERATOR_TOKEN_FILE"@,
        opt_view(env.operator_token),
        opt_view(env.operator_token_file),
        env.operator_token_file_read,
    ) == Ok::<Option<Seq<char>>, Seq<char>>(Some(c.operator_tokens@[0].0@))
    &&& c.operator_tokens@[0].1@ == value_or(opt_view(env.operator_principal), "operator"@)
    &&& c.global_active_cap as nat == match opt_number(opt_view(env.global_active_cap), usize::MAX as nat) {
        Some(n) => n,
        None => 2,
    }
    &&& c.budgets.max_duration_secs == match opt_number(opt_view(env.max_duration_secs), u64::MAX as nat) {
        Some(n) => Some(n as u64),
        None => None,
    }
    &&& c.budgets.max_tokens == match opt_number(opt_view(env.max_tokens), u64::MAX as nat) {
        Some(n) => Some(n as u64),
        None => None,
    }
    &&& c.budgets.max_tool_calls == match opt_number(opt_view(env.max_tool_calls), u64::MAX as nat) {
        Some(n) => Some(n as u64),
        None => None,
    }
    &&& views(c.workspace_roots@) == roots_list(opt_view(env.workspace_roots))
    &&& views(c.allowed_tools@) == allowed_list(opt_view(env.allowed_tools))
}

fn str_opt(o: &Option<String>) -> (r: Option<&str>)
    ensures
        crate::model::auth::opt_str_view(r) == opt_view(*o),
{
    match o {
        Some(s) => Some(s.as_str()),
        None => None,
    }
}

/// The Worker's configuration from its environment: a loopback bind and an operator
/// token are required; everything else has a default.
pub fn worker_config(env: WorkerEnv) -> (r: Result<WorkerConfig, String>)
    ensures
        match config_error(env) {
            Some(m) => r matches Err(x) && x@ == m,
            None => r matches Ok(c) && config_fits(env, c),
        },
{
    let ghost e = env;
    let bind = match check_bind(str_opt(&env.bind_raw), env.bind_parsed) {
        Ok(a) => a,
        Err(m) => {
            return Err(m);
        },
    };
    let data_dir = match &env.data_dir {
        Some(d) => d.clone(),
        None => String::from_str("./data"),
    };
    let token = match read_secret(
        "KERYX_OPERATOR_TOKEN_FILE",
        str_opt(&env.operator_token),
        str_opt(&env.operator_token_file),
        env.operator_token_file_read,
    ) {
        Ok(t) => t,
        Err(m) => {
            return Err(m);
        },
    };
    let principal = match &env.operator_principal {
        Some(p) => p.clone(),
        None => String::from_str("operator"),
    };
    let operator_tokens = match token {
        Some(t) => if t.as_str().is_empty() {
            return Err(
                String::from_str("KERYX_OPERATOR_TOKEN or KERYX_OPERATOR_TOKEN_FILE is required"),
            );
        } else {
            let mut v: Vec<(String, String)> = Vec::new();
            v.push((t, principal));
            v
        },
        None => {
            return Err(
                String::from_str("KERYX_OPERATOR_TOKEN or KERYX_OPERATOR_TOKEN_FILE is required"),
            );
        },
    };
    let cap: usize = match str_opt(&env.global_active_cap) {
        Some(s) => {
            let c = crate::text::chars_of(s);
            match crate::tools::mcp::protocol::parse_usize_exec(c.as_slice()) {
                Ok(n) => n,
                Err(_) => 2,
            }
        },
        None => 2,
    };
    let budgets = RunBudgets {
        max_duration_secs: parse_opt_u64(str_opt(&env.max_duration_secs)),
        max_tokens: parse_opt_u64(str_opt(&env.max_tokens)),
        max_tool_calls: parse_opt_u64(str_opt(&env.max_tool_calls)),
    };
    let workspace_roots = parse_roots(str_opt(&env.workspace_roots));
    let allowed_tools = parse_allowed_tools(str_opt(&env.allowed_tools));
    Ok(
        WorkerConfig {
            bind,
            data_dir,
            operator_tokens,
            global_active_cap: cap,
            budgets,
            workspace_roots,
            allowed_tools,
        },
    )
}

/// Run limits: the concurrent Active Run cap and the per-Run budgets.
#[derive(Debug, Clone)]
pub struct RunLimits {
    pub global_cap: usize,
    pub budgets: RunBudgets,
}

impl WorkerConfig {
    /// The run limits this configuration sets.
    pub fn run_limits(&self) -> (r: RunLimits)
        ensures
            r.global_cap == self.global_active_cap,
            r.budgets.max_duration_secs == self.budgets.max_duration_secs,
            r.budgets.max_tokens == self.budgets.max_tokens,
            r.budgets.max_tool_calls == self.budgets.max_tool_calls,
    {
        RunLimits {
            global_cap: self.global_active_cap,
            budgets: RunBudgets {
                max_duration_secs: self.budgets.max_duration_secs,
                max_tokens: self.budgets.max_tokens,
                max_tool_calls: self.budgets.max_tool_calls,
            },
        }
    }
}

/// What the Worker registered of its model providers.
#[derive(Debug)]
pub struct ProvidersFacts {
    pub descriptors: Vec<ProviderDescriptor>,
    pub default_provider: String,
}

/// What the MCP part of the doctor knows: the config path, the number of configured
/// servers, the policy extra tools and the report of a connect attempt.
#[derive(Debug)]
pub struct McpDoctorFacts {
    pub config_path: Option<String>,
    pub server_count: usize,
    pub policy_extra_tools: Vec<String>,
    pub report: crate::tools::mcp::client::McpDoctorReport,
}

/// What the doctor checks, as observed around the library (no secret values).
#[derive(Debug)]
pub struct DoctorFacts {
    pub bind_text: String,
    pub bind_loopback: bool,
    /// The principal of each operator token.
    pub principals: Vec<String>,
    pub data_dir_text: String,
    /// Whether a probe file could be written in the data directory.
    pub data_dir_writable: Result<(), String>,
    pub providers: Result<ProvidersFacts, String>,
    pub workspace_roots: Vec<String>,
    pub allowed_tools: Vec<String>,
    /// The Soul path and whether it is a file.
    pub soul: Option<(String, bool)>,
    pub context_files: Vec<String>,
    pub skills_root: String,
    pub skills_root_is_dir: bool,
    pub telegram_token: Option<String>,
    pub docker_available: bool,
    /// `KERYX_BIND` parses to a non-loopback address.
    pub env_bind_public: bool,
    pub mcp: Option<McpDoctorFacts>,
    /// The body of a live `/health` answer, or why there was none.
    pub health: Result<String, String>,
}

/// A section of the doctor: its lines, and the failed checks and warnings it counts.
pub type Section = (Seq<Seq<char>>, nat, nat);

pub open spec fn bind_section(f: DoctorFacts) -> Section {
    if f.bind_loopback {
        (seq!["ok   bind is loopback ("@ + f.bind_text@ + ")"@], 0, 0)
    } else {
        (seq!["fail bind is not loopback ("@ + f.bind_text@ + ")"@], 1, 0)
    }
}

pub open spec fn tokens_section(f: DoctorFacts) -> Section {
    if f.principals@.len() == 0 {
        (seq!["fail no operator tokens configured"@], 1, 0)
    } else {
        (
            seq![
                "ok   operator tokens configured: "@ + decimal(f.principals@.len()) + " (principals: "@
                    + debug_strings(views(f.principals@)) + ")"@,
            ],
            0,
            0,
        )
    }
}

pub open spec fn data_dir_section(f: DoctorFacts) -> Section {
    match f.data_dir_writable {
        Ok(()) => (seq!["ok   data dir writable ("@ + f.data_dir_text@ + ")"@], 0, 0),
        Err(e) => (seq!["fail data dir not writable ("@ + f.data_dir_text@ + "): "@ + e@], 1, 0),
    }
}

/// One doctor line per provider descriptor.
pub open spec fn descriptor_lines(ds: Seq<ProviderDescriptor>) -> Seq<Seq<char>> {
    ds.map_values(
        |d: ProviderDescriptor|
            "     - "@ + d.name@ + " ["@ + d.display_name@ + "] model="@ + d.default_model@
                + " auth="@ + d.auth_kind.name(),
    )
}

pub open spec fn providers_section(f: DoctorFacts) -> Section {
    match f.providers {
        Ok(p) => (
            seq![
                "ok   providers registered: "@ + debug_strings(
                    crate::model::registry::registered_names(p.descriptors@),
                ) + " (default="@ + p.default_provider@ + ")"@,
            ] + descriptor_lines(p.descriptors@),
            0,
            0,
        ),
        Err(e) => (seq!["fail model providers: "@ + e@], 1, 0),
    }
}

pub open spec fn tools_section(f: DoctorFacts) -> Section {
    if f.workspace_roots@.len() == 0 {
        (seq!["warn no KERYX_WORKSPACE_ROOTS — file tools disabled (DenyAll)"@], 0, 1)
    } else {
        (
            seq![
                "ok   workspace roots: "@ + debug_strings(views(f.workspace_roots@))
                    + " allowed_tools="@ + debug_strings(views(f.allowed_tools@)),
            ],
            0,
            0,
        )
    }
}

pub open spec fn soul_section(f: DoctorFacts) -> Section {
    match f.soul {
        Some((p, true)) => (seq!["ok   Soul path "@ + p@], 0, 0),
        Some((p, false)) => (
            seq![
                "warn Soul path configured but missing ("@ + p@
                    + ") — Runs continue without Soul"@,
            ],
            0,
            1,
        ),
        None => (seq!["info no KERYX_SOUL_PATH — Runs start without Soul"@], 0, 0),
    }
}

pub open spec fn context_section(f: DoctorFacts) -> Section {
    if f.context_files@.len() == 0 {
        (seq!["info no KERYX_CONTEXT_FILES — no workspace Context auto-attach"@], 0, 0)
    } else {
        (seq!["ok   Context files configured: "@ + debug_strings(views(f.context_files@))], 0, 0)
    }
}

pub open spec fn skills_section(f: DoctorFacts) -> Section {
    if f.skills_root_is_dir {
        (seq!["ok   skills root "@ + f.skills_root@], 0, 0)
    } else {
        (
            seq![
                "warn skills root missing ("@ + f.skills_root@
                    + ") — create or set KERYX_SKILLS_ROOT"@,
            ],
            0,
            1,
        )
    }
}

pub open spec fn telegram_section(f: DoctorFacts) -> Section {
    if f.telegram_token matches Some(t) && t@.len() > 0 {
        (seq!["ok   Telegram Gateway token configured"@], 0, 0)
    } else {
        (seq!["info Telegram Gateway disabled (no KERYX_TELEGRAM_BOT_TOKEN)"@], 0, 0)
    }
}

pub open spec fn docker_section(f: DoctorFacts) -> Section {
    if f.docker_available {
        (seq!["ok   Docker available for exec backend"@], 0, 0)
    } else {
        (seq!["warn Docker not available — reduced-origin local exec stays denied"@], 0, 1)
    }
}

pub open spec fn public_bind_section(f: DoctorFacts) -> Section {
    if f.env_bind_public {
        (seq!["fail public/non-loopback bind is dangerous misconfig"@], 1, 0)
    } else {
        (Seq::empty(), 0, 0)
    }
}

/// The MCP config line, when a config path is known.
pub open spec fn mcp_path_lines(m: McpDoctorFacts) -> Seq<Seq<char>> {
    match m.config_path {
        Some(p) => seq![
            "ok   MCP config path "@ + p@ + " ("@ + decimal(m.server_count as nat) + " server(s))"@,
        ],
        None => Seq::empty(),
    }
}

/// The policy extras line, when there are any.
pub open spec fn mcp_extra_lines(m: McpDoctorFacts) -> Seq<Seq<char>> {
    if m.policy_extra_tools@.len() > 0 {
        seq!["ok   KERYX_POLICY_EXTRA_TOOLS: "@ + debug_strings(views(m.policy_extra_tools@))]
    } else {
        Seq::empty()
    }
}

pub open spec fn mcp_section(f: DoctorFacts) -> Section {
    match f.mcp {
        Some(m) => (
            mcp_path_lines(m) + mcp_extra_lines(m) + crate::tools::mcp::client::report_lines(m.report),
            0,
            0,
        ),
        None => (seq!["info MCP: no servers configured (set KERYX_MCP_CONFIG)"@], 0, 0),
    }
}

pub open spec fn health_section(f: DoctorFacts) -> Section {
    let url = "http://"@ + f.bind_text@ + "/health"@;
    match f.health {
        Ok(body) => (seq!["ok   live health at "@ + url + ": "@ + body@], 0, 0),
        Err(e) => (
            seq!["info no live Worker at "@ + url + " ("@ + e@ + ") — start with: keryx"@],
            0,
            0,
        ),
    }
}

/// The doctor's checks after the header line, in order.
pub open spec fn doctor_sections(f: DoctorFacts) -> Seq<Section> {
    seq![
        bind_section(f),
        tokens_section(f),
        data_dir_section(f),
        providers_section(f),
        tools_section(f),
        soul_section(f),
        context_section(f),
        skills_section(f),
        telegram_section(f),
        docker_section(f),
        public_bind_section(f),
        mcp_section(f),
        health_section(f),
    ]
}

/// The lines of some sections, one after another.
pub open spec fn section_lines(ss: Seq<Section>) -> Seq<Seq<char>>
    decreases ss.len(),
{
    if ss.len() == 0 {
        Seq::empty()
    } else {
        section_lines(ss.drop_last()) + ss.last().0
    }
}

/// The failed checks of some sections.
pub open spec fn section_issues(ss: Seq<Section>) -> nat
    decreases ss.len(),
{
    if ss.len() == 0 {
        0
    } else {
        section_issues(ss.drop_last()) + ss.last().1
    }
}

/// The warnings of some sections.
pub open spec fn section_warnings(ss: Seq<Section>) -> nat
    decreases ss.len(),
{
    if ss.len() == 0 {
        0
    } else {
        section_warnings(ss.drop_last()) + ss.last().2
    }
}

/// The lines the doctor shows and its result: one failed check fails it.
pub open spec fn doctor_outcome(version: Seq<char>, f: DoctorFacts) -> (Seq<Seq<char>>, Result<(), Seq<char>>) {
    let ss = doctor_sections(f);
    let issues = section_issues(ss);
    let warns = section_warnings(ss);
    let body = seq!["keryx doctor "@ + version] + section_lines(ss) + seq![Seq::<char>::empty()];
    if issues > 0 {
        (body, Err(decimal(issues) + " check(s) failed, "@ + decimal(warns) + " warning(s)"@))
    } else {
        (
            body + seq![
                "doctor: all required checks passed ("@ + decimal(warns) + " warning(s))"@,
                "next: start with `keryx`, then run scripts/smoke.sh"@,
            ],
            Ok(()),
        )
    }
}

fn one(line: String) -> (r: Vec<String>)
    ensures
        views(r@) == seq![line@],
{
    let mut v: Vec<String> = Vec::new();
    v.push(line);
    assert(views(v@) =~= seq![line@]);
    v
}

fn bind_lines(f: &DoctorFacts) -> (r: (Vec<String>, u32, u32))
    ensures
        (views(r.0@), r.1 as nat, r.2 as nat) == bind_section(*f),
{
    if f.bind_loopback {
        (one(String::from_str("ok   bind is loopback (").concat(f.bind_text.as_str()).concat(")")), 0, 0)
    } else {
        (one(String::from_str("fail bind is not loopback (").concat(f.bind_text.as_str()).concat(")")), 1, 0)
    }
}

fn tokens_lines(f: &DoctorFacts) -> (r: (Vec<String>, u32, u32))
    ensures
        (views(r.0@), r.1 as nat, r.2 as nat) == tokens_section(*f),
{
    if f.principals.len() == 0 {
        (one(String::from_str("fail no operator tokens configured")), 1, 0)
    } else {
        (
            one(
                String::from_str("ok   operator tokens configured: ").concat(
                    crate::text::decimal_string(f.principals.len() as u64).as_str(),
                ).concat(" (principals: ").concat(
                    crate::text::debug_strings_exec(f.principals.as_slice()).as_str(),
                ).concat(")"),
            ),
            0,
            0,
        )
    }
}

fn data_dir_lines(f: &DoctorFacts) -> (r: (Vec<String>, u32, u32))
    ensures
        (views(r.0@), r.1 as nat, r.2 as nat) == data_dir_section(*f),
{
    match &f.data_dir_writable {
        Ok(()) => (
            one(String::from_str("ok   data dir writable (").concat(f.data_dir_text.as_str()).concat(")")),
            0,
            0,
        ),
        Err(e) => (
            one(
                String::from_str("fail data dir not writable (").concat(f.data_dir_text.as_str()).concat(
                    "): ",
                ).concat(e.as_str()),
            ),
            1,
            0,
        ),
    }
}

fn providers_lines(f: &DoctorFacts) -> (r: (Vec<String>, u32, u32))
    ensures
        (views(r.0@), r.1 as nat, r.2 as nat) == providers_section(*f),
{
    match &f.providers {
        Ok(p) => {
            let names = crate::model::registry::provider_names(p.descriptors.as_slice());
            let mut out = one(
                String::from_str("ok   providers registered: ").concat(
                    crate::text::debug_strings_exec(names.as_slice()).as_str(),
                ).concat(" (default=").concat(p.default_provider.as_str()).concat(")"),
            );
            let ghost head = views(out@);
            let mut i: usize = 0;
            while i < p.descriptors.len()
                invariant
                    i <= p.descriptors@.len(),
                    views(out@) == head + descriptor_lines(p.descriptors@).take(i as int),
                decreases p.descriptors@.len() - i,
            {
                let d = &p.descriptors[i];
                let ghost before = views(out@);
                out.push(
                    String::from_str("     - ").concat(d.name.as_str()).concat(" [").concat(
                        d.display_name.as_str(),
                    ).concat("] model=").concat(d.default_model.as_str()).concat(" auth=").concat(
                        d.auth_kind.as_str(),
                    ),
                );
                assert(descriptor_lines(p.descriptors@)[i as int] == views(out@).last());
                assert(views(out@) =~= before.push(descriptor_lines(p.descriptors@)[i as int]));
                i = i + 1;
                assert(views(out@) =~= head + descriptor_lines(p.descriptors@).take(i as int));
            }
            assert(descriptor_lines(p.descriptors@).take(i as int) =~= descriptor_lines(p.descriptors@));
            (out, 0, 0)
        },
        Err(e) => (one(String::from_str("fail model providers: ").concat(e.as_str())), 1, 0),
    }
}

fn tools_lines(f: &DoctorFacts) -> (r: (Vec<String>, u32, u32))
    ensures
        (views(r.0@), r.1 as nat, r.2 as nat) == tools_section(*f),
{
    if f.workspace_roots.len() == 0 {
        (one(String::from_str("warn no KERYX_WORKSPACE_ROOTS — file tools disabled (DenyAll)")), 0, 1)
    } else {
        (
            one(
                String::from_str("ok   workspace roots: ").concat(
                    crate::text::debug_strings_exec(f.workspace_roots.as_slice()).as_str(),
                ).concat(" allowed_tools=").concat(
                    crate::text::debug_strings_exec(f.allowed_tools.as_slice()).as_str(),
                ),
            ),
            0,
            0,
        )
    }
}

fn soul_lines(f: &DoctorFacts) -> (r: (Vec<String>, u32, u32))
    ensures
        (views(r.0@), r.1 as nat, r.2 as nat) == soul_section(*f),
{
    match &f.soul {
        Some((p, true)) => (one(String::from_str("ok   Soul path ").concat(p.as_str())), 0, 0),
        Some((p, false)) => (
            one(
                String::from_str("warn Soul path configured but missing (").concat(p.as_str()).concat(
                    ") — Runs continue without Soul",
                ),
            ),
            0,
            1,
        ),
        None => (one(String::from_str("info no KERYX_SOUL_PATH — Runs start without Soul")), 0, 0),
    }
}

fn context_lines(f: &DoctorFacts) -> (r: (Vec<String>, u32, u32))
    ensures
        (views(r.0@), r.1 as nat, r.2 as nat) == context_section(*f),
{
    if f.context_files.len() == 0 {
        (one(String::from_str("info no KERYX_CONTEXT_FILES — no workspace Context auto-attach")), 0, 0)
    } else {
        (
            one(
                String::from_str("ok   Context files configured: ").concat(
                    crate::text::debug_strings_exec(f.context_files.as_slice()).as_str(),
                ),
            ),
            0,
            0,
        )
    }
}

fn skills_lines(f: &DoctorFacts) -> (r: (Vec<String>, u32, u32))
    ensures
        (views(r.0@), r.1 as nat, r.2 as nat) == skills_section(*f),
{
    if f.skills_root_is_dir {
        (one(String::from_str("ok   skills root ").concat(f.skills_root.as_str())), 0, 0)
    } else {
        (
            one(
                String::from_str("warn skills root missing (").concat(f.skills_root.as_str()).concat(
                    ") — create or set KERYX_SKILLS_ROOT",
                ),
            ),
            0,
            1,
        )
    }
}

fn telegram_lines(f: &DoctorFacts) -> (r: (Vec<String>, u32, u32))
    ensures
        (views(r.0@), r.1 as nat, r.2 as nat) == telegram_section(*f),
{
    let configured = match &f.telegram_token {
        Some(t) => !t.as_str().is_empty(),
        None => false,
    };
    if configured {
        (one(String::from_str("ok   Telegram Gateway token configured")), 0, 0)
    } else {
        (one(String::from_str("info Telegram Gateway disabled (no KERYX_TELEGRAM_BOT_TOKEN)")), 0, 0)
    }
}

fn docker_lines(f: &DoctorFacts) -> (r: (Vec<String>, u32, u32))
    ensures
        (views(r.0@), r.1 as nat, r.2 as nat) == docker_section(*f),
{
    if f.docker_available {
        (one(String::from_str("ok   Docker available for exec backend")), 0, 0)
    } else {
        (one(String::from_str("warn Docker not available — reduced-origin local exec stays denied")), 0, 1)
    }
}

fn public_bind_lines(f: &DoctorFacts) -> (r: (Vec<String>, u32, u32))
    ensures
        (views(r.0@), r.1 as nat, r.2 as nat) == public_bind_section(*f),
{
    if f.env_bind_public {
        (one(String::from_str("fail public/non-loopback bind is dangerous misconfig")), 1, 0)
    } else {
        let v: Vec<String> = Vec::new();
        assert(views(v@) =~= Seq::<Seq<char>>::empty());
        (v, 0, 0)
    }
}

fn mcp_lines(f: &DoctorFacts) -> (r: (Vec<String>, u32, u32))
    ensures
        (views(r.0@), r.1 as nat, r.2 as nat) == mcp_section(*f),
{
    match &f.mcp {
        Some(m) => {
            let mut out: Vec<String> = Vec::new();
            let ghost a = mcp_path_lines(*m);
            if let Some(p) = &m.config_path {
                out.push(
                    String::from_str("ok   MCP config path ").concat(p.as_str()).concat(" (").concat(
                        crate::text::decimal_string(m.server_count as u64).as_str(),
                    ).concat(" server(s))"),
                );
            }
            assert(views(out@) =~= a);
            let ghost b = mcp_extra_lines(*m);
            if m.policy_extra_tools.len() > 0 {
                out.push(
                    String::from_str("ok   KERYX_POLICY_EXTRA_TOOLS: ").concat(
                        crate::text::debug_strings_exec(m.policy_extra_tools.as_slice()).as_str(),
                    ),
                );
            }
            assert(views(out@) =~= a + b);
            let mut lines = m.report.lines();
            let ghost c = views(lines@);
            out.append(&mut lines);
            assert(views(out@) =~= a + b + c);
            (out, 0, 0)
        },
        None => (one(String::from_str("info MCP: no servers configured (set KERYX_MCP_CONFIG)")), 0, 0),
    }
}

fn health_lines(f: &DoctorFacts) -> (r: (Vec<String>, u32, u32))
    ensures
        (views(r.0@), r.1 as nat, r.2 as nat) == health_section(*f),
{
    let url = String::from_str("http://").concat(f.bind_text.as_str()).concat("/health");
    match &f.health {
        Ok(body) => (
            one(String::from_str("ok   live health at ").concat(url.as_str()).concat(": ").concat(body.as_str())),
            0,
            0,
        ),
        Err(e) => (
            one(
                String::from_str("info no live Worker at ").concat(url.as_str()).concat(" (").concat(
                    e.as_str(),
                ).concat(") — start with: keryx"),
            ),
            0,
            0,
        ),
    }
}

proof fn lemma_sections_step(ss: Seq<Section>, k: int)
    requires
        0 <= k < ss.len(),
    ensures
        section_lines(ss.take(k + 1)) == section_lines(ss.take(k)) + ss[k].0,
        section_issues(ss.take(k + 1)) == section_issues(ss.take(k)) + ss[k].1,
        section_warnings(ss.take(k + 1)) == section_warnings(ss.take(k)) + ss[k].2,
{
    assert(ss.take(k + 1).drop_last() =~= ss.take(k));
}

fn add_section(
    out: &mut Vec<String>,
    issues: &mut u32,
    warns: &mut u32,
    sec: (Vec<String>, u32, u32),
    Ghost(ss): Ghost<Seq<Section>>,
    Ghost(k): Ghost<int>,
    Ghost(head): Ghost<Seq<Seq<char>>>,
)
    requires
        0 <= k < ss.len(),
        views(old(out)@) == head + section_lines(ss.take(k)),
        *old(issues) as nat == section_issues(ss.take(k)),
        *old(warns) as nat == section_warnings(ss.take(k)),
        *old(issues) <= k,
        *old(warns) <= k,
        k < 100,
        (views(sec.0@), sec.1 as nat, sec.2 as nat) == ss[k],
        sec.1 <= 1,
        sec.2 <= 1,
    ensures
        views(final(out)@) == head + section_lines(ss.take(k + 1)),
        *final(issues) as nat == section_issues(ss.take(k + 1)),
        *final(warns) as nat == section_warnings(ss.take(k + 1)),
        *final(issues) <= k + 1,
        *final(warns) <= k + 1,
{
    proof {
        lemma_sections_step(ss, k);
    }
    let (mut l, a, b) = sec;
    let ghost before = views(out@);
    let ghost added = views(l@);
    out.append(&mut l);
    assert(views(out@) =~= before + added);
    *issues = *issues + a;
    *warns = *warns + b;
}

/// Run the doctor over what was observed: every line it prints, in order, and its
/// outcome (an error naming the failed checks when one failed).
pub fn doctor(version: &str, f: &DoctorFacts) -> (r: (Vec<String>, Result<(), String>))
    ensures
        views(r.0@) == doctor_outcome(version@, *f).0,
        match doctor_outcome(version@, *f).1 {
            Ok(()) => r.1 is Ok,
            Err(m) => r.1 matches Err(x) && x@ == m,
        },
{
    let ghost ss = doctor_sections(*f);
    let mut out = one(String::from_str("keryx doctor ").concat(version));
    let ghost head = views(out@);
    let mut issues: u32 = 0;
    let mut warns: u32 = 0;
    assert(ss.take(0) =~= Seq::<Section>::empty());
    assert(views(out@) =~= head + section_lines(ss.take(0)));
    let sec = bind_lines(f);
    assert(ss[0] == bind_section(*f));
    add_section(&mut out, &mut issues, &mut warns, sec, Ghost(ss), Ghost(0), Ghost(head));
    let sec = tokens_lines(f);
    assert(ss[1] == tokens_section(*f));
    add_section(&mut out, &mut issues, &mut warns, sec, Ghost(ss), Ghost(1), Ghost(head));
    let sec = data_dir_lines(f);
    assert(ss[2] == data_dir_section(*f));
    add_section(&mut out, &mut issues, &mut warns, sec, Ghost(ss), Ghost(2), Ghost(head));
    let sec = providers_lines(f);
    assert(ss[3] == providers_section(*f));
    add_section(&mut out, &mut issues, &mut warns, sec, Ghost(ss), Ghost(3), Ghost(head));
    let sec = tools_lines(f);
    assert(ss[4] == tools_section(*f));
    add_section(&mut out, &mut issues, &mut warns, sec, Ghost(ss), Ghost(4), Ghost(head));
    let sec = soul_lines(f);
    assert(ss[5] == soul_section(*f));
    add_section(&mut out, &mut issues, &mut warns, sec, Ghost(ss), Ghost(5), Ghost(head));
    let sec = context_lines(f);
    assert(ss[6] == context_section(*f));
    add_section(&mut out, &mut issues, &mut warns, sec, Ghost(ss), Ghost(6), Ghost(head));
    let sec = skills_lines(f);
    assert(ss[7] == skills_section(*f));
    add_section(&mut out, &mut issues, &mut warns, sec, Ghost(ss), Ghost(7), Ghost(head));
    let sec = telegram_lines(f);
    assert(ss[8] == telegram_section(*f));
    add_section(&mut out, &mut issues, &mut warns, sec, Ghost(ss), Ghost(8), Ghost(head));
    let sec = docker_lines(f);
    assert(ss[9] == docker_section(*f));
    add_section(&mut out, &mut issues, &mut warns, sec, Ghost(ss), Ghost(9), Ghost(head));
    let sec = public_bind_lines(f);
    assert(ss[10] == public_bind_section(*f));
    add_section(&mut out, &mut issues, &mut warns, sec, Ghost(ss), Ghost(10), Ghost(head));
    let sec = mcp_lines(f);
    assert(ss[11] == mcp_section(*f));
    add_section(&mut out, &mut issues, &mut warns, sec, Ghost(ss), Ghost(11), Ghost(head));
    let sec = health_lines(f);
    assert(ss[12] == health_section(*f));
    add_section(&mut out, &mut issues, &mut warns, sec, Ghost(ss), Ghost(12), Ghost(head));
    assert(ss.take(13) =~= ss);
    out.push(String::new());
    assert(views(out@) =~= head + section_lines(ss) + seq![Seq::<char>::empty()]);
    if issues > 0 {
        let msg = crate::text::decimal_string(issues as u64).concat(" check(s) failed, ").concat(
            crate::text::decimal_string(warns as u64).as_str(),
        ).concat(" warning(s)");
        (out, Err(msg))
    } else {
        let ghost before = views(out@);
        out.push(
            String::from_str("doctor: all required checks passed (").concat(
                crate::text::decimal_string(warns as u64).as_str(),
            ).concat(" warning(s))"),
        );
        out.push(String::from_str("next: start with `keryx`, then run scripts/smoke.sh"));
        assert(views(out@) =~= before + seq![
            "doctor: all required checks passed ("@ + decimal(warns as nat) + " warning(s))"@,
            "next: start with `keryx`, then run scripts/smoke.sh"@,
        ]);
        (out, Ok(()))
    }
}

/// The names among `candidates` that `allowed` holds, in order.
pub open spec fn allowed_among(candidates: Seq<Seq<char>>, allowed: Seq<Seq<char>>) -> Seq<Seq<char>> {
    candidates.filter(|n: Seq<char>| allowed.contains(n))
}

fn pick_allowed(candidates: &[&str], allowed: &[String]) -> (r: Vec<String>)
    ensures
        views(r@) == allowed_among(candidates@.map_values(|c: &str| c@), views(allowed@)),
{
    let ghost cs = candidates@.map_values(|c: &str| c@);
    let ghost pred = |n: Seq<char>| views(allowed@).contains(n);
    let mut out: Vec<String> = Vec::new();
    let mut i: usize = 0;
    assert(cs.take(0) =~= Seq::<Seq<char>>::empty());
    assert(cs.take(0).filter(pred) =~= Seq::<Seq<char>>::empty()) by {
        reveal(Seq::filter);
    }
    while i < candidates.len()
        invariant
            i <= candidates@.len(),
            cs == candidates@.map_values(|c: &str| c@),
            pred == (|n: Seq<char>| views(allowed@).contains(n)),
            views(out@) == cs.take(i as int).filter(pred),
        decreases candidates@.len() - i,
    {
        let ghost before = views(out@);
        assert(cs.take(i + 1).drop_last() =~= cs.take(i as int));
        assert(cs[i as int] == candidates@[i as int]@);
        if crate::text::list_contains(allowed, candidates[i]) {
            out.push(String::from_str(candidates[i]));
            assert(views(out@) =~= before.push(cs[i as int]));
        }
        assert(views(out@) == cs.take(i + 1).filter(pred)) by {
            reveal(Seq::filter);
        }
        i = i + 1;
    }
    assert(cs.take(i as int) =~= cs);
    out
}

/// Which runtimes the Worker composes and the tool names routed to each (empty: the
/// runtime is not composed); with none, every call is denied.
#[derive(Debug)]
pub struct ToolsPlan {
    pub workspace: Vec<String>,
    pub web: Vec<String>,
    pub memory: Vec<String>,
    pub terminal: Vec<String>,
    /// The terminal's working directories are jailed to the workspace roots.
    pub terminal_cwd_roots: bool,
    pub mcp: Vec<String>,
    pub deny_all: bool,
}

pub open spec fn fs_tool_names() -> Seq<Seq<char>> {
    seq!["read_file"@, "write_file"@, "apply_patch"@, "search_files"@]
}

pub open spec fn web_tool_names() -> Seq<Seq<char>> {
    seq!["web_search"@, "web_extract"@]
}

pub open spec fn memory_tool_names() -> Seq<Seq<char>> {
    seq!["memory_read"@, "memory_write"@, "memory_update"@, "memory_delete"@, "memory_search"@, "session_search"@]
}

pub open spec fn terminal_tool_names() -> Seq<Seq<char>> {
    seq!["run_terminal"@, "shell_exec"@]
}

/// Plan the tool runtimes: file tools need workspace roots; web, memory and terminal
/// tools need only to be allowed; MCP tools are routed whenever a registry registered
/// some (policy still gates them).
pub fn plan_tools(allowed: &[String], workspace_roots: &[String], mcp_names: Option<Vec<String>>) -> (r: ToolsPlan)
    ensures
        views(r.workspace@) == if workspace_roots@.len() > 0 {
            allowed_among(fs_tool_names(), views(allowed@))
        } else {
            Seq::empty()
        },
        views(r.web@) == allowed_among(web_tool_names(), views(allowed@)),
        views(r.memory@) == allowed_among(memory_tool_names(), views(allowed@)),
        views(r.terminal@) == allowed_among(terminal_tool_names(), views(allowed@)),
        r.terminal_cwd_roots == (workspace_roots@.len() > 0),
        views(r.mcp@) == match mcp_names {
            Some(n) => views(n@),
            None => Seq::empty(),
        },
        r.deny_all == (r.workspace@.len() == 0 && r.web@.len() == 0 && r.memory@.len() == 0
            && r.terminal@.len() == 0 && r.mcp@.len() == 0),
{
    let fs: [&str; 4] = ["read_file", "write_file", "apply_patch", "search_files"];
    let web: [&str; 2] = ["web_search", "web_extract"];
    let mem: [&str; 6] = [
        "memory_read",
        "memory_write",
        "memory_update",
        "memory_delete",
        "memory_search",
        "session_search",
    ];
    let term: [&str; 2] = ["run_terminal", "shell_exec"];
    assert(fs@.map_values(|c: &str| c@) =~= fs_tool_names());
    assert(web@.map_values(|c: &str| c@) =~= web_tool_names());
    assert(mem@.map_values(|c: &str| c@) =~= memory_tool_names());
    assert(term@.map_values(|c: &str| c@) =~= terminal_tool_names());
    let workspace = if workspace_roots.len() > 0 {
        pick_allowed(&fs, allowed)
    } else {
        let v: Vec<String> = Vec::new();
        assert(views(v@) =~= Seq::<Seq<char>>::empty());
        v
    };
    let web_names = pick_allowed(&web, allowed);
    let memory = pick_allowed(&mem, allowed);
    let terminal = pick_allowed(&term, allowed);
    let mcp = match mcp_names {
        Some(n) => n,
        None => {
            let v: Vec<String> = Vec::new();
            assert(views(v@) =~= Seq::<Seq<char>>::empty());
            v
        },
    };
    let deny_all = workspace.len() == 0 && web_names.len() == 0 && memory.len() == 0 && terminal.len()
        == 0 && mcp.len() == 0;
    ToolsPlan {
        workspace,
        web: web_names,
        memory,
        terminal,
        terminal_cwd_roots: workspace_roots.len() > 0,
        mcp,
        deny_all,
    }
}

/// The Telegram gateway the Worker starts: its token, the principal it acts for and
/// how long it waits on a Run.
#[derive(Debug)]
pub struct GatewayPlan {
    pub token: String,
    pub principal: String,
    pub run_timeout_secs: u64,
}

/// What the Worker wires at start, besides the tools.
#[derive(Debug)]
pub struct RunPlan {
    /// Extra control-plane tools: the MCP allowlist, then `KERYX_POLICY_EXTRA_TOOLS`.
    pub control_plane_extra: Vec<String>,
    pub high_blast: Vec<String>,
    pub gateway: Option<GatewayPlan>,
    pub skills_root: String,
    pub artifacts_dir: String,
}

/// `dir` joined with a relative name, as `Path::join` does on Unix.
pub open spec fn path_join(dir: Seq<char>, name: Seq<char>) -> Seq<char> {
    if dir.len() == 0 {
        name
    } else if dir.last() == '/' {
        dir + name
    } else {
        dir + "/"@ + name
    }
}

fn join_path(dir: &str, name: &str) -> (r: String)
    ensures
        r@ == path_join(dir@, name@),
{
    let d = crate::text::chars_of(dir);
    if d.len() == 0 {
        String::from_str(name)
    } else if d[d.len() - 1] == '/' {
        String::from_str(dir).concat(name)
    } else {
        String::from_str(dir).concat("/").concat(name)
    }
}

/// Plan the start: policy extras, high-blast names, the Telegram gateway (when its
/// token is set and not blank; it acts for the first operator's principal) and the
/// console paths.
pub fn plan_run(
    config: &WorkerConfig,
    mcp_extra: &[String],
    mcp_high_blast: &[String],
    policy_extra: &[String],
    telegram_token: Option<&str>,
    telegram_timeout: Option<&str>,
    skills_root: Option<&str>,
) -> (r: RunPlan)
    ensures
        views(r.control_plane_extra@) == views(mcp_extra@) + views(policy_extra@),
        views(r.high_blast@) == views(mcp_high_blast@),
        match telegram_token {
            Some(t) if trim(t@).len() > 0 => r.gateway matches Some(g) && g.token@ == t@ && g.principal@ == (
            if config.operator_tokens@.len() > 0 {
                config.operator_tokens@[0].1@
            } else {
                "operator"@
            }) && g.run_timeout_secs as nat == match opt_number(
                crate::model::auth::opt_str_view(telegram_timeout),
                u64::MAX as nat,
            ) {
                Some(n) => n,
                None => 180,
            },
            _ => r.gateway is None,
        },
        r.skills_root@ == value_or(crate::model::auth::opt_str_view(skills_root), "./skills"@),
        r.artifacts_dir@ == path_join(config.data_dir@, "artifacts"@),
{
    let mut extra = crate::text::copy_strings(mcp_extra);
    let mut more = crate::text::copy_strings(policy_extra);
    let ghost a = views(extra@);
    let ghost b = views(more@);
    extra.append(&mut more);
    assert(views(extra@) =~= a + b);
    let gateway = match telegram_token {
        Some(t) => {
            let tt = crate::text::trim_str(t);
            if tt.as_str().is_empty() {
                None
            } else {
                let principal = if config.operator_tokens.len() > 0 {
                    config.operator_tokens[0].1.clone()
                } else {
                    String::from_str("operator")
                };
                let secs = match parse_opt_u64(telegram_timeout) {
                    Some(n) => n,
                    None => 180,
                };
                Some(GatewayPlan { token: String::from_str(t), principal, run_timeout_secs: secs })
            }
        },
        None => None,
    };
    let skills = match skills_root {
        Some(s) => String::from_str(s),
        None => String::from_str("./skills"),
    };
    RunPlan {
        control_plane_extra: extra,
        high_blast: crate::text::copy_strings(mcp_high_blast),
        gateway,
        skills_root: skills,
        artifacts_dir: join_path(config.data_dir.as_str(), "artifacts"),
    }
}

/// A provider as the control plane lists it (no secrets).
#[derive(Debug)]
pub struct ProviderInfo {
    pub name: String,
    pub auth_kind: String,
    pub display_name: String,
    pub default_model: String,
    pub models: Vec<String>,
    pub registered: bool,
    pub supports_model_override: bool,
}

/// The providers the control plane lists, and the default.
#[derive(Debug)]
pub struct ProviderCatalog {
    pub default: Option<String>,
    pub providers: Vec<ProviderInfo>,
}

/// A listed provider is its descriptor, the auth kind by its wire name.
pub open spec fn lists(d: ProviderDescriptor, p: ProviderInfo) -> bool {
    &&& p.name@ == d.name@
    &&& p.auth_kind@ == d.auth_kind.name()
    &&& p.display_name@ == d.display_name@
    &&& p.default_model@ == d.default_model@
    &&& views(p.models@) == views(d.models@)
    &&& p.registered == d.registered
    &&& p.supports_model_override == d.supports_model_override
}

/// The provider catalog of what registered.
pub fn catalog_from_registered(registered: &ProvidersFacts) -> (r: ProviderCatalog)
    ensures
        r.default matches Some(d) && d@ == registered.default_provider@,
        r.providers@.len() == registered.descriptors@.len(),
        forall|i: int|
            0 <= i < r.providers@.len() ==> lists(registered.descriptors@[i], #[trigger] r.providers@[i]),
{
    let mut providers: Vec<ProviderInfo> = Vec::new();
    let mut i: usize = 0;
    while i < registered.descriptors.len()
        invariant
            i <= registered.descriptors@.len(),
            providers@.len() == i,
            forall|k: int| 0 <= k < i ==> lists(registered.descriptors@[k], #[trigger] providers@[k]),
        decreases registered.descriptors@.len() - i,
    {
        let d = &registered.descriptors[i];
        providers.push(
            ProviderInfo {
                name: d.name.clone(),
                auth_kind: String::from_str(d.auth_kind.as_str()),
                display_name: d.display_name.clone(),
                default_model: d.default_model.clone(),
                models: crate::text::clone_strings(&d.models),
                registered: d.registered,
                supports_model_override: d.supports_model_override,
            },
        );
        i = i + 1;
    }
    ProviderCatalog { default: Some(registered.default_provider.clone()), providers }
}

} // verus!
