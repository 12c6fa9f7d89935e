//! The operator's static MCP configuration and its validation.

use crate::text::{chars_of, starts_with, starts_with_seq, trim, trim_exec};
use vstd::prelude::*;

verus! {

/// Restricted charset for stable server ids: lowercase alphanumeric and underscore.
pub const SERVER_ID_RE: &'static str = "^[a-z][a-z0-9_]*$";

/// Root MCP configuration (file or structured env).
#[derive(Debug, Clone, Default)]
pub struct McpConfig {
    pub servers: Vec<McpServerConfig>,
}

/// One operator-declared MCP server.
#[derive(Debug, Clone)]
pub struct McpServerConfig {
    /// Stable operator-chosen id; its tools are named `mcp.<server_id>.<tool_name>`.
    pub server_id: String,
    pub enabled: bool,
    pub transport: McpTransportConfig,
    /// Optional working directory for stdio processes.
    pub cwd: Option<String>,
    /// Extra environment for a stdio child (literal values), name and value.
    pub env: Vec<(String, String)>,
    /// Environment variable name and the path of the secret file holding its value.
    pub env_files: Vec<(String, String)>,
    /// Only register these peer-local tool names (exact), when non-empty.
    pub tool_filter: Vec<String>,
    /// Peer-local tool names that require approval (exact).
    pub high_blast: Vec<String>,
    /// Peer-local names added to the control-plane policy (must be explicit).
    pub policy_allowlist: Vec<String>,
    /// Per-call timeout in milliseconds (adapter default when unset).
    pub timeout_ms: Option<u64>,
    /// Maximum result characters kept for transcripts and events.
    pub max_result_chars: Option<usize>,
}

/// The transport of one server.
#[derive(Debug, Clone)]
pub enum McpTransportConfig {
    Stdio { command: String, args: Vec<String> },
    /// Remote HTTP JSON-RPC POST only (simple request and response).
    Remote {
        url: String,
        /// Environment variable holding the bearer token.
        auth_token_env: Option<String>,
        /// Secret file holding the bearer token.
        auth_token_file: Option<String>,
    },
}

/// A server is enabled unless the configuration says otherwise.
pub fn default_true() -> (r: bool)
    ensures
        r,
{
    true
}

/// A lowercase ASCII letter.
pub open spec fn is_lower(c: char) -> bool {
    'a' <= c && c <= 'z'
}

/// A character allowed in a server id after the first.
pub open spec fn is_id_char(c: char) -> bool {
    is_lower(c) || ('0' <= c && c <= '9') || c == '_'
}

/// Why `id` is not a valid server id, if it is not.
pub open spec fn server_id_error(id: Seq<char>) -> Option<Seq<char>> {
    if id.len() == 0 {
        Some("server_id must not be empty"@)
    } else if !is_lower(id[0]) {
        Some(
            "server_id '"@ + id + "' must start with a lowercase letter (charset: "@
                + "^[a-z][a-z0-9_]*$"@ + ")"@,
        )
    } else if exists|i: int| 1 <= i < id.len() && !is_id_char(#[trigger] id[i]) {
        Some("server_id '"@ + id + "' has invalid characters (charset: "@ + "^[a-z][a-z0-9_]*$"@
            + ")"@)
    } else {
        None
    }
}

/// Reject a server id outside the restricted charset.
pub fn validate_server_id(id: &str) -> (r: Result<(), String>)
    ensures
        match r {
            Ok(()) => server_id_error(id@) is None,
            Err(e) => server_id_error(id@) == Some(e@),
        },
{
    let cs = chars_of(id);
    if cs.len() == 0 {
        return Err(String::from_str("server_id must not be empty"));
    }
    let first = cs[0];
    if !('a' <= first && first <= 'z') {
        return Err(String::from_str("server_id '").concat(id).concat(
            "' must start with a lowercase letter (charset: ",
        ).concat(SERVER_ID_RE).concat(")"));
    }
    let mut i: usize = 1;
    while i < cs.len()
        invariant
            1 <= i <= cs@.len(),
            cs@ == id@,
            is_lower(id@[0]),
            forall|j: int| 1 <= j < i ==> is_id_char(#[trigger] cs@[j]),
        decreases cs@.len() - i,
    {
        let c = cs[i];
        if !(('a' <= c && c <= 'z') || ('0' <= c && c <= '9') || c == '_') {
            assert(!is_id_char(id@[i as int]));
            return Err(String::from_str("server_id '").concat(id).concat(
                "' has invalid characters (charset: ",
            ).concat(SERVER_ID_RE).concat(")"));
        }
        i = i + 1;
    }
    Ok(())
}

/// Why a server's transport is unusable, if it is.
pub open spec fn transport_error(id: Seq<char>, t: McpTransportConfig) -> Option<Seq<char>> {
    match t {
        McpTransportConfig::Stdio { command, .. } => if trim(command@).len() == 0 {
            Some("MCP server '"@ + id + "': stdio command must not be empty"@)
        } else {
            None
        },
        McpTransportConfig::Remote { url, .. } => if trim(url@).len() == 0 {
            Some("MCP server '"@ + id + "': remote url must not be empty"@)
        } else if !(starts_with(url@, "http://"@) || starts_with(url@, "https://"@)) {
            Some("MCP server '"@ + id + "': remote url must be http(s)"@)
        } else {
            None
        },
    }
}

/// Some earlier server has the id `id`.
pub open spec fn id_taken(earlier: Seq<McpServerConfig>, id: Seq<char>) -> bool {
    exists|j: int| 0 <= j < earlier.len() && (#[trigger] earlier[j]).server_id@ == id
}

/// Why server `s` is rejected after the servers `earlier`, if it is.
pub open spec fn server_error(earlier: Seq<McpServerConfig>, s: McpServerConfig) -> Option<
    Seq<char>,
> {
    match server_id_error(s.server_id@) {
        Some(e) => Some(e),
        None => if id_taken(earlier, s.server_id@) {
            Some("duplicate MCP server_id '"@ + s.server_id@ + "'"@)
        } else {
            transport_error(s.server_id@, s.transport)
        },
    }
}

/// The first server's rejection, in order, if any server is rejected.
pub open spec fn config_error(servers: Seq<McpServerConfig>) -> Option<Seq<char>>
    decreases servers.len(),
{
    if servers.len() == 0 {
        None
    } else {
        match config_error(servers.drop_last()) {
            Some(e) => Some(e),
            None => server_error(servers.drop_last(), servers.last()),
        }
    }
}

fn transport_check(id: &str, t: &McpTransportConfig) -> (r: Result<(), String>)
    ensures
        match r {
            Ok(()) => transport_error(id@, *t) is None,
            Err(e) => transport_error(id@, *t) == Some(e@),
        },
{
    match t {
        McpTransportConfig::Stdio { command, .. } => {
            let c = chars_of(command.as_str());
            if trim_exec(c.as_slice()).len() == 0 {
                return Err(String::from_str("MCP server '").concat(id).concat(
                    "': stdio command must not be empty",
                ));
            }
            Ok(())
        },
        McpTransportConfig::Remote { url, .. } => {
            let u = chars_of(url.as_str());
            if trim_exec(u.as_slice()).len() == 0 {
                return Err(String::from_str("MCP server '").concat(id).concat(
                    "': remote url must not be empty",
                ));
            }
            let http = chars_of("http://");
            let https = chars_of("https://");
            if !(starts_with_seq(u.as_slice(), http.as_slice()) || starts_with_seq(
                u.as_slice(),
                https.as_slice(),
            )) {
                return Err(String::from_str("MCP server '").concat(id).concat(
                    "': remote url must be http(s)",
                ));
            }
            Ok(())
        },
    }
}

/// Check every server in order: a valid id, no id twice, a usable transport.
pub fn validate_mcp_config(cfg: &McpConfig) -> (r: Result<(), String>)
    ensures
        match r {
            Ok(()) => config_error(cfg.servers@) is None,
            Err(e) => config_error(cfg.servers@) == Some(e@),
        },
{
    let mut i: usize = 0;
    while i < cfg.servers.len()
        invariant
            i <= cfg.servers@.len(),
            config_error(cfg.servers@.take(i as int)) is None,
        decreases cfg.servers@.len() - i,
    {
        let ghost pre = cfg.servers@.take(i as int);
        let ghost cur = cfg.servers@.take(i + 1);
        assert(cur.drop_last() =~= pre);
        assert(cur.last() == cfg.servers@[i as int]);
        let s = &cfg.servers[i];
        match validate_server_id(s.server_id.as_str()) {
            Err(e) => {
                proof {
                    lemma_config_error_sticks(cfg.servers@, i + 1);
                }
                return Err(e);
            },
            Ok(()) => {},
        }
        let mut j: usize = 0;
        while j < i
            invariant
                j <= i < cfg.servers@.len(),
                pre == cfg.servers@.take(i as int),
                cur == cfg.servers@.take(i + 1),
                cur.drop_last() == pre,
                cur.last() == *s,
                config_error(pre) is None,
                server_id_error(s.server_id@) is None,
                forall|k: int| 0 <= k < j ==> cfg.servers@[k].server_id@ != s.server_id@,
            decreases i - j,
        {
            if crate::text::str_eq(cfg.servers[j].server_id.as_str(), s.server_id.as_str()) {
                assert(pre[j as int].server_id@ == s.server_id@);
                assert(id_taken(pre, s.server_id@));
                proof {
                    lemma_config_error_sticks(cfg.servers@, i + 1);
                }
                return Err(String::from_str("duplicate MCP server_id '").concat(
                    s.server_id.as_str(),
                ).concat("'"));
            }
            j = j + 1;
        }
        assert(!id_taken(pre, s.server_id@)) by {
            if id_taken(pre, s.server_id@) {
                let k = choose|k: int| 0 <= k < pre.len() && (#[trigger] pre[k]).server_id@
                    == s.server_id@;
                assert(cfg.servers@[k].server_id@ == s.server_id@);
            }
        }
        match transport_check(s.server_id.as_str(), &s.transport) {
            Err(e) => {
                proof {
                    lemma_config_error_sticks(cfg.servers@, i + 1);
                }
                return Err(e);
            },
            Ok(()) => {},
        }
        i = i + 1;
    }
    assert(cfg.servers@.take(i as int) =~= cfg.servers@);
    Ok(())
}

/// A rejection within the first `k` servers is the rejection of the whole list.
proof fn lemma_config_error_sticks(servers: Seq<McpServerConfig>, k: int)
    requires
        0 <= k <= servers.len(),
        config_error(servers.take(k)) is Some,
    ensures
        config_error(servers) == config_error(servers.take(k)),
    decreases servers.len() - k,
{
    if k < servers.len() {
        assert(servers.take(k + 1).drop_last() =~= servers.take(k));
        lemma_config_error_sticks(servers, k + 1);
    } else {
        assert(servers.take(k) =~= servers);
    }
}

} // verus!
