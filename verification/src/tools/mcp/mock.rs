//! MCP client tools over a scripted peer, and the fail-closed MCP server export.

use crate::domain::{ToolCall, ToolError, ToolResult, ToolSpec};
use crate::json::Json;
use crate::text::{starts_with, trim_end_char, views};
use crate::tools::mcp::client::{assoc, keys, peer_description, MockMcpPeer};
use crate::tools::mcp::protocol::{namespaced, namespaced_tool_name};
use vstd::prelude::*;

verus! {

/// MCP client tools: the namespaced tools of one scripted peer, behind an allowlist
/// (empty: every tool).
#[derive(Debug)]
pub struct McpClientTools {
    pub allowed: Vec<String>,
    pub peer: MockMcpPeer,
    /// Namespace prefix, e.g. `mcp.demo.`.
    pub namespace: String,
    pub server_id: String,
}

/// The server id a namespace names: without the `mcp.` prefix and trailing dots.
pub open spec fn server_of_namespace(ns: Seq<char>) -> Seq<char> {
    trim_end_char(
        if starts_with(ns, "mcp."@) {
            ns.skip(4)
        } else {
            ns
        },
        '.',
    )
}

/// An allowlist admits a name: it is empty, or it holds the name.
pub open spec fn admits(allowed: Seq<Seq<char>>, name: Seq<char>) -> bool {
    allowed.len() == 0 || allowed.contains(name)
}

/// The namespaced names of the peer's tools that the allowlist admits, in order.
pub open spec fn client_names(t: McpClientTools) -> Seq<Seq<char>> {
    keys(t.peer.tools@).map_values(|k: Seq<char>| namespaced(t.server_id@, k)).filter(
        |n: Seq<char>| admits(views(t.allowed@), n),
    )
}

impl McpClientTools {
    /// Tools under a namespace prefix such as `mcp.demo.`.
    pub fn new(allowed: Vec<String>, peer: MockMcpPeer, namespace: &str) -> (r: Self)
        ensures
            r.allowed@ == allowed@,
            r.peer == peer,
            r.namespace@ == namespace@,
            r.server_id@ == server_of_namespace(namespace@),
    {
        proof {
            reveal_strlit("mcp.");
        }
        let ns = crate::text::chars_of(namespace);
        let prefix = crate::text::chars_of("mcp.");
        let rest = if crate::text::starts_with_seq(ns.as_slice(), prefix.as_slice()) {
            crate::text::skip_exec(ns.as_slice(), 4)
        } else {
            ns
        };
        let id = crate::text::trim_end_char_exec(rest.as_slice(), '.');
        McpClientTools {
            allowed,
            peer,
            namespace: String::from_str(namespace),
            server_id: crate::text::string_of(id.as_slice()),
        }
    }

    /// Tools of one server (namespace `mcp.<id>.`).
    pub fn for_server(server_id: &str, allowed: Vec<String>, peer: MockMcpPeer) -> (r: Self)
        ensures
            r.allowed@ == allowed@,
            r.peer == peer,
            r.namespace@ == "mcp."@ + server_id@ + "."@,
            r.server_id@ == server_id@,
    {
        McpClientTools {
            allowed,
            peer,
            namespace: String::from_str("mcp.").concat(server_id).concat("."),
            server_id: String::from_str(server_id),
        }
    }

    /// The namespaced tool names the allowlist admits.
    pub fn registered_names(&self) -> (r: Vec<String>)
        ensures
            views(r@) == client_names(*self),
    {
        let ghost all = keys(self.peer.tools@).map_values(
            |k: Seq<char>| namespaced(self.server_id@, k),
        );
        let ghost pred = |n: Seq<char>| admits(views(self.allowed@), n);
        let mut out: Vec<String> = Vec::new();
        let mut i: usize = 0;
        assert(all.take(0) =~= Seq::<Seq<char>>::empty());
        assert(all.take(0).filter(pred) =~= Seq::<Seq<char>>::empty()) by {
            reveal(Seq::filter);
        }
        while i < self.peer.tools.len()
            invariant
                i <= self.peer.tools@.len(),
                all == keys(self.peer.tools@).map_values(
                    |k: Seq<char>| namespaced(self.server_id@, k),
                ),
                pred == (|n: Seq<char>| admits(views(self.allowed@), n)),
                views(out@) == all.take(i as int).filter(pred),
            decreases self.peer.tools@.len() - i,
        {
            let ghost before = views(out@);
            let name = namespaced_tool_name(self.server_id.as_str(), self.peer.tools[i].0.as_str());
            assert(all[i as int] == name@);
            assert(all.take(i + 1).drop_last() =~= all.take(i as int));
            let ok = self.allowed.len() == 0 || crate::text::list_contains(
                self.allowed.as_slice(),
                name.as_str(),
            );
            assert(ok == pred(name@));
            if ok {
                out.push(name);
                assert(views(out@) =~= before.push(all[i as int]));
            }
            assert(views(out@) == all.take(i + 1).filter(pred)) by {
                reveal(Seq::filter);
            }
            i = i + 1;
        }
        assert(all.take(i as int) =~= all);
        out
    }

    pub fn server_id(&self) -> (r: &str)
        ensures
            r@ == self.server_id@,
    {
        self.server_id.as_str()
    }

    /// Invoke a namespaced tool: the allowlist, then the peer (fail closed when it is
    /// gone), then the namespace, then the tool.
    pub fn invoke(&self, call: &ToolCall) -> (r: Result<ToolResult, ToolError>)
        ensures
            !admits(views(self.allowed@), call.name@) ==> (r matches Err(ToolError::Denied(m)) && m@
                == "unknown or disallowed tool '"@ + call.name@ + "'"@),
            admits(views(self.allowed@), call.name@) && self.peer.disconnected ==> (r matches Err(
                ToolError::Failed(m),
            ) && m@ == "MCP client disconnect: fail closed for in-flight invocation"@),
            admits(views(self.allowed@), call.name@) && !self.peer.disconnected && !starts_with(
                call.name@,
                self.namespace@,
            ) ==> (r matches Err(ToolError::Denied(m)) && m@ == "not an MCP namespaced tool "@
                + call.name@),
            admits(views(self.allowed@), call.name@) && !self.peer.disconnected && starts_with(
                call.name@,
                self.namespace@,
            ) ==> {
                let local = call.name@.skip(self.namespace@.len() as int);
                match assoc(self.peer.tools@, local) {
                    Some(c) => r matches Ok(res) && res.content@ == c@ && res.summary@
                        == "mcp_client tool="@ + call.name@,
                    None => r matches Err(ToolError::Denied(m)) && m@ == "MCP tool '"@ + local
                        + "' not registered"@,
                }
            },
    {
        let name = call.name.as_str();
        if self.allowed.len() > 0 && !crate::text::list_contains(self.allowed.as_slice(), name) {
            return Err(
                ToolError::Denied(
                    String::from_str("unknown or disallowed tool '").concat(name).concat("'"),
                ),
            );
        }
        if self.peer.is_disconnected() {
            return Err(
                ToolError::Failed(
                    String::from_str("MCP client disconnect: fail closed for in-flight invocation"),
                ),
            );
        }
        let nc = crate::text::chars_of(name);
        let pc = crate::text::chars_of(self.namespace.as_str());
        if !crate::text::starts_with_seq(nc.as_slice(), pc.as_slice()) {
            return Err(
                ToolError::Denied(String::from_str("not an MCP namespaced tool ").concat(name)),
            );
        }
        let local = crate::text::string_of(crate::text::skip_exec(nc.as_slice(), pc.len()).as_slice());
        match self.peer.tool_result(local.as_str()) {
            Some(content) => Ok(
                ToolResult {
                    content,
                    summary: String::from_str("mcp_client tool=").concat(name),
                },
            ),
            None => Err(
                ToolError::Denied(
                    String::from_str("MCP tool '").concat(local.as_str()).concat(
                        "' not registered",
                    ),
                ),
            ),
        }
    }

    /// The peer's tools the allowlist admits, namespaced, with their descriptions and
    /// schemas.
    pub fn catalog(&self) -> (r: Vec<ToolSpec>)
        ensures
            crate::domain::listing(r@) == keys(self.peer.tools@).map_values(
                |k: Seq<char>| (namespaced(self.server_id@, k), peer_description(self.peer, k)),
            ).filter(|p: (Seq<char>, Seq<char>)| admits(views(self.allowed@), p.0)),
    {
        let ghost all = keys(self.peer.tools@).map_values(
            |k: Seq<char>| (namespaced(self.server_id@, k), peer_description(self.peer, k)),
        );
        let ghost pred = |p: (Seq<char>, Seq<char>)| admits(views(self.allowed@), p.0);
        let listed = self.peer.local_tools();
        let mut rest = listed;
        let ghost lall = rest@;
        let n = rest.len();
        assert(lall.len() == n);
        let mut out: Vec<ToolSpec> = Vec::new();
        let mut i: usize = 0;
        assert(all.take(0) =~= Seq::<(Seq<char>, Seq<char>)>::empty());
        assert(all.take(0).filter(pred) =~= Seq::<(Seq<char>, Seq<char>)>::empty()) by {
            reveal(Seq::filter);
        }
        while rest.len() > 0
            invariant
                i <= lall.len(),
                lall.len() == self.peer.tools@.len(),
                lall.len() <= usize::MAX,
                rest@ == lall.skip(i as int),
                forall|k: int|
                    0 <= k < lall.len() ==> (#[trigger] lall[k]).0@ == self.peer.tools@[k].0@
                        && lall[k].1@ == peer_description(self.peer, self.peer.tools@[k].0@),
                all == keys(self.peer.tools@).map_values(
                    |k: Seq<char>| (namespaced(self.server_id@, k), peer_description(self.peer, k)),
                ),
                pred == (|p: (Seq<char>, Seq<char>)| admits(views(self.allowed@), p.0)),
                crate::domain::listing(out@) == all.take(i as int).filter(pred),
            decreases rest@.len(),
        {
            assert(lall.skip(i as int).len() == lall.len() - i);
            assert(rest@[0] == lall[i as int]);
            let (local, desc, schema) = rest.remove(0);
            assert(rest@ =~= lall.skip(i + 1));
            let ghost before = crate::domain::listing(out@);
            let name = namespaced_tool_name(self.server_id.as_str(), local.as_str());
            assert(all[i as int] == (name@, desc@));
            assert(all.take(i + 1).drop_last() =~= all.take(i as int));
            let ok = self.allowed.len() == 0 || crate::text::list_contains(
                self.allowed.as_slice(),
                name.as_str(),
            );
            assert(ok == pred((name@, desc@)));
            if ok {
                out.push(ToolSpec { name, description: desc, parameters: schema });
                assert(crate::domain::listing(out@) =~= before.push(all[i as int]));
            }
            assert(crate::domain::listing(out@) == all.take(i + 1).filter(pred)) by {
                reveal(Seq::filter);
            }
            i = i + 1;
        }
        assert(lall.skip(i as int).len() == 0);
        assert(all.take(i as int) =~= all);
        out
    }
}

/// The MCP server export: selected tools only, and only on an authenticated path.
#[derive(Debug)]
pub struct McpServerExport {
    pub require_auth: bool,
    pub exported: Vec<String>,
    pub peer: MockMcpPeer,
}

impl McpServerExport {
    /// An export of these tools; authentication is required.
    pub fn new(exported: Vec<String>, peer: MockMcpPeer) -> (r: Self)
        ensures
            r.require_auth,
            r.exported@ == exported@,
            r.peer == peer,
    {
        McpServerExport { require_auth: true, exported, peer }
    }

    /// Serve an exported tool: refused without authentication, refused for a tool not
    /// exported, failed closed when the peer is gone.
    pub fn invoke_exported(&self, authenticated: bool, tool: &str, _args: &Json) -> (r: Result<
        String,
        ToolError,
    >)
        ensures
            self.require_auth && !authenticated ==> (r matches Err(ToolError::Denied(m)) && m@
                == "MCP serve requires authenticated Principal/operator path"@),
            !(self.require_auth && !authenticated) && !views(self.exported@).contains(tool@) ==> (
            r matches Err(ToolError::Denied(m)) && m@ == "tool '"@ + tool@
                + "' not exported by MCP server"@),
            !(self.require_auth && !authenticated) && views(self.exported@).contains(tool@)
                && self.peer.disconnected ==> (r matches Err(ToolError::Failed(m)) && m@
                == "MCP server disconnect: fail closed"@),
            !(self.require_auth && !authenticated) && views(self.exported@).contains(tool@)
                && !self.peer.disconnected ==> (r matches Ok(s) && s@ == "exported:"@ + tool@),
    {
        if self.require_auth && !authenticated {
            return Err(
                ToolError::Denied(
                    String::from_str("MCP serve requires authenticated Principal/operator path"),
                ),
            );
        }
        if !crate::text::list_contains(self.exported.as_slice(), tool) {
            return Err(
                ToolError::Denied(
                    String::from_str("tool '").concat(tool).concat("' not exported by MCP server"),
                ),
            );
        }
        if self.peer.is_disconnected() {
            return Err(ToolError::Failed(String::from_str("MCP server disconnect: fail closed")));
        }
        Ok(String::from_str("exported:").concat(tool))
    }
}

} // verus!
