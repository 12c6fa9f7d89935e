# keryx

Keryx is a small agent Worker: a loopback control plane that runs a bounded agent
loop with tools (workspace files, web, memory, terminal, MCP servers) against real
model providers, with SQLite durability.

This crate holds the Worker's logic as a library verified with Verus:

- `src/worker.rs`: configuration from the environment (loopback bind, operator
  token, budgets), the doctor checks, and which tool runtimes start.
- `src/model/`: provider registration, request planning (with the tool catalog)
  and response reading (text deltas and streamed tool calls) for the API-key
  providers (OpenAI, xAI) and the web-session providers, secret
  redaction, and the multi-provider router.
- `src/storage/`: the record types, an in-memory store, and the SQLite schema,
  migration plan and row readers.
- `src/tools/`: the workspace tools' path jail (the candidate path under each root,
  which canonical candidate is accepted, paths not created yet) and search walk
  (directories entered once, under the root, hits capped), their precise edits, the
  SSRF guard and redirect policy of the web tools, the memory, skills, terminal and operator tools,
  the fenced `execute_code` script run, and the MCP client (naming, framing, JSON-RPC
  replies, registry, the environment a stdio server starts with).
- `src/json.rs`, `src/text.rs`: the JSON value and the text operations the
  contracts are written over.

`app/` is the Worker binary around the library: command line, environment and
files (canonicalizing paths and reading directories for the jail and the search
walk), the SQLite connection, child processes, HTTP and MCP transports.
