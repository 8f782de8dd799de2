# dbgview

Capture, buffering and filtering of Windows debug output (`OutputDebugString`),
served to AI assistants as MCP tools, with its logic verified by Verus.

## Layout

- `src/` — the verified library.
  - `ring_buffer.rs`: the bounded buffer of captured entries, its abstract view
    (every entry ever pushed, the capacity, the process name cache) and the laws
    of reading back what was pushed.
  - `filter.rs`: include/exclude/process filters over compiled regular expressions.
  - `session.rs`: sessions with their own read position and filters, and the
    session manager that starts the capture with the first session.
  - `capture.rs`: the capture's run state and what one captured message does.
  - `server.rs`: what each MCP tool call does to the server state.
  - `rpc.rs`: reading a request line, the startup handshake and the routing of
    JSON-RPC requests.
  - `json.rs`: a model of JSON values and the readings made of them.
  - `process.rs`: process listing and name lookup.
  - `dbgtest.rs`: the messages of the debug output test tools.
  - `text.rs`, `error.rs`: text helpers and the error type.
- `tests/` — tests of the library on concrete values.
- `app/` — the programs: the MCP server over stdio (JSON, the Windows capture
  thread), and the two debug output test tools.
