# theway daemon

`thewayd` is a headless agent runtime: it keeps sessions, runs slash commands, hooks and
language servers, connects to MCP servers, and offers its tools over gRPC, HTTP or MCP.

- `src/` is the library. It decides: it parses arguments and configuration, plans calls, walks
  the steps of longer operations, and builds every text that is shown. It is verified with
  Verus; each function states what it gives, and what holds of several functions together
  stands beside them as a proof function whose name begins with `law_`.
- `app/` is the program around it: the command line, files, processes, sockets, exporters, and
  the loops that perform what the library asks for and hand back what came of it. The session
  engine, the storage and the transports are traits there; `standalone.rs` fills them for a
  daemon that runs by itself.
- `tests/` runs the library on values, with the crates it calls.

An operation that goes back and forth between decisions and the outside (a retried prompt, a
collapse, the build of a session, the admission of an input, the hooks of an event) is a state
with a `step` function: an event goes in, the next action comes out.

What is taken on trust is marked `external_body` or `assume_specification`: the calls into
`serde_json`, `toml`, `regex`, `ignore`, `sha2`, `hex` and `base64`, and a few string functions
of the standard library.
