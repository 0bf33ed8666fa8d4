# fffq

`fffq` is a command-line client for a local file-search sidecar, one sidecar per project root. This
crate is its verified core, and that of the sidecar's own HTTP surface.

- `src/` is the library, verified with Verus:
  - `text`, `number`, `utf8`: text, numerals and byte offsets;
  - `http`, `sse`, `json`: URLs, requests, responses, event streams and JSON values;
  - `registry`: where a sidecar registers, and what it records;
  - `query`, `call`, `retry`: searches, one call to a sidecar, and which failures mean that it is gone;
  - `launch`, `client`: the search for a live sidecar, and a command from its beginning to its end, as
    functions from a state and an event to the next state and the next action;
  - `sidecar`: the sidecar's settings, routes and answers;
  - `laws`: what holds of all of this together.
- `tests/` runs the library by example.
- `app/` is the program around it: the command line, files, sockets and processes, and the plumbing of
  the sidecar's server.

What is trusted: the small functions in `registry` and `json` that call `blake3` and `serde_json`,
`text_of_bytes` in `utf8`, which calls `String::from_utf8_lossy`, and the specification of
`String::push` in `text`.
