# Web terminal

Interactive terminals for sandboxes. A browser connects over WebSocket; the server bridges the
session to a pseudo-terminal behind the sandbox agent. The browser never talks to the agent itself.

`src/` is a Verus library. It decides everything that can be decided without input or output, and
its contracts are proved:

- `origin`, `admission`: which page may open a terminal, and for whom;
- `target`: which container of a sandbox a terminal is opened in, and what a refusal is called;
- `sessions`: the list of open sessions and the limits on it;
- `opening`: the steps from a request to an open terminal, each of which can refuse;
- `pty`, `envelope`, `json`, `codec`: the requests to the sandbox agent and what replies mean;
- `stream`: the messages that the agent streams back, in chunks of any size;
- `control`, `bridge`, `events`: an open session, from its messages and timers to its end;
- `text`, `error`: strings and errors.

What other crates compute (`serde_json`, `base64`, `reqwest`, `chrono`, `uuid`) stands behind small
functions that state what is believed of them. Proof functions named `law_..` state what holds of
the library as a whole.

`app/` is the part around it: the axum endpoint, the HTTP client and the loops on tokio that carry
out the actions that the library asks for. `tests/` runs the library with the real crates.
