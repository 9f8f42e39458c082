# workers_connect

The verified core of a Cloudflare Worker that serves ConnectRPC services:
Greet, Reverse, a server-streaming Clock, bidirectional Echo and Heartbeat
streams, and a Todo CRUD service, plus a request-id middleware and two plain
HTTP routes (`/healthz`, `/oauth/callback`).

- `src/` is the library, written in Verus: every handler decision, the
  streaming state machines, query-string parsing, request-id assignment and
  the in-memory todo store carry contracts, and the laws of the todo store
  (what a read gives back after a create, update or delete) are proved as
  proof functions in `src/todo.rs`.
- `app/` is ordinary Rust around it: the tower layer, `http` responses,
  async streams, a mutex-shared in-memory server and the Cloudflare D1 store.
- `tests/` exercises the library on concrete values.
