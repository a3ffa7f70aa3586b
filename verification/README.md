# xiranet

The decision core of the xiraNET API gateway platform, written in Verus:
the functions in `src/` carry contracts over a mathematical model and are
proved against them. Calls into outside crates and std (clock, random ids,
digests and MACs, AES-GCM, Argon2, base64, regex, the LRU cache, header
parsing) go through small wrappers marked `#[verifier::external_body]`, whose
contracts are believed, not proved; each one's doc comment says what it
claims of the call.

Layout:

- `src/gateway/` — the request path as one planned decision and its
  completion (`request_flow`: reserved paths, prefix routing, address
  filtering, the breaker gate, the cache, balancing, upstream URLs and
  headers, then the breaker outcome and the cache store), the circuit breaker, the
  response and edge caches, load balancing, canary splits, retries, header
  transforms, JSON body rewrites over a document tree (`body_transform`) and
  interceptors.
- `src/identity/` — users and roles, lockout, sessions, TOTP second factor,
  the login façade, and the sealed secret box.
- `src/config/` — the configuration model, its defaults and its validation.
- `src/automation/`, `src/deployment/`, `src/datapipeline/`, `src/ops/`,
  `src/alerting/`, `src/dbgateway/`, `src/discovery/`, `src/bus/`,
  `src/admin/` (including the OpenAPI path entries) — cron and workflow state machines, feature flags and
  blue/green releases, change capture and body transforms, incidents and
  metric labels, alert channels, webhooks and the outbound address guard,
  the SQL firewall, service discovery plans, the event bus and admin request
  checks.
- `src/cli/` — the client's commands, the requests they make, and the saved
  session format.
- `src/text.rs`, `src/store.rs`, `src/crypto.rs` — text operations, a
  vector-backed map with distinct keys, digests and MACs. The breakers, the
  balancer's counters, the lockout records, the email index, the users'
  session lists and the event bus subscriptions are `dashmap::DashMap`s,
  each reached through wrappers whose contracts speak of its entries.
- `app/` — the `xira` program: argument parsing, file and network I/O, the
  actix-web server loop; it hands plain values to the library.
- `tests/` — tests run against the compiled library.

Public proof functions named `law_*` state the properties that hold across
calls (what a read gives back of a write, what a state change keeps).
