# unitycatalog

The metadata core of a Unity Catalog server, written in Verus: error codes and
their HTTP statuses, privilege and securable types, the REST wire shapes, and a
log-structured metadata store whose rows, natural-key index, commit decisions,
checkpoints and repositories carry machine-checked contracts.

## Layout

- `src/` — the verified library.
  - `errors`, `types`, `pagination`, `text`, `ids` — codes, privileges, page
    tokens, string and id rendering.
  - `models` — the stored row types.
  - `store` — the in-memory snapshot (rows keyed by kind and id, with a sorted
    natural-key index), actions and their application, checkpoint lines, the
    commit-loop and listing decisions, the Delta per-table logs, an in-memory
    object log, and the key mapping for an S3 log.
  - `repos` — each repository operation as a plan over a snapshot: what it
    reads, or which actions a commit writes and what it returns.
  - `managed_storage` — where managed tables, volumes and models live.
  - `openapi` — request and response shapes of the REST APIs.
- `app/` — the process around it: JSON encoding of rows and commits, the async
  object-log backends (memory, S3), the store handle that performs the reads
  and conditional writes the library decides on, HTTP error rendering, and
  `main`.
- `tests/` — tests of the library through its public API.

Build and verify with Verus; `app/` is ordinary Rust against the library.
