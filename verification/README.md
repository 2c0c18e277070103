# obsidian_nas_server

A sync server for Obsidian vaults kept on a NAS: devices pair with a shared
code, upload and download files with ETag preconditions, hear about each
other's changes over a WebSocket, and an admin console (EN/KO) shows the
activity log, files, conflicts, trash and devices.

The decisions of the server are a library verified with Verus (`src/`):

- `storage` — resolving request paths inside the vault, trash and conflicts
  roots (no traversal, canonical form), and content ETags (BLAKE3).
- `file` — the conflict policy: a PUT whose `If-Match` does not name the
  stored version still wins and the stored version is kept as a conflict
  copy; a DELETE needs a matching `If-Match`. Where displaced copies go, and
  which sync events follow.
- `conflicts`, `trash`, `devices`, `auth`, `sync` — resolving conflicts,
  soft deletion and restore, pairing, issuing and verifying device tokens,
  and who receives which event (never its own origin).
- `html`, `admin`, `pages` — escaping, URL encoding, sizes, translations and
  the console's pages, each stated as the exact text it produces.
- `audit` — the audit-log row each vault change adds.
- `text`, `clock`, `config`, `error` — string helpers, instants through
  `chrono`, settings, and the error answers.

`app/` is the server around it: axum routes, SQLite through sqlx, the file
system, the WebSocket loop and configuration loading with figment.
