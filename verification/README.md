# attune_routes

The decision logic behind the Attune API routes, written in Verus and proved
against its contracts: who may call what, what a caller gets to see, how
requests are checked, and the small state machines that the HTTP handlers
drive. The handlers themselves (routing, database access, message queues,
file and network I/O) are not part of this crate; they call into it with
plain values and act on what it returns.

Layout:

- `src/` — the verified library, one module per area: `auth` (tokens,
  claims, errors), `rbac` (grants and visibility filters), `executions`,
  `events`, `inquiries`, `keys`, `rules` and `rule_changes`, `policies`,
  `runtimes`, `identities`, `history`, `health`, `files` (internal file and
  pack-archive transfers), `packs`, `pack_install`, `pack_index`,
  `provenance` and `registry` (pack management and registry indices),
  `text` (string helpers), and `laws` (properties that span several
  functions).
- `tests/` — tests that run the library on concrete values.
- `app/` — serde forms of the library's wire types, the JSON glue and the
  file reads that cannot be verified.
