# portainer_mcp

An MCP server that manages Docker Compose stacks on a Portainer instance,
with its decisions verified by Verus.

- `src/` — the verified library: environment-variable redaction
  (`redact`), the exact request behind every client operation and the
  judgement of each response (`client`), the tools' parameter handling
  (`server`), the data models (`models`), character-level text helpers
  (`text`) and the trusted calls into `reqwest`, `serde_json` and std
  (`wire`).
- `app/` — the program around it: environment variables, HTTP through
  `reqwest`, JSON through `serde`, and the MCP server through `rmcp`.
- `tests/` — tests of the library.
