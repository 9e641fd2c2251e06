# mcp_server

The `mdev` Model Context Protocol server: file-system, build, git and
smart-light tools for an agent. What the tools compute (paths, permission
decisions, outputs, command lines, the light registry) is written in Verus
and proved against its contract; the server around it, which does the I/O
and sequences the outside calls, is ordinary Rust.

## Layout

- `src/` — the verified library.
  - `path.rs`, `path_order.rs`, `path_resolver.rs`: `/`-separated paths as
    component lists, their order, and resolution against a workspace (a state
    machine whose caller canonicalizes on disk); `path_laws.rs` proves that
    rendering components and splitting them again gives them back.
  - `permissions.rs`, `glob_pattern.rs`, `context.rs`: the permission filter
    (deny before allow), the default rules and the law that they confine
    access to the workspace.
  - `text.rs`: characters, decimal numbers, line splitting and trimming as
    `std` does them.
  - `helpers/`: mime types, base64, and the command runner's output collector.
  - `tools/`: what each tool computes — windows of numbered lines, line
    edits, glob and grep results, command lines, the light registry.
- `tests/` — tests of the library on concrete values.
- `app/` — the server around the library: command line, MCP transports,
  file and process I/O, mDNS discovery and the lights' HTTP API.

The outside crates `glob`, `regex`, `mime_guess`, `infer` and `base64` are
called from the library through small trusted wrappers whose contracts
name what they return.
