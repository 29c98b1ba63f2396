# things_sak

A command-line tool and MCP server for the Things 3 task manager on macOS.
Reads go through read-only AppleScript queries; writes go through the official
`things:///` URL scheme.

## Layout

- `src/` — the verified library (Verus). Every script, URL, parameter list and
  message is built here, and every answer from osascript is parsed here, with
  contracts over the character sequences involved:
  - `text` — character-level string building, splitting, joining, decimal digits,
    case folding.
  - `applescript` — `tell` blocks, string-literal quoting, and the record format
    that osascript output uses (with the quoting and record round-trip laws).
  - `url_scheme` — percent encoding and `things:///` URLs (with laws that encoded
    values are URL-safe, decode back, and cannot add parameters), and the auth
    token choice.
  - `types`, `ops`, `display`, `mcp`, `serve` — items, operations, CLI output,
    MCP tool state, and the HTTP server's token, host and banner decisions.
- `app/` — the program around it: clap, tokio, osascript and `open`, the rmcp
  server and the axum transport, and serde copies of the library's types.
- `tests/` — tests of the library on concrete values.
