# tanken

A dual-pane terminal file manager whose state and decisions are a library
verified with Verus, around a thin binary that talks to the terminal and the
filesystem.

## Layout

- `src/` — the verified library.
  - `text`, `path`, `order`: character-level string helpers, path
    operations (through `std::path`), and the stable keyed sort every
    listing uses.
  - `platform`, `fs`: directory entries as plain values, filesystem errors,
    listing order and the checks before copy, move, rename, create, trash.
  - `pane`, `tabs`, `bookmarks`, `input`, `app`: the navigation model —
    cursor, selection, sorting, filtering, scrolling, tabs, bookmarks and
    recent directories, modal key handling, and `App::process_action`, which
    answers each action with a `Step` naming the outside work to do next.
  - `preview`, `render`, `search`, `mcp`, `scripting`, `config`: what a
    preview shows, the text and style of each screen row, fuzzy search, the
    rules of the MCP file tools, script hooks and replies, and the
    configuration defaults.
- `tests/` — tests run against the compiled library.
- `app/` — the binary: terminal loop and painting, configuration loading,
  bookmark persistence, filesystem work, the MCP server and the script
  host.

Each public function states what it returns or changes in its `ensures`;
properties that relate several functions are public proof functions named
`law_*` next to the functions they speak of.
