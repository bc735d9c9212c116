# ml-intern-tui

A terminal client for conversations with an assistant that runs commands, edits files and leaves
reports. It shows a transcript, takes prompts, asks for approvals, and lets the user pick skills,
earlier conversations and artifacts. It runs line by line, on the whole screen, or in a few rows at
the bottom of the terminal.

## Layout

- `src/` is the library, written in Verus. Every function states what it returns or changes, over a
  model of its data, and is proved to do so. The laws that relate several functions are the public
  proof functions whose names start with `law_`.
  - `text`, `cursor`, `width`, `edit`, `composer`, `wrapping`: text, and lines that are typed
  - `ids`, `clock`, `skills`, `artifacts`, `threads`, `ui`, `protocol`: the data
  - `transcript`, `restore`, `app`, `session`, `prompts`, `client`: the conversation
  - `picker`, `completion`: finding things
  - `styled`, `exec_render`, `diff_view`, `history_cell`, `renderer`, `markdown_stream`,
    `startup_banner`, `human_time`, `labels`: how entries look
  - `draw`, `overlay`, `bottom_pane`, `fullscreen`, `inline_tui`: the screens
- `app/` is the program around the library: the server process, files, JSON, and the terminal.
- `tests/` runs the library on examples, with the outside crates linked in.

## What is believed without proof

A few functions of `std` and of outside crates are called through items whose contracts are taken on
trust: the character classes of `std`, the widths and clusters of `unicode-width` and
`unicode-segmentation`, the JSON lookups of `serde_json`, the clock and the dates of `chrono`, and the
split of an area by `ratatui`. Each such item says above its declaration what it claims.
