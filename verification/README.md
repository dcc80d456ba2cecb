# eggie_ui

The logic of a terminal workspace: windows with projects, tabs and splits, terminals that a
background service runs, and a command line. The library in `src/` is verified with Verus: every
function has a contract that says what it computes, and the properties that span functions are
stated and proved as public proof functions beside them.

## Layout

| Path | What it holds |
| --- | --- |
| `src/text.rs`, `src/paths.rs`, `src/order.rs`, `src/ids.rs` | texts, paths, stable sorting, lists and maps of ids |
| `src/terminal_input.rs`, `src/pointer.rs`, `src/clipboard.rs`, `src/osc.rs` | keys, mouse, clipboard, and what programs ask of the window |
| `src/layout.rs`, `src/projects.rs`, `src/sessions.rs`, `src/tabs.rs`, `src/window.rs` | splits, tabs, projects, sessions, and how a window follows them |
| `src/terminals.rs`, `src/watchers.rs`, `src/images.rs`, `src/search.rs` | focus, sizes, progress, screens, images and search |
| `src/sidebar.rs`, `src/processes.rs`, `src/updates.rs`, `src/icons.rs`, `src/markdown.rs` | what the sidebars and panels show |
| `src/keybindings.rs`, `src/command_palette.rs`, `src/workspace.rs` | actions, shortcuts, and what they do |
| `src/cli.rs`, `src/list_colors.rs`, `src/list_themes.rs`, `src/colors.rs`, `src/themes.rs` | the command line |
| `src/tui.rs`, `src/preview.rs` | the theme browser |
| `src/command_history.rs`, `src/gui_ipc.rs`, `src/build_id.rs`, `src/input_latency.rs`, `src/i18n.rs` | times, the wake socket, build names, measurements, and the words of the interface |
| `app/` | the program: input and output, drawing, and what is computed in floating point |
| `tests/` | tests that run the library |

## What is trusted

Five functions are believed instead of proved: `String::push`, `String::from_utf8`,
`str::to_uppercase`, `str::to_lowercase`, and the event stream of `pulldown_cmark`'s parser. Each
stands behind one item of the library whose doc comment says what is claimed of it.
