# tilix

The state and the decisions of a tiling terminal emulator, as a Verus library, with a
GTK front end around it.

`src/` is the verified library:

- `types` — identifiers, settings enums, the profile and application settings the logic reads.
- `geometry` — the size of a new window from the cell size, the profile, the chrome and the monitor.
- `terminal_pane` — a pane's state (zoom, title, child process, exit action, overlays) and the
  small decisions its widgets need (stat parsing, directories, badges, scroll zoom, switch rules).
- `layout` — the arrangement of a session's panes: a tree of splits side by side or one above
  the other, with replacing, removing and exchanging panes.
- `session_view` — a session: its arrangement and panes in layout order, the focus history,
  splitting right or down, closing, docking, moving panes between sessions, title bars and
  input broadcasting.
- `window`, `quake` — tab navigation, the close actions, tab identifiers, file names, and how
  session actions are carried out in a window and in the drop-down window.
- `dnd`, `notifications`, `preferences` — the drag under way, drag and drop rules, notification
  texts, and the preference dialogs' mappings, validations and labels.
- `text` — string helpers the rest builds on (trimming, decimal text, field splitting).

`tests/` runs the library on concrete values. `app/` holds the GTK widgets, windows,
configuration files and `/proc` reads, and calls the library for every decision.
