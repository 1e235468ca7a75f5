# Morphic TUI

A terminal dashboard for quality engineering: a system monitor, a settings
page, system information, and quality tables (projects, tasks, bugs,
acceptance criteria, assets) read from SQLite.

## Layout

- `src/` — the library, verified with Verus: configuration repair, the
  column table, sorting and filtering of rows, the keyboard handling of the
  quality page, the settings page, the monitor's history and process order,
  text shown on the information page, and the shell that routes events and
  says which outside work each event asks for (`Effect`).
- `app/` — the program around it: terminal input and drawing (ratatui,
  crossterm), sampling (sysinfo), the configuration file (confy, serde) and
  the database (sqlx), and the event loop that performs the effects.
- `tests/` — tests of the library.

Keys: `Tab` cycles the pages, `b` hides the sidebar, `q` quits; on the
quality page `1`–`5` pick a table, `/` searches, `f` (or `s`) focuses the header
(`Enter` sorts by the column under the cursor), `i`/`a` add an acceptance
criterion, `r` reloads.
