# kunger_lib

The verified core of Kunger, a read-only inventory of the software installed on
Debian and Ubuntu systems.

- `src/` is checked by Verus:
  - `ownership` parses `dpkg -S` output into a path-to-package map;
  - `export` builds the CSV form of the inventory export through the `csv` crate;
  - `commands` holds the structured error of the command layer;
  - `tui` holds the decisions of the terminal front end (key handling, the texts
    of the filter panel, status bar and item table, the scan-progress area);
  - `text` holds the character-level helpers (Unicode whitespace, trimming,
    decimal notation, joining, padding);
  - `domain` holds the software item as the export and the table read it.
- `app/` is the application around it: serde serialisation (JSON/YAML export,
  frontend DTOs), the tokio plumbing for blocking calls, and the ratatui /
  crossterm front end.
- `tests/` runs the library on concrete inputs.
