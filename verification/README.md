# pdu_automation

Test-report automation for PDU500 units: it finds the CSV exports a test station writes for
each step, decides which tasks are ready, writes the measured values into the unit's Excel
report workbooks, keeps a per-unit state file, and tells the operator what is still missing
before the report can be printed.

## Layout

- `src/` — the library, verified with Verus. Each public function has a contract, stated over
  the library's spec functions; where a result comes from an outside crate (regular
  expressions, the zip reader and writer), the contract names it rather than states it. Laws
  that relate several functions are public proof functions named `law_*`.
  - `tasks`, `plans`, `readiness`, `summary`, `printing`: the task list, which columns and
    cells each task reads and writes, when a task may run, and print readiness.
  - `scan`, `csv_data`, `mapped`, `processors`, `batch`: finding and reading exports,
    profile-driven mappings, processing results, and the batch state machine that queues,
    commits and records task outputs.
  - `sheet_xml`, `workbook`, `package`, `xml_text`, `read_back`, `reports`, `cells`: the
    worksheet XML edits of an `.xlsx` package, the package read and written again (through the
    `zip` crate), report discovery, naming and setup plans.
  - `profile`, `resource_paths`, `candidates`, `unit_state`, `report_paths`, `excel`,
    `commands`, `automation`: the layout profile, where files are looked for, the newest unit
    folder, the unit state, and the command-level checks and errors.
  - `patterns`, `text`, `str_map`, `select`, `io_error`: regular expressions (through the
    `regex` crate), text helpers, a map keyed by text, and selection of the newest item.
- `app/` — the host around the library: file system walks and file writes, JSON, PowerShell
  and Excel, the clock, and the measurement arithmetic, which is floating point.
- `tests/` — tests of the library on concrete values.
