# artifact_cli

Plans narrowly scoped iii workers from an artifact description, renders their
files, and checks a worker's source against its plan.

- `src/` — the verified library: text operations (`text`), slugs and titles
  (`slug`), the data model (`model`), function inference and planning
  (`planner`), rendering of a worker's files (`render`) and the check of a
  worker's source against its plan (`check`).
- `app/` — the command-line front end: argument parsing, JSON, and reading and
  writing worker directories.
- `tests/` — tests of the library.
