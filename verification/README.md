# belt_core

The verified core of `belt`, a workflow engine that drives LLM agents through
pipelines declared in YAML: phases, gates, regates, retries, sub-pipeline
expansion, `belt://` artifact URIs, status views and static lint.

- `src/` — the library, verified with Verus. Each public function states its
  result over mathematical models (`Seq`, `Map`, views of the data types);
  the `law_*` proof functions state properties across calls.
- `tests/` — tests of the library on concrete values.
- `app/` — the `belt-agent` command line: argument parsing, files, processes
  and JSON output around the library.
