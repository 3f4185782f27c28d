# rsched

An Autosys-class job scheduler whose core is written in Verus and proved
against its contracts.

## Layout

- `src/` — the verified library.
  - `conditions/` — the Autosys condition language: expressions, the parser
    (with its grammar as spec functions), the evaluator, and the proof that
    rendering an expression and parsing the text gives the expression back.
    That proof covers expressions without `not` (the text `not (...)` reads
    back as a call of a function named `not`), whose job names are
    identifier characters, whose look-backs are whole minutes and whose
    comparison operands are not `i32::MIN`.
  - `jil/` — the JIL reader: comment stripping, line and attribute scanning,
    attribute application and translation of a job spec into a job.
  - `job`, `trigger`, `policy`, `calendar`, `boxes`, `resource`, `target`,
    `run`, `ids`, `time` — the domain model and its validation rules.
  - `runner`, `agent`, `sla`, `alert`, `dedup`, `access`, `auth`, `api`,
    `cli`, `raft` — the decisions taken around running jobs, alerting,
    webhook replay protection, access control, the REST API and the
    command-line client.
- `tests/` — tests of the library on concrete values.
- `app/` — the binary: argument parsing, HTTP, processes, timers and email,
  calling into the library for every decision.
