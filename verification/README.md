# pcbbench

An eval harness for typed-decision-driven PCB design agents: it drives a
design-agent backend (today legion-of-bom's `lob` CLI) through
spec → schematic → run → board → drc, and scores the artifacts that come back against a
task's rubric.

- `src/` is the library, verified with Verus: the task model, the backend
  pipeline as a state machine (which stage runs next, what a run records),
  the scoring of each rubric check, and the console text. Real numbers
  (thresholds, confidences, measured fractions) are held as binary64 bit
  patterns and compared exactly.
- `app/main.rs` is the `pcbbench run` command: it reads the task TOML,
  performs the steps the pipeline asks for (creating directories, copying a
  spec, running `lob`, checking for files), reads the decision trace and the
  scope-probe report, and writes `report.json`.
- `tests/` runs the library on concrete values.
