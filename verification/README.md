# snaprun

Snapshot tests for command-line programs, and the line diff they show.

- `src/` is the library, verified with Verus:
  - `diff.rs`: line-by-line comparison of two texts and its rendering
    (headers, numbered lines, styles), with the settings that shape it.
  - `runner.rs`: judging checks on a run: output streams, files (step by
    step, asking for the reads and the template it needs), directories,
    commands and variables; splitting command lines.
  - `snapshot.rs`: snapshot descriptions, assembling one from its files,
    judging a run against it, reports, and the change between two versions.
  - `cli.rs`: the subcommands of the runner.
  - `paths.rs`, `text.rs`: paths as text, decimal rendering, padding.
- `app/` is the program around it: command-line parsing, files, processes,
  templates and coloured output.
- `tests/` runs the library on concrete inputs, including the examples of the
  snapshot runner's documentation.
