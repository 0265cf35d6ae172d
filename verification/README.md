# fallow_cli

The decision-making core of the `fallow` command line — a tool that finds
unused files, exports and dependencies, duplicated code and overly complex
functions in JavaScript and TypeScript projects — written in Verus, with
each function's behaviour stated as a contract and proved.

## Layout

- `src/` — the verified library.
  - `results.rs`, `rules.rs`, `check.rs`, `scope.rs`: the findings of an
    analysis, rule severities (with per-file overrides), issue-type
    filters, and scoping to a workspace or to changed files.
  - `baseline.rs`, `health_baseline.rs`, `dupes.rs`: stable keys for every
    finding and the filters that keep only what a saved baseline lacks;
    duplication statistics.
  - `fix.rs`, `fix_plan.rs`, `fix_groups.rs`: which unused exports, enum
    members and dependencies can be removed, and each file's new text.
  - `health.rs`, `health_types.rs`, `scoring.rs`: the complexity findings,
    the files in a health report's scope, and the integer parts of the
    per-file scores with their refactoring evidence.
  - `audit.rs`, `combined.rs`, `init.rs`, `explain.rs`: verdicts, summary
    lines, scaffolded configuration and rule metadata.
  - `text.rs`, `order.rs`: strings and orderings.
  - `paths.rs`, `glob.rs`, `keyset.rs`: the calls into `std::path`,
    `globset` and `rustc_hash`, whose results are named.
- `app/` — file and process I/O, JSON forms of the library's types,
  command-line value types and terminal colours around the library.
- `tests/` — tests of the library.

The analysis itself (parsing, the module graph, churn, scoring with
floating point) is not part of this crate; its results are handed to the
library as plain values.
