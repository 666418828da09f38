# repogate

Deep repository assessment for open-core gating: ingest a repository, detect
its licenses and modules, have model sessions discover each module's
capabilities, score the modules commercially, and write a gating report.

## Layout

- `src/` — the verified library. Its functions carry contracts that Verus
  proves; the few calls into outside crates and std that vstd does not
  specify go through small trusted wrappers whose contracts are stated, not
  proved:
  - `ingestion` — URL validation against internal targets, file
    classification (binary, generated, language, line count, content hash),
    language statistics, package manifests, top-level directories,
    dependency records and their de-duplication;
  - `licensing` — copyleft classification, license-file and SPDX-header
    detection, SPDX expression handling, the repository license report;
  - `orchestrator` — invocation arguments, model routing, the session event
    fold, the token budget, job state, phase gates, checkpoints and
    resumption, the in-memory stores, and the decisions of each pipeline
    phase (module detection, the discovery loop, synthesis and risk
    aggregation);
  - `report` — report naming and the HTML document of a PDF report;
  - `cli`, `scoring` — the confirmation rule, progress lines, tier counts.
- `tests/` — tests of the library on concrete values.
- `app/` — the command-line program around the library: processes (`git`,
  `cargo metadata`, `syft`, the agent CLI, `weasyprint`), the file system,
  JSON and templates, and the floating-point commercial scoring.

## Running the agent CLI

The program runs model sessions through a headless agent CLI. Its
executable and the identifiers of its two models are read from the
environment: `REPOGATE_AGENT_CLI`, `REPOGATE_DEEP_MODEL` (synthesis and
sensitive modules) and `REPOGATE_BULK_MODEL` (bulk classification); the
library takes the identifiers as values and routes each invocation to one
of them.
