# sleet

A bytecode runtime and orchestration toolkit for agent workflows, written in
Verus. The library under `src/` states its behaviour in `requires`/`ensures`
contracts and proves them; `app/` holds the asynchronous, file, logging and
JSON glue that Verus does not check.

Layout of `src/`:

- `runtime/` — opcodes and their byte encoding, runtime values, the bytecode
  assembler, the gas-metered interpreter with its step semantics, the split of
  bytecode into computational and foreign-call segments, stack analysis and
  execution profilers.
- `orchestration/` — resource pools and allocation policies, the resource
  manager and usage tracker, flow validation and execution planning, block
  stepping decisions and the session's block-by-block state machine
  (`execution.rs`), the analysis of a flow's resource needs, input
  validation for the adapters and what the adapters decide (prompts filled
  and checked, the replies given without a backing service, the inputs a
  workflow gathers), the selection cache, session state with
  checkpoints and per-session context, the tracking of sessions through
  their events, and session storage naming.
- `llm/` — errors, text utilities (JSON delimiters, code fences, chunking),
  the fallback schedule, prompt templates and contexts, and the text readings
  used when repairing replies.
- `flows/`, `agents.rs`, `agents/search.rs`, `ast.rs` — flow definitions,
  agent descriptions, the filtering and paging of registry searches, and
  paths into a contract's state.
- `keyed.rs`, `text.rs`, `textops.rs`, `json.rs` — ordered string-keyed
  tables, text helpers, and the `serde_json` readings the library relies on.

`app/runner.rs` drives a session: it asks the library for each block's step
and carries out the agent, language-model, task, workflow and parallel work
the step hands back.
