# temm1e

Verified core logic of the Tem agent runtime, written in Verus.

- `src/observation.rs` — reads counters off a formatted accessibility tree
  and chooses how much page data (tree, DOM subtree, screenshot) the browser
  agent receives; cuts text at UTF-8 boundaries.
- `src/witness.rs` — refuses unsealed oaths, aggregates predicate results
  into verdicts, writes the verdict summary and the final reply under each
  strictness level, and assembles a verdict from tier-0 check results.
- `src/heartbeat.rs` — active-hours windows at a given clock time, tick
  decisions, the heartbeat message and the tick interval.
- `src/perpetuum.rs` — Perpetuum data types, JSON reading over serde_json,
  and the initiative cycle as a state machine: prompt, answer, guardrails,
  note saving.
- `src/self_work.rs` — steps, prompts and result texts of sleep-time work.
- `src/eigentune.rs` — the engine switch, the routing and monitoring
  fallbacks, per-category count merging and the status display.
- `src/text.rs` — character-level parsing and formatting helpers.

`app/` holds the asynchronous runtime around the library: the heartbeat
loop, the initiative cycle's driver, structured tracing, serde copies of
library types, and task parking on channels and timers.
