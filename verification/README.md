# kv-router

Worker selection for KV-aware routing, and per-request metrics records, written in Rust and verified
with [Verus](https://github.com/verus-lang/verus).

- `src/` is the library. Every function states what it does in `requires` and `ensures`, and Verus
  proves it. The exceptions are the small wrappers marked `#[verifier::external_body]`, each of which
  makes one call into an outside crate or the standard library: `table_get`, `table_insert` and
  `table_entries` (hash maps), `random_index` (random numbers), `open_channel`, `open_receiver`, `send`
  and `take_next` (the broadcast channel), and `lowercase` (Unicode). Their contracts are believed, not
  proved, and their doc comments say what is believed.
  - `binary64` holds binary64 numbers as bit patterns and compares them as numbers.
  - `text` reads settings: trimming, lowering, splitting, counting.
  - `scheduling` selects the worker for a request: `candidates` lists the workers that may serve it,
    `formula` gives the integers of their scores, `lowest` and `tie_break` find the winner at zero
    temperature, `softmax` draws one otherwise, and `selector` puts them together. `laws` states what
    holds of every selection.
  - `request_metrics` records what happened to a request (`tracker`, `record`), carries records to
    their sinks (`bus`), and reads which sinks there are (`sink`) and whether they are on (`config`).
- `app/` is ordinary Rust around it: the floating-point arithmetic of scores and probabilities, the
  environment, logging, JSON, and the tasks that write records.
- `tests/` runs the library.

A selector only compares scores. The caller hands in two functions: one turns the integers of a score
into the score, the other turns scores into running sums of probabilities.
