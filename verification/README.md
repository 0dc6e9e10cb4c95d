# aura

The rules of an agent runtime that orchestrates workers over tool servers,
written in Verus: every function states in its contract what it returns, and the
contract is proved.

- `src/` is the library.
  - `text`, `json`: strings and documents.
  - `mcp`: tool servers. Connections and their outcomes, requests in flight and
    their cancellation, HTTP replies, event streams, progress, tool results,
    tool names and schemas fit for models.
  - `orchestration`: what coordinator and workers are told. Bounds on content,
    the prior-work frame and its budget, evidence of tasks, the guard against
    repeated calls, plans, prompts, and fixtures of whole requests.
  - `openinference_exporter`: spans under the names of the OpenInference
    conventions.
  - `model_limits`: context limits of models.
- `tests/` runs the library on concrete values.
- `app/` connects it to the network, to child processes, to the model framework
  and to span exporters.

What holds of several functions together is stated by proof functions whose
names begin with `law_`. Calls into other crates stand in small functions marked
`external_body`; the comment above each says what is claimed of the call.
