# torus_agent

An agent framework library — LLM provider request/response handling, an
agent context and step-wise runner, an orchestrator with hierarchical
message memory, an anomaly monitor, genus-13 topology configurations, and a
memory system of episodes, concepts and their associations — whose logic is
verified with Verus.

## Layout

- `src/` — the verified library. Its public functions carry `requires` /
  `ensures` contracts proved by Verus; properties that span several
  operations are stated as `law_*` proof functions next to the code they
  are about. Calls into outside crates and into parts of `std` that vstd
  does not specify go through a few small trusted wrappers, each documented
  with what its contract claims.
  - `agent/` — errors, messages, the conversation context (trimming,
    truncation, token accounting) and the decisions of the agent loop.
  - `providers/` — message and completion types, and the request/response
    shapes of the Anthropic, OpenAI and local chat formats.
  - `orchestrator/` — agent state machine, analect configuration and
    message memory with parent/child visibility. The messages of every
    scope live in a `MemoryStore`; a memory manager is a handle on one scope
    and its parent's handle, so duplicates share their scope's messages and
    a child sees its parent's scope as it is at every moment.
  - `collider/` — anomaly kinds, severities and the event monitor.
  - `genus13.rs` — topology configurations and parameter estimates.
  - `memory/` — episodic, semantic and coupling stores, keyword and concept
    word extraction, episode merging, and the bridge's bookkeeping.
- `tests/` — tests of the library on concrete values.
- `app/` — what cannot be verified here: HTTP providers and async loops,
  serde copies of library types, and everything computed in floating point
  (similarities, scores, decay, simulated forward passes), built on the
  verified library.
