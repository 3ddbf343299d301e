# swink_agent

A library for building LLM-powered agentic loops, verified with Verus.

## Layout

- `src/` — the verified library. Its functions are proved against their
  `requires`/`ensures` contracts; the few calls into `serde_json` and std
  that Verus cannot read stand behind trusted wrappers (in `json`, `text`
  and `classify`), and the traits that users implement (tools, plugins,
  policies, retry strategies) state what every implementation may answer:
  - `types`, `error`, `stream_error_kind`: messages, usage, model specs and
    typed errors, each with a mathematical view;
  - `stream`: the streaming protocol and its accumulation into a finished
    assistant message; `hooks`: the deltas forwarded to listeners;
  - `classify`, `retry`, `overflow`: how stream errors are classified and
    answered (retry, fallback, overflow recovery, surfacing);
  - `turn`, `turn_commit`: the state threaded through a run and the
    decisions of each turn and of the loop around it;
  - `dispatch`, `relay`: tool batches (approval, pre-dispatch verdicts,
    execution groups, result ordering and filling) and the bounded relay of
    partial tool results;
  - `policy`, `loop_policy`: policy slots and how their verdicts combine;
  - `context`, `state`, `keyed`, `mailbox`: the conversation history and its
    prompt-cache prefix, the session state with its change log, the keyed
    store beneath it, and agent inboxes;
  - `plugin`, `tool`, `tool_name`, `noop_tool`: plugins ordered by priority,
    tools and provider-safe tool names;
  - `orchestrator`, `connections`, `message_provider`: agent hierarchies and
    supervision, model connections, steering and follow-up sources;
  - `model_catalog`, `stream_options`, `metrics`, `otel`, `text`, `json`:
    catalog lookups, option support, metrics records, telemetry settings and
    helpers; `json` holds the trusted wrappers around `serde_json`.
- `tests/` — tests run against the compiled library.
- `app/` — the parts Verus does not check: the async agent loop and the
  tasks of orchestrated agents, which await and send while the library
  decides; floating-point pricing and back-off; TOML and serde forms; locks,
  channels and panic isolation; telemetry set-up.
