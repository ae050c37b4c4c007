# clawdia

The core of Clawdia, a policy-governed multi-agent runtime, written in Verus
and proved against its contracts.

- `src/approvals/` — approval tickets for gated actions: canonical hashing of
  their arguments, HMAC signatures over decisions, the request / decide /
  checkpoint gateway, expiry and orphan sweeps, and the agent-facing tools.
- `src/sessions.rs`, `src/persistence/`, `src/inbox.rs` — sessions, their
  waits and status, the in-memory stores and the per-session inbox.
- `src/authz*.rs`, `src/cedar_authz.rs`, `src/agents.rs`, `src/policy_prompt.rs`
  — which tools an agent may call and what the policy engine is asked.
- `src/config/`, `src/notifications/`, `src/runtime.rs` — configuration
  resolution, notifications to the human, and runtime assembly.
- `src/tui/`, `src/commands.rs`, `src/cli_args.rs` — the state of the terminal
  interface and the text of every command's output.
- `src/advisor/` — policy-store generation: prompts, the bounded retry of
  generation, and validation with the Cedar policy engine.
- `app/` — the `clawdia` binary: argument parsing, files, the terminal and
  tracing around the library.
- `tests/` — tests of the library on concrete values.
