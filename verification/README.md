# vuln_hound

The verified core of Vuln-Hound, an agentic security scanner: an LLM is given
read-only tools over a codebase and a checklist group, investigates, and
submits structured findings.

Layout:

- `src/` — the library, verified with Verus:
  - `agent/` — the scan session as a state machine (`loop_.rs`), the system
    prompts, the tool registry, the session registry and scan events;
  - `llm/` — message and tool types, provider presets, and the client's
    decisions: retries and their waits, error messages, URLs, model lists;
  - `tools/` — walk filtering, listing, path confinement, file decoding,
    search bookkeeping and dependency manifests;
  - `playbook.rs`, `findings.rs`, `settings.rs`, `secrets.rs`.
- `tests/` — tests of the library on concrete values.
- `app/` — the desktop application around it: Tauri commands, HTTP,
  filesystem access, the credential store and the loop that drives a scan
  session.
