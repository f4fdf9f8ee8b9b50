# march_core

The core of March, an agentic coding assistant: its data, rules and wire
formats, written in Verus with their contracts proved.

- `src/` is the verified library. Among its modules: `tools` (the tools
  offered to the model and their prompt text), `tool_args` and `tool_calls`
  (reading tool calls and reporting their outcome), `editing` and
  `file_diffs` (line edits and diffs), `prompt` and `messages` (what is sent
  to the model), `requests` and `wire` (the request and reply formats of
  each provider), `provider` (retry and fallback steps), `memory`,
  `memory_file`, `memory_store` and `search` (long-term memories), `notes`
  and `scopes` (notes, open files and agent scopes), `timeline`,
  `progress`, `task_rows`, `schema` and `history` (the stored conversation),
  `agents` and `settings` (agent profiles and provider settings), `shells`
  (shells and command output), `sending` (which turns answer a message).
- Calls into outside crates (`serde_json`, `similar`, `jieba-rs`,
  `encoding_rs`, `reqwest`, `base64`) go through small trusted wrappers whose
  contracts say what the crates document.
- `app/` is plain Rust around the library: files, processes, HTTP, the
  clock, and the floating-point memory ranking.
- `tests/` runs the library on concrete values.
