# opencrust

The decision logic of a personal AI-agent gateway, proved with Verus: how
channel messages are checked, read and answered, how LLM requests are built and
their answers and event streams read, how the agent's tool loop and context
window are managed, and how the configuration and the command line decide.

## Layout

- `src/` – the verified library. Each module states its behaviour in
  `requires` / `ensures` over spec functions; laws that relate several
  functions are public `proof fn`s named `lemma_*`.
  - channels: `line_hook`, `whatsapp_hook`, `wechat_hook`, `slack_hook`, `slack_api`,
    `discord`, `mqtt`, `message`, `outbound`, and the text formats `line_fmt`,
    `wechat_fmt`, `slack_fmt`, `hints`
  - agents: `providers`, `anthropic`, `openai`, `codex`, `ollama`,
    `embeddings`, `runtime`, `context`, `prompt`, `tools`, `mcp`, `a2a`
  - configuration and command line: `config`, `wizard`, `cli`
  - shared: `text`, `lines`, `json`, `keyed`, `crypto`, `error`, `protocol`
- `tests/` – tests run against the compiled library.
- `app/` – the `opencrust` command: reading and writing the configuration
  file, the daemon's PID file and signals, the gateway status request and the
  interactive setup wizard.

Calls into `ring`, `base64`, `subtle`, `serde_json` and `dirs` are made from
`src/` through small `#[verifier::external_body]` wrappers whose contracts say
what those crates document.
