# llmman_launch

What `llmman launch` decides, writes and runs: a Verus library, and the
ordinary Rust around it.

- `src/` is the library. Every function in it is verified against its
  contract; the calls into `serde_json`, `base64`, `toml_edit` and the
  standard library it relies on are stated beside the wrappers that make
  them.
- `app/` performs what the library asks for: it reads and writes files, looks
  for programs, and runs them. The rest of llmman is reached through its
  `Host` trait.
- `tests/` runs the library with the real crates.

The launch itself is in `run` (from the arguments to the handoff), `launch`
(the steps and the command of each agent), `documents` (the files each of them
is written, and what they hold) and `registry` (which agents there are).
`preflight` and `providers` hold what is refused and which key travels.
Each agent with a configuration of its own has a module: `agy`, `codex`,
`dsh`, `goose`, `grok`, `hermes`, `opencode`, `pi` and `qwen`. `settings` is
how a JSON file shared with the user is read and rewritten, over `json`,
`value` and `comments`; `yaml`, `lines` and `text` are the rest of the text
handling; `args`, `capabilities`, `endpoint` and `paths` are what the agents
have in common.
