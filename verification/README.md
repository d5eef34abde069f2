# fastclaw

An embeddable AI agent library: an agent loop over an LLM provider, a
sandboxed shell tool, skills, per-session working directories, session
history on disk and a terminal front end.

## Layout

- `src/` is the library core, written in Verus. Its functions carry contracts
  and are proved, except the trusted items that call std, `regex`,
  `pulldown-cmark` and `openai-client-rs` (marked `#[verifier::external_body]`,
  with contracts taken on trust from those libraries; `canonicalize_path`
  states nothing, as its result depends on the file system). It covers
  command safety rules (`security`), working-directory bindings (`workdir`), history repair and unloading (`session`), prompt
  assembly (`system_prompt`), provider message layouts and thinking-mode
  fallback (`llm`), stream accumulation and reasoning extraction (`stream`), skills and tool decisions
  (`skills`, `tools`), configuration defaults (`config`), workspace seeding
  (`seed`), the terminal UI state machine (`tui`) and markdown parsing and
  layout (`markdown`). Public `law_*` proof functions state properties that span
  several calls.
- `app/` is ordinary Rust around the core: file and network I/O, JSON,
  the async agent loop, provider clients, process spawning and the terminal.
- `tests/` runs the library on concrete values.
