# fae_agent

The verified core of a terminal client for LLM agents, written in Verus.

- `src/` is the library. Every function in it carries a `requires`/`ensures`
  contract that Verus proves: slash-command parsing, the multi-line prompt
  composer, the transcript and its buffering of nested agents' output, the
  chat console, system-prompt assembly, agent configuration checks, chat
  records and their merging from streamed chunks, bounded session memory,
  and the state machine of one agent turn. `src/laws.rs` states properties
  that span several operations.
- The few calls into outside crates (`serde_json`, `unicode-width`, `dirs`,
  `wd_tools`) and into the system clock sit behind small trusted wrappers;
  each one's doc comment says what its contract claims.
- `tests/` runs the library on concrete values.
- `app/` is the command-line program around the library: argument handling,
  files, the terminal loop and JSON (de)serialisation of configuration.
