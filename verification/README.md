# pmos

The core of Pseudo Motion OS, a browser-native pseudo operating system,
as a verified library:

- `abi` — the syscall ABI: ids, capabilities, syscalls, replies, events.
- `proc` — the process table and capability checks (scoped file access).
- `path`, `store`, `vfs` — path normalisation and the in-memory file tree.
- `ai` — the agent manager: provider bindings, request building, streams.
- `kernel` — the capability-checked syscall dispatcher and event queues.
- `tools` — the System Assistant's tools, each run as one syscall.
- `shell`, `files`, `settings` — the decisions of the shell (call-sign
  taps and holds, signs, transcript routing), the Files app and the
  Settings app, as steps from state and event to state and actions.
- `fusion` — hand poses to pointer intents (press, release, scroll, grab).
- `expr`, `conjure` — the Conjure DSL front end: tokenizer, parser,
  templates and the staged document validator.
- `apps`, `palette`, `terminal`, `voicekit`, `notes` — the logic of the
  shell's built-in apps: launch grants, the command palette, the Terminal,
  the voice-history search, and the Files/Notes helpers.

`app/` is the text-mode program around it: the Terminal on standard input,
and validating and running Conjure documents (JSON parsing and the
floating-point expression evaluator live there).
