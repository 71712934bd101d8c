# tapir-bot

A chat bot's decisions as a verified library: whom to answer, what a message asks
for, what a turn or a command replies, and how a reply becomes Slack blocks. All
of `src/` is checked by Verus; it does no I/O.

- `src/access.rs`: the deny-by-default access policy and the bot loop cap.
- `src/engine.rs`, `src/engine_laws.rs`: admission, commands, turns.
- `src/commands.rs`, `src/memory.rs`, `src/meta.rs`, `src/tools.rs`: what the
  engine draws on.
- `src/slack/`: the Socket Mode protocol, the Web API calls, the streaming reply,
  and Markdown rendered into Block Kit.
- `src/text.rs`, `src/json.rs`: strings and JSON as the contracts speak of them.
- `app/`: the runtime around it (config files, the agent SDK, sockets, the disk).
- `tests/`: the library from outside.

Functions named `law_*` are proofs of what holds of the library as a whole.

What is trusted rather than proved: the Markdown parser (`pulldown-cmark`), JSON
parsing and printing (`serde_json`), `{:?}` of a string, and `std::sync::RwLock`.
