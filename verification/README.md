# PeakBot

An agent runner: it takes what a user types, runs it as a command or as a turn of
a language model, delegates work to the members of a team, and keeps the
conversation.

- `src/` is the library. It decides what happens: how a submission is read, what a
  command answers, which agent is built for which model or team, when a failed turn
  is retried, what a sub-agent hands back, which MCP servers are connected and how
  they are authorised. Every function has a contract. Verus proves it, except for
  the few wrappers around functions of other crates and of the standard library:
  what these are believed to do stands in their contracts and doc comments. Public
  proof functions named `law_...` state what holds across functions.
- `tests/` runs the library on concrete values.
- `app/` is the program on a terminal. It reads, asks the model, runs the MCP
  clients, opens the browser and prints, and asks the library for each decision.

The library says what is to be done as data: a decision returns `effect::Effect`
values in order, and the program carries them out and reports back what came of
them.
