# aura

A small coding agent: give it an instruction and a workspace, and it runs one
loop — ask the model, run the tool it calls, feed the result (or the error)
back — until the model is done, the turn or error budget runs out, or the user
interrupts.

The library in `src/` is verified with Verus. It holds the agent's decisions
and data: the loop's step function, the state machine and budgets, the
context truncation and compaction, the tools' checks and replies, the policy
and command pre-check, the child-agent registry, the SSE parser, the plugin
manifest, MCP configuration, secrets and skills, the bench framework's task
logic and the setup wizard's state machine. Calls into other crates
(`regex`, `serde_json`) and the clock go through a few trusted functions whose
contracts are stated in their doc comments.

`app/` is the `aura` command around it: argument parsing, configuration and
transcript files, the HTTP model client, the tools' file system and process
work, the bench runner and reports, and the terminal wizard.

`tests/` exercises the library on concrete values.
