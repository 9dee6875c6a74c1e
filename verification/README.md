# codexline

A status-line companion for the official Codex CLI. It starts Codex inside a
pseudo-terminal and draws a HUD (model, context, tokens, rate limits, git
state, agents, tools, plan) in the rows below it, fed by Codex hooks, an
optional app-server session and local probes.

## Layout

- `src/` is the library, written in Verus. Every function in it carries a
  `requires`/`ensures` contract over spec functions and views, and Verus
  proves each body against its contract.
- `app/` is the program around it: argument parsing, terminal and PTY
  input/output, sockets, files, git processes and the serde copies of the
  configuration types. It hands the library plain values and performs what
  the library decides.
- `tests/` runs the library on concrete values.

## What is proved

- Configuration: defaults are valid; validation names the first broken rule;
  a version-1 file migrates to version 2 with the live proxy off and every
  other setting kept.
- HUD text: rows fit the requested width; fitting keeps modules in order and
  drops only modules of lowest priority; a module without data is hidden
  rather than shown as zero; no text in a status row or in the agent
  inspector holds a control character.
- Drawing: a draw only moves the cursor into the HUD's rows at the bottom
  (with five or more rows the top four stay Codex's); an unchanged redraw
  writes nothing; after invalidation every row is written again.
- Hooks and app-server messages: each payload's effect on the snapshot is
  stated exactly; each agent id is kept once; labels are cleaned and bounded;
  at most four recent tools are kept, the used one first, the others in their
  old order.
- Editor: keys never change the loaded configuration; at least one module
  stays enabled; saving accepts only valid configurations; each radio group
  marks exactly one option.
- Launch: the companion's bypass flag never reaches Codex; a user's own
  footer override wins over the companion's; the HUD keeps at least one row
  and Codex at least four; the shim never replaces or removes a file it does
  not own.

## Trusted

Four calls are taken on trust, each behind a small wrapper whose contract
states what the outside code does: `String::push`, `String::pop`,
`UnicodeWidthStr::width` (result named `display_width`) and a lookup through
`toml::from_str` and `Value::get` (result named `toml_lookup`).
