# sven_tui

The state, the rules and the text formats of a terminal chat front end, verified
with Verus.

- `src/` is the library. `src/app/` holds the state of the front end and its
  steps: every step takes an action or an event and gives the next state and the
  things to do outside of it. `src/chat/` holds conversations: segments, their
  Markdown form and its parser, previews, search and saved records.
  `src/commands/` holds slash commands: parser, registry, completions.
  `src/input_wrap.rs` wraps the text of the input, `src/input.rs` deals with keys.
- `app/` is the terminal program around it: events, drawing, files, agents.
- `tests/` runs the library on concrete values.

Each type has a view, each step a spec function on views, and each function says
that it computes that step. Laws that span several steps are public proof
functions named `law_…`, next to what they speak of; `src/app/order_laws.rs` and
`src/app/order_kept.rs` show that the state stays in order whatever happens.
