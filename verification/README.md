# via_voice

The decision core of a realtime voice gateway, written in Verus: which
client owns the microphone, when a finished background result may be
spoken, how a user's turn and its attachments are validated and anchored,
how tool calls from the voice model are admitted and answered, and when an
idle session goes to sleep.

## Layout

- `src/` — the verified library. Each module states its behaviour in
  `requires`/`ensures` contracts over mathematical models (`Seq`, `Map`,
  spec functions) and proves it. Stateful parts (the announcement queue,
  the sleep controller, input arbitration, the tool-call caches) are state
  machines: each step takes the current state and an event and returns the
  next state together with the effects the host must perform.
  - `announcement/` — the announcement window, the results envelope, and the
    delivery queue with its retry, acknowledgement and lease timers.
  - `input/` — turn parts, validation, attachment anchors and the model
    projection; `assets.rs` keeps attachments referable across turns.
  - `tools/` — the tool catalog, admission and caches of tool calls, and the
    step functions behind delegation, permission answers, cancellation and
    status reports.
  - `imap.rs`, `tables.rs`, `chars.rs`, `pattern.rs` — the trusted boundary
    to `indexmap`, std strings and `regex` (`tables.rs` also holds the
    verified insertion-ordered tables built on `IndexMap`); every other trusted item sits next
    to the code that uses it and says in its doc comment what it claims.
- `tests/` — executable tests against the compiled library.
- `app/` — the unverified host: wire formats (serde), tool-argument
  parsing, the JSON tool declarations, and the Tokio loops that perform the
  effects the state machines return.
