# lakka

An actor library: an actor owns its state and handles "tell" messages (no answer) and
"ask" messages (answered through a oneshot reply channel) one at a time, from its
mailbox and from extra channels that it polls besides.

Layout:

- `src/` is the verified library.
  - `naming.rs`: the PascalCase and snake_case conversions that name generated
    variants and modules, with their laws (no underscores in PascalCase, idempotence
    of both on ASCII, each undoing the other on the names it is made for).
  - `channels.rs`: one-message, delayed and interval channels, as decisions on whether
    their time (counted from their start) has come.
  - `actor.rs`: messages, errors, the context a handler sees, and the receive loop as
    a state machine from event to action, with its laws.
  - `syntax.rs`: reading the attribute's tokens with `syn` into a plain model.
  - `expand.rs`, `expand_pakka.rs`: what the `messages` attribute decides about an impl
    block (which methods become messages, their kinds, variants, fields and all
    generated names), from the raw tokens through the model.
- `app/` runs actors on tokio, renders the planned expansion with `quote`, and
  implements the async channel traits.
- `tests/` exercises the library on concrete values.
