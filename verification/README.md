# subscription-engine

A recurring-billing engine for Soroban contracts, verified with Verus.

- `src/` is the engine: merchants, plans, subscriptions and the payment log as
  a state machine over plain values. The host hands it the current time and
  the payer's token balance; the engine records the token transfers and
  events for the host to carry out. `src/state.rs` holds the mathematical
  model and the transitions, `src/engine.rs` the executable engine proved
  against them, and `src/laws.rs` what holds across operations (the
  invariant, refusals changing nothing, cancellation being final, the payment
  log being append-only, and so on).
- `app/` is the Soroban contract around it: authentication, ledger time,
  token balance queries and transfers, event publication and storage of the
  engine's records.
- `tests/` exercises the engine on concrete scenarios.
