# autoshare

A verified model of the AutoShare Soroban contract: payment-sharing groups
whose creators buy usages with an allowed token, an admin who manages the
token allow-list, the usage fee, a pause switch and withdrawals, and payment
records per user and per group.

- `src/` — the verified library. `store` models the contract's
  storage (instance entries and the persistent `DataKey` entries) and its
  mathematical view; each operation (`admin`, `tokens`, `groups`, `usage`,
  `history`, `treasury`, `categories`) is specified by a transition over
  that view, refuses with the contract's `Error` leaving storage unchanged,
  and returns the outside work it needs (token movements, events) as
  `Action`s. `laws` states and proves the invariants and round trips.
- `app/` — the Soroban side: authorization, reading and writing storage,
  token transfers and event publication around the library.
- `tests/` — tests of the library on concrete values.
