# guard_session

A verified library for guardian sessions and staking payouts.

- `src/inflation.rs`: the era payout of nominated proof-of-stake, split between validators
  and guardians, computed with `sp_runtime`'s `Perbill` and piecewise linear curves.
- `src/session.rs`: the pallet's storage as a value, session rotation, genesis, keys, and the
  bookkeeping of agreements and their answers.
- `src/agreements.rs`: the node's notes on agreements, their SCALE encoding, which ones it
  answers, and the order in which its keys sign the answers.
- `src/transaction.rs`: which unsigned transactions enter the pool.
- `src/historical.rs`: a session's guardian set paired with full identifications.
- `src/ids.rs`: 32-byte identifiers and a map keyed by them.
- `src/laws.rs`: properties proved across the operations.
- `app/`: the runtime side: local storage, keystore, off-chain database, session handlers.
