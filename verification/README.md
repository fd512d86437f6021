# campaign

The ledger storage of a crowdfunding campaign on Soroban, written in Verus: what
the campaign reads and writes, how long its entries live, which milestones a
raised amount unlocks, and how an emergency freeze is undone. Every function
carries a contract over a model of the ledger, and Verus proves it.

## Layout

- `src/host.rs` is the boundary to `soroban_sdk`. The host's types, the names for
  their contents and one function for each call into the SDK stand here; the
  proofs take their contracts on trust.
- `src/keys.rs`, `src/types.rs`, `src/milestones.rs` say how keys, records and
  milestones are laid out on the ledger.
- `src/ledger.rs` models the ledger as maps from keys to values and ttls.
- `src/storage.rs` holds the accessors, `src/freeze.rs` the emergency brake.
- `src/coherence.rs` is the invariant that every operation keeps, and
  `src/laws.rs` states what holds of the operations taken together.
- `app/` is the contract itself: entry points, authorisation, and refusals as
  failed invocations.
- `tests/` runs the library on a real host.

## On the ledger

A key is a vector: the name of the variant as a symbol, then its arguments. A
record is a vector of its fields in order; a status is written as its code, and
the asset of a donor as the token's address or nothing. The milestones are one
vector of pairs of target and status code.
