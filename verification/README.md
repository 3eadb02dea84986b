# tipz

The rules of the Tipz tipping contract as a verified Verus library.

- `src/validation.rs` — username rules and text limits.
- `src/types.rs` — profiles, tips, errors and their mathematical views.
- `src/state.rs` — the model of the whole contract state and of each
  operation, as spec functions over views.
- `src/contract.rs` — `Tipz`, the executable state: registration, tips,
  lookups, the recent-tips query, and snapshot export/restore, each proved
  against the model.
- `src/laws.rs` — properties that span operations, proved over the model.
- `app/lib.rs` — the Soroban contract: authorization, storage, the token
  transfer and events around the library.
