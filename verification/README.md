# soromint

A verified model of three Soroban contracts: a lending pool with
liquidation, a Groth16 metadata verifier over BLS12-381, and a mint gateway
that creates tokens only under attested metadata commitments.

- `src/` is the library, verified with Verus. Every operation takes the
  contract's state and the values its environment supplies (the ledger
  sequence, oracle prices, a staleness verdict, a token balance) and answers
  the new state, a result or a refusal. The host's hashing and curve
  arithmetic are reached through trusted wrappers in `src/zk/host.rs` and
  `src/gateway/gateway.rs` (`string_to_xdr`).
  - `src/lending/`: valuation, health factor, account operations,
    liquidation and the two halves of a flash-loan liquidation. Each
    operation comes twice: `try_*` answers every refusal as a `PoolError`,
    and the plain one requires the inputs on which the contract goes
    through and answers the value alone.
  - `src/zk/`: point encodings and decoding, scalars and the Fiat–Shamir
    transcript, Groth16 single and batch verification, the registry,
    policies, attestations and access control.
  - `src/gateway/`: token commitments, quotas, creation and minting.
  - `laws.rs` in each module states the properties that span operations.
- `tests/` runs the library against the real host cryptography.
- `app/` holds the contracts themselves: storage, authorization, events,
  token transfers and calls to other contracts.
