# nevo_contract

A scholarship-pool contract. Sponsors create pools, donors fund them,
registered schools approve or reject student applications, and approved
students claim funds in instalments; every claim leaves a one-percent fee for
the protocol admin.

- `src/` is the verified library. `Contract` holds the whole ledger; each
  entry point is a method whose contract is stated over `ContractModel`
  (`src/model.rs`). Entry points that demand an authorization return an
  `Outcome` naming the address, and payouts come back as `Transfer`s.
  `src/history.rs` describes sequences of calls, and `src/laws.rs` proves
  properties that span entry points and whole call sequences.
- `app/` is the Soroban contract around it: it keeps a snapshot of the ledger
  in persistent storage, demands the authorizations, performs the token
  transfers and aborts with the library's messages.
- `tests/` exercises the library.
