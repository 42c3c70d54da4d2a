# treasury

The protocol treasury contract: it holds protocol funds, keeps an append-only
history of treasury entries, per-program allocation records, an admin and the
address of the treasury token.

- `src/` is the verified library. `storage` holds the contents of the
  contract's storage (`TreasuryStorage`, viewed as `StorageView`) and the
  typed read/write helpers, each with a contract over the view;
  `lib.rs` holds the contract's entry points (`get_balance`, `get_history`,
  `initialize`) and the laws that relate them; `types` and `errors` hold the
  records and error codes.
- `app/` is the Soroban contract around the library: each entry point reads
  the ledger keys it needs into a `TreasuryStorage`, calls the library, and
  writes back what changed. The ledger-encodable copies of the records and
  the storage keys (`DataKey`) live there.
- `tests/` exercises the library on concrete values.
