# nft_currency

A registry of non-fungible tokens that can be offered for rent, written in
Verus. Every function in `src/` carries a contract over the mathematical model
in `src/model.rs`, and Verus proves the code against it.

- `src/table.rs`: a key-value table kept as a list of entries with distinct
  keys; its view is a `Map`.
- `src/types.rs`: origins, errors, events, the per-account token list.
- `src/encode.rs`: the SCALE encodings token ids are made from
  (`parity-scale-codec`).
- `src/model.rs`: the registry's state as maps, and what each call does to it.
- `src/nft.rs`: the `NonFungibleToken` operations.
- `src/pallet.rs`: the registry, its user calls and its operations.
- `src/laws.rs`: properties that hold across calls (ownership stays listed,
  a lent token is locked, what is written is read back, ...).
- `app/lib.rs`: a host that draws randomness, reads and moves balances and
  keeps the event log around the registry.

The registry draws nothing and pays nothing itself: `mint_to` takes the
randomness drawn for `randomness_subject()`, and `rent_nft` takes the renter's
free balance and hands back the fee transfer to make.
