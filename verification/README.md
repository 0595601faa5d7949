# hunty

Storage, scoring and schema-migration logic of the Hunty treasure-hunt
contracts on Soroban, verified with Verus.

Contract storage is modelled as two maps from byte strings to byte strings,
the instance and the persistent entries of the running contract, and the
contracts of the library are stated over these maps.

Scalar entries keep the layout of the Hunty contracts: the schema version
and rollback point (`SCHEMA`, `RBKVER`), the counters (`CNTR`, `(CCNT, id)`),
the per-hunt clue and NFT lists (`CLST`, `CLCT`, `CLEX`, `HNFT`, `HNFC`,
`HNFX`), the player count (`PLCT`) and the NFT contract's settings (`MAXS`,
`INIT`, `CVER`) are stored under symbol and tuple keys with `u32`, `u64`,
`bool` and `()` values. Hunts, clues, NFTs and player progress are kept as
length-prefixed byte records under byte-string keys, and so are the entries
whose keys or values are addresses.

## Layout

- `src/ledger.rs`, `src/collections.rs`: the trusted boundary to
  `soroban-sdk` (storage reads and writes, authorization, and the host's
  `Vec` and `Map`), each call with the contract it is believed to keep.
- `src/codec.rs`, `src/keys.rs`, `src/records.rs`, `src/store.rs`,
  `src/slots.rs`: encodings of integers, records, keys and stored values,
  with their round-trip and injectivity lemmas.
- `src/types.rs`, `src/progress.rs`: hunts, clues, rewards, NFTs and a
  player's progress, with the rules that read them.
- `src/hunt_storage.rs`, `src/nft_storage.rs`: the storage layers of the
  hunt contract and of the NFT reward contract.
- `src/migration.rs`, `src/hunty_migration.rs`, `src/reward_migration.rs`:
  schema versions, rollback points and the per-contract migrations.
- `src/clue_list.rs`, `src/nft_list.rs`, `src/member_lists.rs`: what the
  per-hunt and per-owner lists promise across calls.
- `app/`: the contract-facing copies of the library's types, which carry
  `#[contracttype]`, and the conversions between the two.
- `tests/`: tests run against the real `soroban-sdk` host.
