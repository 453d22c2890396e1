# circlefi

Verified core of the CircleFi Soroban contracts, written in Verus.

- `src/address.rs`: addresses, held as their XDR encoding.
- `src/circlefi/`: the savings-circle registry. `types.rs` has the records
  and keys, `store.rs` a keyed store with at most one record per key,
  `spec.rs` states each operation as a check (which error, in which order)
  and an effect on storage, `contract.rs` implements the operations against
  those statements, `laws.rs` proves properties that span operations, and
  `history.rs` runs the operations over histories of calls from an empty
  registry and proves what every such history leaves (where records come
  from, pots, volumes, trust scores).
- `src/factory/`: the circle factory's index, laid out the same way: terms
  check, deployment salts, recording, newest-first paging (also from a
  window of read slots), and `history.rs` for histories of `create` calls.
- `app/`: the Soroban contracts. Each entry point authorizes its caller,
  loads the records it touches from contract storage into the library, lets
  the library decide, and writes the records back; the factory also deploys
  the circle the library asks for.
