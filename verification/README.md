# aip_desktop

The rules behind a local desktop companion: two provisional agents, their conversations,
memories and simulated vitals, the local model runtime protocol, compute-node routing, the
sandboxed extension interpreter and the administrative gateway.

- `src/` is the library, verified with Verus. Its public functions state their results in
  their contracts, over spec functions on plain values; where a function hands work to a
  caller-supplied installer or callback, its contract states what it hands over and how the
  answer is used. The laws that span several functions are public proof functions named
  `law_*`. The store itself (queries, transactions, audit records) is not part of it: the
  library holds the checks and decisions that surround each write.
- `tests/` runs the library on concrete values.
- `app/` holds what Verus does not see: the clock, JSON decoding with serde, the overlay
  geometry in floating point, the fullscreen monitor loop and the platform region installer.
