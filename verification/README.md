# postflop_solver (verified core)

The verified library of a post-flop poker solver, written in Verus.

- `src/` — the library; every function carries a contract that Verus proves, except
  the trusted items, whose contracts are assumed: the calls into `bincode`
  (`codec.rs`), `zstd` (`compress.rs`) and `rand` (`buffer.rs`), the bincode error
  types, and the specification of `u64::count_ones` (`ev_map.rs`).
  - `card`, `hand`, `strength`, `ev_map`: card-pair indices, rank/suit sets,
    straights and draws, coarse flop hand scores.
  - `bucketing`, `abstraction`: turn-board hand features, the seeded generator of
    the clustering, bucket assignment, cluster sizes.
  - `action_tree`, `flop_tree`, `traversal`, `encoder`: the betting tree, its
    flop-only arena layout, boundary amounts, action helpers.
  - `codec`, `compress`, `file`: the `.flop` file header and body framing over
    `bincode` and `zstd`.
  - `game`: storage bookkeeping of a solved game (target storage mode, kept
    sizes, what is written and rebuilt on load).
  - `oracle`: the turn-boundary matrix table and flop-to-turn hand mappings.
  - `buffer`: reservoir sample buffers (`rand` draws the replaced slot).
  - `device`, `cfr`: device names, the CFR reset schedule and log levels.
  - `cluster`: showdown counts of a hand against an opponent range on a runout.
- `tests/` — tests of the library.
- `app/` — file I/O and the floating-point parts (features, k-means, discount
  factors, encodings) that sit around the library.
