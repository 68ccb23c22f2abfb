# storage_engine

The engine layer of a key-value store, verified with Verus: cursors over the entries of a
snapshot, the statistics of what reading takes, and the traits of engines and snapshots.

- `src/key.rs`: keys and their order.
- `src/iterator.rs`: what an iterator walks over and how it moves.
- `src/scan.rs`: what the operations of a cursor do, as a model.
- `src/cursor.rs`: the cursor.
- `src/statistics.rs`: the counters.
- `src/error.rs`: the errors.
- `src/engine.rs`: the traits of engines and snapshots, and what a batch of changes does.
- `src/memory.rs`: a store that keeps its entries in memory.
- `src/laws.rs`: what holds between the operations.

`app/` is ordinary Rust around the library: error texts, callbacks, and the opening of a local
engine. An iterator, a snapshot or an engine can be implemented in ordinary Rust too; whoever
does so answers for the contracts of the trait.
