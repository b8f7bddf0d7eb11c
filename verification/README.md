# clawdb

The verified core of ClawDB, a vector database on RocksDB.

`src/` is a Verus library. Its functions are proved against their
contracts, except the small wrappers in `clock` and `codec` that call
`std::time`, `u64`'s byte conversions and `byteorder`: their contracts are
taken as given, and each one's doc comment says what it claims.

- `collection`: collection ids and 12-byte vector keys, their encodings and
  round trips; membership of a stored key in a collection.
- `storage::cf`: the column families and their names.
- `plugins`: the tombstone marker and the compaction filter that drops it,
  the collection-prefix extractor, and the merge of partial updates.
- `cache`: a vector cache with least-recently-used eviction and a time to
  live, and a two-level cache built from two of them.
- `io_limiter`: a token-bucket limiter with three priority classes; its
  refill amount is computed in integers exactly as the double-precision
  product of the rate and one tenth of a second would give it.
- `loader`: parsers of the SIFT `.fvecs`, `.bvecs` and `.ivecs` formats.
- `ivf`: the inverted lists of the IVF index and the gathering of search
  candidates.
- `diskann`, `distance`, `async_io`: settings and handles used by the rest.
- `clock`, `codec`: the wrappers above, with the few verified helpers
  around them.

`app/` is the program around it: RocksDB storage, f32 vectors and distances,
k-means, the HNSW graph, product quantization, file reading and the demo,
and mutex-guarded shared handles on the cache and the limiter. Times to live
are durations there and whole nanoseconds in the library.
