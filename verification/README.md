# node_logic

Verified decision logic of a blockchain node: GRANDPA warp sync proofs (generation and
verification) and the auxiliary-database schema of GRANDPA, the slot-based collator of a
parachain (relay parent choice, slot timing, block collection per core, collation merging, and
the answer to each relay-chain-driven collation request), the salt that orders ready
transactions, the MEV Shield error messages, and the BLS12-381 host functions.

- `src/` is the library, verified with Verus. Each public function states its result in its
  `ensures`; laws that relate several functions are public proof functions (`lemma_*`).
- `tests/` exercises the library on concrete values.
- `app/` holds what the library leaves to its callers: process-wide state, the wall clock, the
  environment, and copies of library types that carry codec and error derives.

Calls into outside crates (hashing, SCALE codec, the LRU map, arkworks) sit behind small trusted
functions marked `#[verifier::external_body]`; their doc comments say what their contracts claim.
