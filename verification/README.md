# ethcore_client

The decisions of a blockchain database client, verified with Verus.

The library performs no input or output.

- A reading operation is a function of the answers that are at hand
  (`answers::Answers`). It gives its result, or names the next question whose
  answer it needs (`answers::Lookup`). The caller reads the chain, records the
  answer and calls again.
- An operation that changes something is a state machine: it takes note of what
  has come of its last action and names the next one. The import of blocks, the
  submission of seals and the start of a client are of this kind.

## Layout

- `src/types.rs`: hashes, numbers, names of blocks and the other plain values.
- `src/answers.rs`: questions, answers and lookups.
- `src/rlp.rs`: the encoding that blocks are stored in.
- `src/blocks.rs`: what stands where in an encoded block.
- `src/reads.rs`: blocks, transactions, routes, hashes of ancestors, admission.
- `src/logs.rs`: the search for log entries.
- `src/import.rs`: the check of a block and the import of verified blocks.
- `src/sealing.rs`: what a new block is made of.
- `src/client.rs`: the client's own state, and the submission of seals.
- `src/startup.rs`: the start of a client.
- `src/report.rs`: the client's report and the information on the chain.
- `src/laws/`: what holds of the operations as a whole.
- `app/`: the client around the library, with its locks, its chain store, its
  state database and its block queue.
