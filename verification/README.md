# zebra_crosslink

The data structures, byte formats and decisions of Zcash Crosslink (the
trailing finality layer of a Zebra node), with their contracts proved by
Verus.

## Layout

- `src/` — the verified library.
  - `block_header`, `fat_pointer`, `chain`, `serialization`, `bytes`,
    `hex_text`: PoW block headers, fat pointers to BFT blocks, BFT blocks and
    their stream encodings, each with an encode/decode round-trip law.
  - `crosslink_chain` (with `bft`, `params`, `util`): protocol parameters and
    the BFT payload.
  - `malctx`, `mal_system`: heights, rounds, votes and their 76-byte layout,
    validator sets, proposer selection, Ed25519 signing, commit certificates
    and their fat pointers.
  - `mal_driver`: what the node answers the BFT engine, and how a decision
    moves it to the next height.
  - `tfl`, `service`: stakers and the finalizer roster, block and transaction
    finality, and the decisions of the finality service's request handler and
    main loop.
  - `block_dump`, `viz_logic`, `viz_graph`, `test_format`,
    `finality_command`: block hash listings, the visualizer's height
    arithmetic and block graph, the test instruction file format, and the
    wallet tool's request to make a block final.
  - `crypto`: the calls into `blake3`, `ed25519-zebra` and `sha2`, with the
    contracts the library relies on.
- `app/` — what surrounds the library: files, the terminal, the clock,
  serialisable copies of its types, and the loops that carry out its
  decisions against the node's state and the BFT engine.
- `tests/` — tests of the library from outside.
