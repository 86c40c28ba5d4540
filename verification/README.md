# srml-babe

A verified library for the BABE consensus module: the bookkeeping of slots
and epochs, the on-chain randomness collected from the VRF outputs of block
authors, the pre-runtime and consensus digest items that carry them, and the
slot inherent that ties a block's timestamp to the slot in its seal. It also
holds the logic of the chain-spec builder command line (its seeds report and
seed generation).

Layout:

- `src/primitives.rs`: identifiers, lengths and byte helpers.
- `src/codec.rs`: the SCALE pieces taken from parity-scale-codec.
- `src/digest.rs`: BABE pre-digests and consensus logs, their encodings,
  and finding a block's author.
- `src/hashing.rs`: BLAKE2b-256.
- `src/module.rs`: the module's storage as a state with a mathematical view,
  and its block initialization, finalization and epoch changes.
- `src/inherent.rs`: inherent data, the slot inherent provider and the check.
- `src/offence.rs`: the equivocation offence and its slash fraction.
- `src/chain_spec_builder.rs`: the command line's verified logic.
- `src/laws.rs`: properties of the module stated and proved across calls.
- `app/main.rs`: the chain-spec builder program around the library.
